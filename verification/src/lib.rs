//! Feed assembly and authorization engine of a small social-feed service.
//!
//! Users register, authenticate with bearer tokens, follow each other, post
//! short text events and read a newest-first feed of their own events and of
//! the events of everyone they follow.
//!
//! The state of the service is a [`state::State`]: a credential store, a
//! follow graph and an event store, each with its own promises. The
//! functions of [`handlers`] are the endpoints; [`timeline`] assembles the
//! feed; [`laws`] holds what is true of all of it. Every executable function
//! says in its contract what it returns and how it changes the state, over
//! the mathematical view of the state, [`state::Tables`].

pub mod auth;
pub mod client;
pub mod credentials;
pub mod endpoints;
pub mod env;
pub mod error;
pub mod events;
pub mod follows;
pub mod fresh;
pub mod handlers;
pub mod laws;
pub mod middlewares;
pub mod payloads;
pub mod responses;
pub mod state;
pub mod status;
pub mod timeline;

//! The deployment environment the service runs in.

use vstd::prelude::*;

verus! {

/// Where the service is deployed.
#[derive(Debug, PartialEq, Eq, Clone, Copy, Structural)]
pub enum Env {
    Production,
    Development,
    Test,
}

impl Env {
    /// Whether this is the test environment.
    pub fn is_test(self) -> (b: bool)
        ensures
            b == (self == Env::Test),
    {
        matches!(self, Env::Test)
    }

    /// The environment that a name stands for.
    pub open spec fn named(name: Seq<char>) -> Option<Env> {
        if name == "production"@ {
            Some(Env::Production)
        } else if name == "development"@ {
            Some(Env::Development)
        } else if name == "test"@ {
            Some(Env::Test)
        } else {
            None
        }
    }

    /// The environment that a name stands for: `production`, `development`
    /// or `test`, spelled exactly so. Any other name stands for none.
    pub fn from_name(name: &str) -> (r: Option<Env>)
        ensures
            r == Env::named(name@),
    {
        let given = name.to_owned();
        if given == "production".to_owned() {
            Some(Env::Production)
        } else if given == "development".to_owned() {
            Some(Env::Development)
        } else if given == "test".to_owned() {
            Some(Env::Test)
        } else {
            None
        }
    }
}

} // verus!

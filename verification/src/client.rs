//! The browser client's side of the service: the pages it has, the routes
//! they live at, and what each message does to its model.
//!
//! Nothing here touches the browser. [`update`] takes a message and the
//! values of the forms, changes the model, and answers with the commands
//! that the surrounding program is to carry out, in their order.

use vstd::prelude::*;
use vstd::string::StringExecFns;
use crate::responses::{EventResponse, PostEventResponse, UserResponse};

verus! {

/// Data that a page shows once it has arrived.
#[derive(Debug, PartialEq, Eq)]
pub enum PageData<T> {
    Loaded(T),
    NotLoaded,
}

/// The pages of the client.
#[derive(Debug, PartialEq, Eq)]
pub enum Page {
    RootLoggedOut,
    Timeline(PageData<Vec<EventResponse>>),
    Login,
    SignUp,
    UserProfile(String),
    SignedIn,
    PostEvent,
}

/// A request of the client failed.
#[derive(Debug, PartialEq, Eq)]
pub enum Error {
    RequestFailed(String),
}

/// What is shown to the user for a while.
#[derive(Debug, PartialEq, Eq)]
pub enum FlashMsg {
    Notice(String),
    Error(String),
}

/// What a [`FlashMsg`] stands for.
pub enum FlashView {
    Notice(Seq<char>),
    Error(Seq<char>),
}

impl DeepView for FlashMsg {
    type V = FlashView;

    open spec fn deep_view(&self) -> FlashView {
        match self {
            FlashMsg::Notice(text) => FlashView::Notice(text@),
            FlashMsg::Error(text) => FlashView::Error(text@),
        }
    }
}

/// The flash: at most one message at a time.
#[derive(Debug, PartialEq, Eq)]
pub struct Flash {
    msg: Option<FlashMsg>,
}

impl View for Flash {
    type V = Option<FlashView>;

    closed spec fn view(&self) -> Option<FlashView> {
        self.msg.deep_view()
    }
}

impl Flash {
    /// A flash that shows nothing.
    pub fn new() -> (f: Self)
        ensures
            f@ is None,
    {
        Flash { msg: None }
    }

    /// The message that is shown.
    pub fn get(&self) -> (m: Option<&FlashMsg>)
        ensures
            m.deep_view() == self@,
    {
        self.msg.as_ref()
    }

    /// Shows nothing any more.
    pub fn clear(&mut self)
        ensures
            final(self)@ is None,
    {
        self.msg = None;
    }

    /// Shows a notice.
    pub fn set_notice(&mut self, text: &str)
        ensures
            final(self)@ == Some(FlashView::Notice(text@)),
    {
        self.msg = Some(FlashMsg::Notice(text.to_owned()));
    }

    /// Shows an error.
    pub fn set_error(&mut self, text: &str)
        ensures
            final(self)@ == Some(FlashView::Error(text@)),
    {
        self.msg = Some(FlashMsg::Error(text.to_owned()));
    }
}

/// What the client knows.
#[derive(Debug, PartialEq, Eq)]
pub struct Model {
    pub auth_token: Option<String>,
    pub current_user: Option<UserResponse>,
    pub page: Page,
    pub flash: Flash,
}

/// What the user has typed into the forms.
#[derive(Debug, PartialEq, Eq)]
pub struct FormValues {
    pub login_username: String,
    pub login_password: String,
    pub sign_up_username: String,
    pub sign_up_password: String,
    pub post_event_text: String,
}

/// What happened.
#[derive(Debug, PartialEq, Eq)]
pub enum Msg {
    LoginFormSubmitted,
    SignUpFormSubmitted,
    CreateUserEndpointResponded(String),
    LoginEndpointResponded(String),
    MeLoaded(UserResponse),
    /// The address changed; the message carries the segments of the new
    /// path.
    UrlChanged(Vec<String>),
    LoadUserProfile(String),
    GetUserLoaded(UserResponse),
    EventPosted(EventResponse),
    Error(Error),
    ClearFlash,
    LoadTimelineEndpointResponded(Vec<EventResponse>),
    LoadTimeline,
    PostEventFormSubmitted,
    PostEventEndpointResponded(PostEventResponse),
    Logout,
    Noop,
}

/// What the surrounding program is to do.
#[derive(Debug, PartialEq, Eq)]
#[allow(inconsistent_fields)]
pub enum Command {
    /// Ask the service to log a user in.
    Login { username: String, password: String },
    /// Ask the service to register a user.
    CreateUser { username: String, password: String },
    /// Ask the service who owns the token.
    ReloadCurrentUser { auth_token: String },
    /// Ask the service for a profile.
    LoadUser { username: String, auth_token: Option<String> },
    /// Ask the service for the feed.
    LoadTimeline { auth_token: Option<String> },
    /// Ask the service to post an event.
    PostEvent { auth_token: Option<String>, content: String },
    /// Keep the token for the next visit.
    StoreAuthToken(String),
    /// Forget the token that was kept.
    RemoveAuthToken,
    /// Show the address of the page that the model is on, and remember it
    /// in the history.
    PushUrl,
    /// Come back with this message.
    Send(Msg),
    /// Come back with [`Msg::ClearFlash`] after a while.
    ClearFlashLater,
}

/// What is flashed when a request fails.
pub open spec fn request_failed() -> Seq<char> {
    "Request Failed"@
}

/// What is flashed when an event was posted.
pub open spec fn event_posted() -> Seq<char> {
    "Event Posted"@
}

fn names(segment: &String, word: &str) -> (b: bool)
    ensures
        b == (segment@ == word@),
{
    *segment == word.to_owned()
}

impl Page {
    /// The page at a path, given as its segments. The empty path leads to
    /// the feed for somebody who is logged in, and to the root page for
    /// anybody else.
    pub open spec fn at(path: Seq<String>, logged_in: bool) -> Option<Page> {
        if path.len() == 0 {
            if logged_in {
                Some(Page::Timeline(PageData::NotLoaded))
            } else {
                Some(Page::RootLoggedOut)
            }
        } else if path.len() == 1 {
            if path[0]@ == "signup"@ {
                Some(Page::SignUp)
            } else if path[0]@ == "login"@ {
                Some(Page::Login)
            } else if path[0]@ == "signedin"@ {
                Some(Page::SignedIn)
            } else {
                None
            }
        } else if path.len() == 2 {
            if path[0]@ == "users"@ {
                Some(Page::UserProfile(path[1]))
            } else if path[0]@ == "events"@ && path[1]@ == "new"@ {
                Some(Page::PostEvent)
            } else {
                None
            }
        } else {
            None
        }
    }

    /// The page at a path, if there is one.
    pub fn from(path: &Vec<String>, model: &Model) -> (r: Option<Page>)
        ensures
            r == Page::at(path@, model.auth_token is Some),
    {
        if path.len() == 0 {
            if model.logged_in() {
                Some(Page::Timeline(PageData::NotLoaded))
            } else {
                Some(Page::RootLoggedOut)
            }
        } else if path.len() == 1 {
            if names(&path[0], "signup") {
                Some(Page::SignUp)
            } else if names(&path[0], "login") {
                Some(Page::Login)
            } else if names(&path[0], "signedin") {
                Some(Page::SignedIn)
            } else {
                None
            }
        } else if path.len() == 2 {
            if names(&path[0], "users") {
                Some(Page::UserProfile(path[1].clone()))
            } else if names(&path[0], "events") && names(&path[1], "new") {
                Some(Page::PostEvent)
            } else {
                None
            }
        } else {
            None
        }
    }

    /// The segments of the path of a page.
    pub open spec fn segments(self) -> Seq<Seq<char>> {
        match self {
            Page::RootLoggedOut => seq![],
            Page::Timeline(_) => seq![],
            Page::Login => seq!["login"@],
            Page::SignUp => seq!["signup"@],
            Page::UserProfile(username) => seq!["users"@, username@],
            Page::SignedIn => seq!["signedin"@],
            Page::PostEvent => seq!["events"@, "new"@],
        }
    }

    /// The path of a page, as it is written in an address.
    pub open spec fn spec_path(self) -> Seq<char> {
        match self {
            Page::RootLoggedOut => "/"@,
            Page::Timeline(_) => "/"@,
            Page::Login => "/login"@,
            Page::SignUp => "/signup"@,
            Page::UserProfile(username) => "/users/"@ + username@,
            Page::SignedIn => "/signedin"@,
            Page::PostEvent => "/events/new"@,
        }
    }

    /// The path of a page, as it is written in an address.
    pub fn path(&self) -> (r: String)
        ensures
            r@ == self.spec_path(),
    {
        match self {
            Page::RootLoggedOut => "/".to_owned(),
            Page::Timeline(_) => "/".to_owned(),
            Page::Login => "/login".to_owned(),
            Page::SignUp => "/signup".to_owned(),
            Page::UserProfile(username) => {
                let mut path = "/users/".to_owned();
                path.append(username.as_str());
                path
            },
            Page::SignedIn => "/signedin".to_owned(),
            Page::PostEvent => "/events/new".to_owned(),
        }
    }

    /// The message that fetches what a page shows, if it shows anything
    /// that has to be fetched.
    pub open spec fn spec_load_data(self) -> Option<Msg> {
        match self {
            Page::UserProfile(username) => Some(Msg::LoadUserProfile(username)),
            Page::Timeline(_) => Some(Msg::LoadTimeline),
            _ => None,
        }
    }

    /// The message that fetches what a page shows.
    pub fn load_data(&self) -> (r: Option<Msg>)
        ensures
            r == self.spec_load_data(),
    {
        match self {
            Page::UserProfile(username) => Some(Msg::LoadUserProfile(username.clone())),
            Page::Timeline(_) => Some(Msg::LoadTimeline),
            Page::RootLoggedOut | Page::Login | Page::SignUp | Page::SignedIn | Page::PostEvent => None,
        }
    }

    /// The commands that lead to a page: fetch its data, then show its
    /// address.
    pub open spec fn arrival(self) -> Seq<Command> {
        match self.spec_load_data() {
            Some(msg) => seq![Command::Send(msg), Command::PushUrl],
            None => seq![Command::PushUrl],
        }
    }

    /// Goes to this page: the model is on it afterwards, and `commands`
    /// has the commands of [`Self::arrival`] at its end.
    pub fn go(self, model: &mut Model, commands: &mut Vec<Command>)
        ensures
            final(model).page == self,
            final(model).auth_token == old(model).auth_token,
            final(model).current_user == old(model).current_user,
            final(model).flash == old(model).flash,
            final(commands)@ == old(commands)@ + self.arrival(),
    {
        if let Some(msg) = self.load_data() {
            commands.push(Command::Send(msg));
        }
        commands.push(Command::PushUrl);
        model.page = self;
    }
}

/// A page that has a path of its own is the page at that path, whoever
/// asks; the feed and the root page share the empty path.
pub proof fn law_pages_are_at_their_paths(page: Page, path: Seq<String>, logged_in: bool)
    requires
        path.len() == page.segments().len(),
        forall|i: int| 0 <= i < path.len() ==> (#[trigger] path[i])@ == page.segments()[i],
        page matches Page::UserProfile(username) ==> path[1] == username,
    ensures
        match page {
            Page::RootLoggedOut | Page::Timeline(_) => Page::at(path, logged_in) == Some(
                if logged_in {
                    Page::Timeline(PageData::NotLoaded)
                } else {
                    Page::RootLoggedOut
                },
            ),
            _ => Page::at(path, logged_in) == Some(page),
        },
{
    reveal_strlit("signup");
    reveal_strlit("login");
    reveal_strlit("signedin");
    reveal_strlit("users");
    reveal_strlit("events");
    reveal_strlit("new");
    match page {
        Page::RootLoggedOut | Page::Timeline(_) => {},
        Page::Login => {
            assert(path[0]@ == "login"@);
            assert("login"@.len() != "signup"@.len());
        },
        Page::SignUp => {
            assert(path[0]@ == "signup"@);
        },
        Page::SignedIn => {
            assert(path[0]@ == "signedin"@);
            assert("signedin"@.len() != "signup"@.len());
            assert("signedin"@.len() != "login"@.len());
        },
        Page::UserProfile(_) => {
            assert(path[0]@ == "users"@);
        },
        Page::PostEvent => {
            assert(path[0]@ == "events"@);
            assert(path[1]@ == "new"@);
            assert("events"@.len() != "users"@.len());
        },
    }
}

impl Model {
    /// The model of a client that knows the given token and is on the
    /// given page.
    pub fn new(auth_token: Option<String>, page: Page) -> (m: Self)
        ensures
            m.auth_token == auth_token,
            m.current_user is None,
            m.page == page,
            m.flash@ is None,
    {
        Model { auth_token, current_user: None, page, flash: Flash::new() }
    }

    /// Takes a token as the client's own.
    pub fn set_auth_token(&mut self, token: &str)
        ensures
            final(self).auth_token matches Some(kept) && kept@ == token@,
            final(self).current_user == old(self).current_user,
            final(self).page == old(self).page,
            final(self).flash == old(self).flash,
    {
        self.auth_token = Some(token.to_owned());
    }

    /// Forgets the token, and with it who the user is.
    pub fn remove_auth_token(&mut self)
        ensures
            final(self).auth_token is None,
            final(self).current_user is None,
            final(self).page == old(self).page,
            final(self).flash == old(self).flash,
    {
        self.auth_token = None;
        self.current_user = None;
    }

    /// Whether the client has a token.
    pub fn logged_in(&self) -> (b: bool)
        ensures
            b == (self.auth_token is Some),
    {
        self.auth_token.is_some()
    }
}

/// Whether [`update`] can take a message: an address that changed has to
/// lead to a page.
pub open spec fn takes(model: Model, msg: Msg) -> bool {
    msg matches Msg::UrlChanged(path) ==> Page::at(path@, model.auth_token is Some) is Some
}

/// The commands that a message leads to.
pub open spec fn commands_of(model: Model, msg: Msg, forms: FormValues) -> Seq<Command> {
    match msg {
        Msg::LoginFormSubmitted => seq![
            Command::Login { username: forms.login_username, password: forms.login_password },
        ],
        Msg::SignUpFormSubmitted => seq![
            Command::CreateUser {
                username: forms.sign_up_username,
                password: forms.sign_up_password,
            },
        ],
        Msg::CreateUserEndpointResponded(token) | Msg::LoginEndpointResponded(token) => seq![
            Command::StoreAuthToken(token),
            Command::ReloadCurrentUser { auth_token: token },
            Command::PushUrl,
        ],
        Msg::UrlChanged(path) => match Page::at(path@, model.auth_token is Some) {
            Some(page) => match page.spec_load_data() {
                Some(load) => seq![Command::Send(load)],
                None => seq![],
            },
            None => seq![],
        },
        Msg::LoadUserProfile(username) => seq![
            Command::LoadUser { username, auth_token: model.auth_token },
        ],
        Msg::Error(_) => seq![Command::ClearFlashLater],
        Msg::Logout => seq![Command::PushUrl, Command::RemoveAuthToken],
        Msg::LoadTimeline => seq![Command::LoadTimeline { auth_token: model.auth_token }],
        Msg::PostEventFormSubmitted => seq![
            Command::PostEvent { auth_token: model.auth_token, content: forms.post_event_text },
        ],
        Msg::PostEventEndpointResponded(_) => seq![
            Command::ClearFlashLater,
            Command::Send(Msg::LoadTimeline),
            Command::PushUrl,
        ],
        Msg::MeLoaded(_)
        | Msg::GetUserLoaded(_)
        | Msg::EventPosted(_)
        | Msg::ClearFlash
        | Msg::LoadTimelineEndpointResponded(_)
        | Msg::Noop => seq![],
    }
}

/// The page that the model is on after a message.
pub open spec fn page_after(model: Model, msg: Msg) -> Page {
    match msg {
        Msg::CreateUserEndpointResponded(_) | Msg::LoginEndpointResponded(_) => Page::SignedIn,
        Msg::UrlChanged(path) => match Page::at(path@, model.auth_token is Some) {
            Some(page) => page,
            None => model.page,
        },
        Msg::Logout => Page::RootLoggedOut,
        Msg::LoadTimelineEndpointResponded(events) => match model.page {
            Page::Timeline(_) => Page::Timeline(PageData::Loaded(events)),
            _ => model.page,
        },
        Msg::PostEventEndpointResponded(_) => Page::Timeline(PageData::NotLoaded),
        _ => model.page,
    }
}

/// Whether `after` is the token that the client has after a message: the
/// token that a registration or a login answered with, none after a logout,
/// and the token it had in every other case.
pub open spec fn token_after(model: Model, msg: Msg, after: Option<String>) -> bool {
    match msg {
        Msg::CreateUserEndpointResponded(token) | Msg::LoginEndpointResponded(token) => after
            matches Some(kept) && kept@ == token@,
        Msg::Logout => after is None,
        _ => after == model.auth_token,
    }
}

/// The user that the client knows itself to be after a message.
pub open spec fn user_after(model: Model, msg: Msg) -> Option<UserResponse> {
    match msg {
        Msg::MeLoaded(user) => Some(user),
        Msg::Logout => None,
        _ => model.current_user,
    }
}

/// What is flashed after a message.
pub open spec fn flash_after(model: Model, msg: Msg) -> Option<FlashView> {
    match msg {
        Msg::Error(_) => Some(FlashView::Error(request_failed())),
        Msg::ClearFlash => None,
        Msg::PostEventEndpointResponded(_) => Some(FlashView::Notice(event_posted())),
        _ => model.flash@,
    }
}

/// Takes a message: changes the model, and answers with the commands that
/// are to be carried out, in their order.
pub fn update(msg: Msg, model: &mut Model, forms: &FormValues) -> (commands: Vec<Command>)
    requires
        takes(*old(model), msg),
    ensures
        commands@ == commands_of(*old(model), msg, *forms),
        final(model).page == page_after(*old(model), msg),
        token_after(*old(model), msg, final(model).auth_token),
        final(model).current_user == user_after(*old(model), msg),
        final(model).flash@ == flash_after(*old(model), msg),
{
    let mut commands: Vec<Command> = Vec::new();
    match msg {
        Msg::Noop => {},
        Msg::LoginFormSubmitted => {
            commands.push(
                Command::Login {
                    username: forms.login_username.clone(),
                    password: forms.login_password.clone(),
                },
            );
        },
        Msg::SignUpFormSubmitted => {
            commands.push(
                Command::CreateUser {
                    username: forms.sign_up_username.clone(),
                    password: forms.sign_up_password.clone(),
                },
            );
        },
        Msg::CreateUserEndpointResponded(token) => {
            model.set_auth_token(token.as_str());
            commands.push(Command::StoreAuthToken(token.clone()));
            commands.push(Command::ReloadCurrentUser { auth_token: token });
            Page::SignedIn.go(model, &mut commands);
        },
        Msg::LoginEndpointResponded(token) => {
            model.set_auth_token(token.as_str());
            commands.push(Command::StoreAuthToken(token.clone()));
            commands.push(Command::ReloadCurrentUser { auth_token: token });
            Page::SignedIn.go(model, &mut commands);
        },
        Msg::MeLoaded(user) => {
            model.current_user = Some(user);
        },
        Msg::UrlChanged(path) => {
            if let Some(page) = Page::from(&path, model) {
                if let Some(load) = page.load_data() {
                    commands.push(Command::Send(load));
                }
                model.page = page;
            }
        },
        Msg::LoadUserProfile(username) => {
            commands.push(Command::LoadUser { username, auth_token: model.auth_token.clone() });
        },
        Msg::GetUserLoaded(_) => {},
        Msg::EventPosted(_) => {},
        Msg::Error(_) => {
            model.flash.set_error("Request Failed");
            commands.push(Command::ClearFlashLater);
        },
        Msg::ClearFlash => {
            model.flash.clear();
        },
        Msg::Logout => {
            Page::RootLoggedOut.go(model, &mut commands);
            model.remove_auth_token();
            commands.push(Command::RemoveAuthToken);
        },
        Msg::LoadTimelineEndpointResponded(events) => {
            if let Page::Timeline(_) = &model.page {
                model.page = Page::Timeline(PageData::Loaded(events));
            }
        },
        Msg::LoadTimeline => {
            commands.push(Command::LoadTimeline { auth_token: model.auth_token.clone() });
        },
        Msg::PostEventFormSubmitted => {
            commands.push(
                Command::PostEvent {
                    auth_token: model.auth_token.clone(),
                    content: forms.post_event_text.clone(),
                },
            );
        },
        Msg::PostEventEndpointResponded(_) => {
            model.flash.set_notice("Event Posted");
            commands.push(Command::ClearFlashLater);
            Page::Timeline(PageData::NotLoaded).go(model, &mut commands);
        },
    }
    assert(commands@ =~= commands_of(*old(model), msg, *forms));
    commands
}

/// Starts the client at an address, with the token that was kept from the
/// last visit, if any: the model it starts with, and the first commands.
pub fn init(path: Vec<String>, stored_token: Option<String>) -> (r: (Model, Vec<Command>))
    requires
        Page::at(path@, stored_token is Some) is Some,
    ensures
        r.0.auth_token == stored_token,
        r.0.current_user is None,
        r.0.flash@ is None,
        Some(r.0.page) == Page::at(path@, stored_token is Some),
        r.1@ == seq![Command::Send(Msg::UrlChanged(path))] + (match r.0.page.spec_load_data() {
            Some(load) => seq![Command::Send(load)],
            None => seq![],
        }) + (match stored_token {
            Some(token) => seq![Command::ReloadCurrentUser { auth_token: token }],
            None => seq![],
        }),
{
    let mut model = Model::new(stored_token, Page::RootLoggedOut);
    let mut commands: Vec<Command> = Vec::new();
    let page = match Page::from(&path, &model) {
        Some(page) => page,
        None => Page::RootLoggedOut,
    };
    commands.push(Command::Send(Msg::UrlChanged(path)));
    if let Some(load) = page.load_data() {
        commands.push(Command::Send(load));
    }
    model.page = page;
    if let Some(token) = &model.auth_token {
        commands.push(Command::ReloadCurrentUser { auth_token: token.clone() });
    }
    assert(commands@ =~= seq![Command::Send(Msg::UrlChanged(path))] + (
    match model.page.spec_load_data() {
        Some(load) => seq![Command::Send(load)],
        None => seq![],
    }) + (match stored_token {
        Some(token) => seq![Command::ReloadCurrentUser { auth_token: token }],
        None => seq![],
    }));
    (model, commands)
}

} // verus!

//! The decisions of the server's request handlers.
//!
//! Each handler looks up the requesting user, checks the request against the
//! stored row, and then issues SQL statements and one reply.  The functions
//! here take the looked-up rows and the current time texts and return that
//! plan: the statements in order, the query whose rows go into the reply, the
//! new session where a login succeeds, and the reply.  A plan without a reply
//! stands for a handler that stops before replying.
use crate::digest::{hash_password, new_uuid_text, password_digest, uuid_shaped};
use crate::records::{KeyEventUpload, MouseEventUpload, User};
use crate::sql::{
    backslash_escaped,
    change_password_sql, change_password_text, end_session_sql, end_session_text,
    extend_session_sql, extend_session_text, insert_user_sql, insert_user_text,
    key_events_insert_sql, key_events_insert_text, key_events_query, key_events_query_text,
    mouse_events_insert_sql, mouse_events_insert_text, mouse_events_query,
    mouse_events_query_text, start_session_sql, start_session_text,
};
use crate::text::{less_text, same_text, text_less};
use vstd::prelude::*;

verus! {

/// The remote procedures the server offers.
#[derive(Debug, Clone, Copy, PartialEq, Eq, Structural)]
pub enum RequestKind {
    RegisterUser,
    Login,
    ModifyPassword,
    Logout,
    InsertKeyEventData,
    InsertMouseMovingEventData,
    ViewKeyEventData,
    ViewMouseMovingEventData,
}

/// The procedure a request's `func_name` selects, if any.
pub open spec fn request_kind_named(name: Seq<char>) -> Option<RequestKind> {
    if name == "register_user"@ {
        Some(RequestKind::RegisterUser)
    } else if name == "login"@ {
        Some(RequestKind::Login)
    } else if name == "modify_password"@ {
        Some(RequestKind::ModifyPassword)
    } else if name == "logout"@ {
        Some(RequestKind::Logout)
    } else if name == "insert_key_event_data"@ {
        Some(RequestKind::InsertKeyEventData)
    } else if name == "insert_mouse_moving_event_data"@ {
        Some(RequestKind::InsertMouseMovingEventData)
    } else if name == "view_key_event_data"@ {
        Some(RequestKind::ViewKeyEventData)
    } else if name == "view_mouse_moving_event_data"@ {
        Some(RequestKind::ViewMouseMovingEventData)
    } else {
        None
    }
}

/// The procedure a request's `func_name` selects; `None` leaves the request
/// unanswered.
pub fn route(func_name: &str) -> (kind: Option<RequestKind>)
    ensures
        kind == request_kind_named(func_name@),
{
    if same_text(func_name, "register_user") {
        Some(RequestKind::RegisterUser)
    } else if same_text(func_name, "login") {
        Some(RequestKind::Login)
    } else if same_text(func_name, "modify_password") {
        Some(RequestKind::ModifyPassword)
    } else if same_text(func_name, "logout") {
        Some(RequestKind::Logout)
    } else if same_text(func_name, "insert_key_event_data") {
        Some(RequestKind::InsertKeyEventData)
    } else if same_text(func_name, "insert_mouse_moving_event_data") {
        Some(RequestKind::InsertMouseMovingEventData)
    } else if same_text(func_name, "view_key_event_data") {
        Some(RequestKind::ViewKeyEventData)
    } else if same_text(func_name, "view_mouse_moving_event_data") {
        Some(RequestKind::ViewMouseMovingEventData)
    } else {
        None
    }
}

/// Why a request that needs a logged-in user is refused.
#[derive(Debug, Clone, Copy, PartialEq, Eq, Structural)]
pub enum SessionError {
    /// No user holds the token.
    UnknownUser,
    /// The user holds no token.
    NotLoggedIn,
    /// The user's token differs from the one presented.
    TokenMismatch,
}

/// The outcome of checking `token_id` against the first user found for it.
pub open spec fn session_outcome(users: Seq<User>, token_id: Seq<char>) -> Result<User, SessionError> {
    if users.len() == 0 {
        Err(SessionError::UnknownUser)
    } else if users[0].token_id@.len() == 0 {
        Err(SessionError::NotLoggedIn)
    } else if users[0].token_id@ != token_id {
        Err(SessionError::TokenMismatch)
    } else {
        Ok(users[0])
    }
}

/// Checks `token_id` against the first user found for it.
pub fn check_session(users: &Vec<User>, token_id: &str) -> (outcome: Result<User, SessionError>)
    ensures
        outcome == session_outcome(users@, token_id@),
{
    if users.len() == 0 {
        return Err(SessionError::UnknownUser);
    }
    let user = &users[0];
    if user.token_id.as_str().is_empty() {
        return Err(SessionError::NotLoggedIn);
    }
    if !same_text(user.token_id.as_str(), token_id) {
        return Err(SessionError::TokenMismatch);
    }
    Ok(user.clone())
}

/// The reply text of a refused session; the upload handlers call an unknown
/// token an unknown user id.
pub open spec fn session_message(error: SessionError, kind: RequestKind) -> Seq<char> {
    match error {
        SessionError::UnknownUser => if kind == RequestKind::InsertKeyEventData || kind
            == RequestKind::InsertMouseMovingEventData {
            "User id doesn't exist."@
        } else {
            "Username doesn't exist."@
        },
        SessionError::NotLoggedIn => "User didn't login."@,
        SessionError::TokenMismatch => "Login token is error."@,
    }
}

/// The reply text of a refused session.
pub fn session_error_message(error: SessionError, kind: RequestKind) -> (message: String)
    ensures
        message@ == session_message(error, kind),
{
    match error {
        SessionError::UnknownUser => if kind == RequestKind::InsertKeyEventData || kind
            == RequestKind::InsertMouseMovingEventData {
            String::from_str("User id doesn't exist.")
        } else {
            String::from_str("Username doesn't exist.")
        },
        SessionError::NotLoggedIn => String::from_str("User didn't login."),
        SessionError::TokenMismatch => String::from_str("Login token is error."),
    }
}

/// Whether a stored token expiry lies before `now` (compared as text).
pub fn token_expired(expiry: &str, now: &str) -> (expired: bool)
    ensures
        expired == text_less(expiry@, now@),
{
    less_text(expiry, now)
}

/// A reply: whether the request succeeded, and the message.
pub struct Reply {
    pub is_success: bool,
    pub message: String,
}

/// What a handler does: the statements it executes in order, the query whose
/// rows go into the reply, the session that a login opens (token and the
/// time reported with it), and the reply, if the handler gets that far.
pub struct Plan {
    pub statements: Vec<String>,
    pub query: Option<String>,
    pub session: Option<(String, String)>,
    pub reply: Option<Reply>,
}

/// The meaning of a `Plan`.
pub struct PlanView {
    pub statements: Seq<Seq<char>>,
    pub query: Option<Seq<char>>,
    pub session: Option<(Seq<char>, Seq<char>)>,
    pub reply: Option<(bool, Seq<char>)>,
}

impl View for Plan {
    type V = PlanView;

    open spec fn view(&self) -> PlanView {
        PlanView {
            statements: self.statements@.map_values(|s: String| s@),
            query: match self.query {
                Some(q) => Some(q@),
                None => None,
            },
            session: match self.session {
                Some(s) => Some((s.0@, s.1@)),
                None => None,
            },
            reply: match self.reply {
                Some(r) => Some((r.is_success, r.message@)),
                None => None,
            },
        }
    }
}

/// A plan that executes `statements`, runs `query`, and replies.
pub open spec fn plan_of(
    statements: Seq<Seq<char>>,
    query: Option<Seq<char>>,
    success: bool,
    message: Seq<char>,
) -> PlanView {
    PlanView { statements, query, session: None, reply: Some((success, message)) }
}

/// A plan that refuses the request with `message`.
pub open spec fn refusal(message: Seq<char>) -> PlanView {
    plan_of(Seq::empty(), None, false, message)
}

/// The statement that extends the session of `user` when its expiry lies
/// before `now`.
pub open spec fn session_refresh(user: User, now: Seq<char>, new_expiry: Seq<char>) -> Seq<Seq<char>> {
    if text_less(user.token_expiry_time@, now) {
        seq![extend_session_text(new_expiry, user.id@)]
    } else {
        Seq::empty()
    }
}

fn refusing(message: String) -> (p: Plan)
    ensures
        p@ == refusal(message@),
{
    let p = Plan {
        statements: Vec::new(),
        query: None,
        session: None,
        reply: Some(Reply { is_success: false, message }),
    };
    assert(p@.statements =~= Seq::<Seq<char>>::empty());
    p
}

fn refresh_session(user: &User, now: &str, new_expiry: &str) -> (statements: Vec<String>)
    ensures
        statements@.map_values(|s: String| s@) == session_refresh(*user, now@, new_expiry@),
{
    let mut statements: Vec<String> = Vec::new();
    if token_expired(user.token_expiry_time.as_str(), now) {
        statements.push(extend_session_sql(new_expiry, user.id.as_str()));
    }
    assert(statements@.map_values(|s: String| s@) =~= session_refresh(*user, now@, new_expiry@));
    statements
}

fn push_statement(statements: &mut Vec<String>, sql: String)
    ensures
        final(statements)@.map_values(|s: String| s@) == old(statements)@.map_values(
            |s: String| s@,
        ).push(sql@),
{
    statements.push(sql);
    assert(final(statements)@.map_values(|s: String| s@) =~= old(statements)@.map_values(
        |s: String| s@,
    ).push(sql@));
}

/// Registration: refused when the name is taken, else the user is stored
/// under `new_id` with the digest of the password.
pub open spec fn registration_plan(
    existing_users: nat,
    user_name: Seq<char>,
    password: Seq<char>,
    new_id: Seq<char>,
) -> PlanView {
    if existing_users > 0 {
        refusal("Username already exists."@)
    } else {
        plan_of(
            seq![insert_user_text(new_id, user_name, password_digest(password))],
            None,
            true,
            "Register user successfully."@,
        )
    }
}

/// Registers `user_name` under `new_id`, given how many users already carry
/// that name.
pub fn register_user_as(
    existing_users: usize,
    user_name: &str,
    password: &str,
    new_id: &str,
) -> (plan: Plan)
    ensures
        plan@ == registration_plan(existing_users as nat, user_name@, password@, new_id@),
{
    if existing_users > 0 {
        return refusing(String::from_str("Username already exists."));
    }
    let hex = hash_password(password);
    let mut statements: Vec<String> = Vec::new();
    push_statement(&mut statements, insert_user_sql(new_id, user_name, hex.as_str()));
    assert(statements@.map_values(|s: String| s@) =~= seq![
        insert_user_text(new_id@, user_name@, password_digest(password@)),
    ]);
    Plan {
        statements,
        query: None,
        session: None,
        reply: Some(Reply { is_success: true, message: String::from_str("Register user successfully.") }),
    }
}

/// Registers `user_name` under a fresh random id.
pub fn register_user(existing_users: usize, user_name: &str, password: &str) -> (plan: Plan)
    ensures
        exists|id: Seq<char>|
            uuid_shaped(id) && plan@ == registration_plan(
                existing_users as nat,
                user_name@,
                password@,
                id,
            ),
{
    let id = new_uuid_text();
    register_user_as(existing_users, user_name, password, id.as_str())
}

/// Login: refused for an unknown name or a wrong password; otherwise the
/// session `token_id` is stored with `expiry` and reported with `now`.
pub open spec fn login_plan(
    users: Seq<User>,
    password: Seq<char>,
    token_id: Seq<char>,
    now: Seq<char>,
    expiry: Seq<char>,
) -> PlanView {
    if users.len() == 0 {
        refusal("Username doesn't exist."@)
    } else if users[0].password@ != password_digest(password) {
        refusal("User password error."@)
    } else {
        PlanView {
            statements: seq![start_session_text(token_id, expiry, users[0].id@)],
            query: None,
            session: Some((token_id, now)),
            reply: Some((true, "Login successfully."@)),
        }
    }
}

/// Logs in the first user found by name with session token `token_id`.
pub fn login_with_token(
    users: &Vec<User>,
    password: &str,
    token_id: &str,
    now: &str,
    expiry: &str,
) -> (plan: Plan)
    ensures
        plan@ == login_plan(users@, password@, token_id@, now@, expiry@),
{
    if users.len() == 0 {
        return refusing(String::from_str("Username doesn't exist."));
    }
    let user = &users[0];
    let hex = hash_password(password);
    if !same_text(user.password.as_str(), hex.as_str()) {
        return refusing(String::from_str("User password error."));
    }
    let mut statements: Vec<String> = Vec::new();
    push_statement(&mut statements, start_session_sql(token_id, expiry, user.id.as_str()));
    assert(statements@.map_values(|s: String| s@) =~= seq![
        start_session_text(token_id@, expiry@, users@[0].id@),
    ]);
    Plan {
        statements,
        query: None,
        session: Some((String::from_str(token_id), String::from_str(now))),
        reply: Some(Reply { is_success: true, message: String::from_str("Login successfully.") }),
    }
}

/// Logs in the first user found by name with a fresh random token.
pub fn login(users: &Vec<User>, password: &str, now: &str, expiry: &str) -> (plan: Plan)
    ensures
        exists|token: Seq<char>|
            uuid_shaped(token) && plan@ == login_plan(users@, password@, token, now@, expiry@),
{
    let token = new_uuid_text();
    login_with_token(users, password, token.as_str(), now, expiry)
}

/// Password change: the session is checked and extended if stale, then the
/// old password must match before the new digest is stored.
pub open spec fn password_change_plan(
    users: Seq<User>,
    token_id: Seq<char>,
    old_password: Seq<char>,
    new_password: Seq<char>,
    now: Seq<char>,
    new_expiry: Seq<char>,
) -> PlanView {
    match session_outcome(users, token_id) {
        Err(e) => refusal(session_message(e, RequestKind::ModifyPassword)),
        Ok(user) => {
            let refresh = session_refresh(user, now, new_expiry);
            if password_digest(old_password) != user.password@ {
                plan_of(refresh, None, false, "User password error."@)
            } else {
                plan_of(
                    refresh.push(change_password_text(password_digest(new_password), user.id@)),
                    None,
                    true,
                    "Modify user password successfully."@,
                )
            }
        },
    }
}

/// Changes the password of the user holding `token_id`.
pub fn modify_password(
    users: &Vec<User>,
    token_id: &str,
    old_password: &str,
    new_password: &str,
    now: &str,
    new_expiry: &str,
) -> (plan: Plan)
    ensures
        plan@ == password_change_plan(
            users@,
            token_id@,
            old_password@,
            new_password@,
            now@,
            new_expiry@,
        ),
{
    let user = match check_session(users, token_id) {
        Err(e) => {
            return refusing(session_error_message(e, RequestKind::ModifyPassword));
        },
        Ok(u) => u,
    };
    let mut statements = refresh_session(&user, now, new_expiry);
    let old_hex = hash_password(old_password);
    if !same_text(old_hex.as_str(), user.password.as_str()) {
        return Plan {
            statements,
            query: None,
            session: None,
            reply: Some(Reply { is_success: false, message: String::from_str("User password error.") }),
        };
    }
    let new_hex = hash_password(new_password);
    push_statement(&mut statements, change_password_sql(new_hex.as_str(), user.id.as_str()));
    Plan {
        statements,
        query: None,
        session: None,
        reply: Some(
            Reply { is_success: true, message: String::from_str("Modify user password successfully.") },
        ),
    }
}

/// Logout: the session is checked, then the token is cleared.
pub open spec fn logout_plan(users: Seq<User>, token_id: Seq<char>) -> PlanView {
    match session_outcome(users, token_id) {
        Err(e) => refusal(session_message(e, RequestKind::Logout)),
        Ok(user) => plan_of(seq![end_session_text(user.id@)], None, true, "User logout successfully."@),
    }
}

/// Logs out the user holding `token_id`.
pub fn logout(users: &Vec<User>, token_id: &str) -> (plan: Plan)
    ensures
        plan@ == logout_plan(users@, token_id@),
{
    let user = match check_session(users, token_id) {
        Err(e) => {
            return refusing(session_error_message(e, RequestKind::Logout));
        },
        Ok(u) => u,
    };
    let mut statements: Vec<String> = Vec::new();
    push_statement(&mut statements, end_session_sql(user.id.as_str()));
    assert(statements@.map_values(|s: String| s@) =~= seq![end_session_text(user.id@)]);
    Plan {
        statements,
        query: None,
        session: None,
        reply: Some(Reply { is_success: true, message: String::from_str("User logout successfully.") }),
    }
}

/// Key event upload: the session is checked and extended if stale, then the
/// batch is stored; an empty batch makes an empty statement, which the
/// database refuses, so the handler stops before it replies.
pub open spec fn key_upload_plan(
    users: Seq<User>,
    token_id: Seq<char>,
    events: Seq<KeyEventUpload>,
    now: Seq<char>,
    new_expiry: Seq<char>,
) -> PlanView {
    match session_outcome(users, token_id) {
        Err(e) => refusal(session_message(e, RequestKind::InsertKeyEventData)),
        Ok(user) => if events.len() == 0 {
            PlanView {
                statements: session_refresh(user, now, new_expiry),
                query: None,
                session: None,
                reply: None,
            }
        } else {
            plan_of(
                session_refresh(user, now, new_expiry).push(
                    key_events_insert_text(user.id@, events),
                ),
                None,
                true,
                "Insert key event data successfully."@,
            )
        },
    }
}

/// Stores a batch of key events for the user holding `token_id`.
pub fn insert_key_event_data(
    users: &Vec<User>,
    token_id: &str,
    events: &Vec<KeyEventUpload>,
    now: &str,
    new_expiry: &str,
) -> (plan: Plan)
    ensures
        plan@ == key_upload_plan(users@, token_id@, events@, now@, new_expiry@),
{
    let user = match check_session(users, token_id) {
        Err(e) => {
            return refusing(session_error_message(e, RequestKind::InsertKeyEventData));
        },
        Ok(u) => u,
    };
    let mut statements = refresh_session(&user, now, new_expiry);
    if events.len() == 0 {
        return Plan { statements, query: None, session: None, reply: None };
    }
    push_statement(&mut statements, key_events_insert_sql(user.id.as_str(), events));
    Plan {
        statements,
        query: None,
        session: None,
        reply: Some(
            Reply { is_success: true, message: String::from_str("Insert key event data successfully.") },
        ),
    }
}

/// Mouse movement upload: the session is checked and extended if stale, then
/// the batch is stored; an empty batch stops the handler before it replies.
pub open spec fn mouse_upload_plan(
    users: Seq<User>,
    token_id: Seq<char>,
    events: Seq<MouseEventUpload>,
    now: Seq<char>,
    new_expiry: Seq<char>,
) -> PlanView {
    match session_outcome(users, token_id) {
        Err(e) => refusal(session_message(e, RequestKind::InsertMouseMovingEventData)),
        Ok(user) => if events.len() == 0 {
            PlanView {
                statements: session_refresh(user, now, new_expiry),
                query: None,
                session: None,
                reply: None,
            }
        } else {
            plan_of(
                session_refresh(user, now, new_expiry).push(
                    mouse_events_insert_text(user.id@, events),
                ),
                None,
                true,
                "Insert mouse moving event data successfully."@,
            )
        },
    }
}

/// Stores a batch of mouse movements for the user holding `token_id`.
pub fn insert_mouse_moving_event_data(
    users: &Vec<User>,
    token_id: &str,
    events: &Vec<MouseEventUpload>,
    now: &str,
    new_expiry: &str,
) -> (plan: Plan)
    ensures
        plan@ == mouse_upload_plan(users@, token_id@, events@, now@, new_expiry@),
{
    let user = match check_session(users, token_id) {
        Err(e) => {
            return refusing(session_error_message(e, RequestKind::InsertMouseMovingEventData));
        },
        Ok(u) => u,
    };
    let mut statements = refresh_session(&user, now, new_expiry);
    if events.len() == 0 {
        return Plan { statements, query: None, session: None, reply: None };
    }
    push_statement(&mut statements, mouse_events_insert_sql(user.id.as_str(), events));
    Plan {
        statements,
        query: None,
        session: None,
        reply: Some(
            Reply {
                is_success: true,
                message: String::from_str("Insert mouse moving event data successfully."),
            },
        ),
    }
}

/// Key event listing: the session is checked and extended if stale, then the
/// events within the bounds are queried.
pub open spec fn key_listing_plan(
    users: Seq<User>,
    token_id: Seq<char>,
    start: Seq<char>,
    end: Seq<char>,
    now: Seq<char>,
    new_expiry: Seq<char>,
) -> PlanView {
    match session_outcome(users, token_id) {
        Err(e) => refusal(session_message(e, RequestKind::ViewKeyEventData)),
        Ok(user) => plan_of(
            session_refresh(user, now, new_expiry),
            Some(key_events_query_text(start, end)),
            true,
            "View key event data successfully."@,
        ),
    }
}

/// Lists the key events within `[start, end]` for the user holding `token_id`.
pub fn view_key_event_data(
    users: &Vec<User>,
    token_id: &str,
    start: &str,
    end: &str,
    now: &str,
    new_expiry: &str,
) -> (plan: Plan)
    ensures
        plan@ == key_listing_plan(users@, token_id@, start@, end@, now@, new_expiry@),
{
    let user = match check_session(users, token_id) {
        Err(e) => {
            return refusing(session_error_message(e, RequestKind::ViewKeyEventData));
        },
        Ok(u) => u,
    };
    let statements = refresh_session(&user, now, new_expiry);
    Plan {
        statements,
        query: Some(key_events_query(start, end)),
        session: None,
        reply: Some(
            Reply { is_success: true, message: String::from_str("View key event data successfully.") },
        ),
    }
}

/// Mouse movement listing: the session is checked and extended if stale, then
/// the movements within the bounds are queried.
pub open spec fn mouse_listing_plan(
    users: Seq<User>,
    token_id: Seq<char>,
    start: Seq<char>,
    end: Seq<char>,
    now: Seq<char>,
    new_expiry: Seq<char>,
) -> PlanView {
    match session_outcome(users, token_id) {
        Err(e) => refusal(session_message(e, RequestKind::ViewMouseMovingEventData)),
        Ok(user) => plan_of(
            session_refresh(user, now, new_expiry),
            Some(mouse_events_query_text(start, end)),
            true,
            "View mouse moving event data successfully."@,
        ),
    }
}

/// Lists the mouse movements within `[start, end]` for the user holding
/// `token_id`.
pub fn view_mouse_moving_event_data(
    users: &Vec<User>,
    token_id: &str,
    start: &str,
    end: &str,
    now: &str,
    new_expiry: &str,
) -> (plan: Plan)
    ensures
        plan@ == mouse_listing_plan(users@, token_id@, start@, end@, now@, new_expiry@),
{
    let user = match check_session(users, token_id) {
        Err(e) => {
            return refusing(session_error_message(e, RequestKind::ViewMouseMovingEventData));
        },
        Ok(u) => u,
    };
    let statements = refresh_session(&user, now, new_expiry);
    Plan {
        statements,
        query: Some(mouse_events_query(start, end)),
        session: None,
        reply: Some(
            Reply {
                is_success: true,
                message: String::from_str("View mouse moving event data successfully."),
            },
        ),
    }
}


/// A request whose session check fails changes nothing: every handler that
/// needs a logged-in user then executes no statement, runs no query, and
/// replies with a failure.
pub proof fn lemma_refused_sessions_change_nothing(
    users: Seq<User>,
    token_id: Seq<char>,
    old_password: Seq<char>,
    new_password: Seq<char>,
    key_events: Seq<KeyEventUpload>,
    mouse_events: Seq<MouseEventUpload>,
    start: Seq<char>,
    end: Seq<char>,
    now: Seq<char>,
    new_expiry: Seq<char>,
)
    requires
        session_outcome(users, token_id) is Err,
    ensures
        ({
            let plans = seq![
                password_change_plan(users, token_id, old_password, new_password, now, new_expiry),
                logout_plan(users, token_id),
                key_upload_plan(users, token_id, key_events, now, new_expiry),
                mouse_upload_plan(users, token_id, mouse_events, now, new_expiry),
                key_listing_plan(users, token_id, start, end, now, new_expiry),
                mouse_listing_plan(users, token_id, start, end, now, new_expiry),
            ];
            forall|i: int|
                0 <= i < plans.len() ==> (#[trigger] plans[i]).statements.len() == 0
                    && plans[i].query is None && plans[i].reply matches Some((false, _))
        }),
{
}

/// The rows of the user table that hold `token_id`, in table order: what
/// the lookup by token (`user_by_token_text`) returns.
pub open spec fn rows_holding(table: Seq<User>, token_id: Seq<char>) -> Seq<User>
    decreases table.len(),
{
    if table.len() == 0 {
        Seq::empty()
    } else {
        let rest = rows_holding(table.drop_last(), token_id);
        if table.last().token_id@ == token_id {
            rest.push(table.last())
        } else {
            rest
        }
    }
}

/// Whether `after` is the user table `before` once `end_session_text(id)`
/// has run: the rows with that ID have an empty token and expiry and keep
/// their other columns; every other row is unchanged.
pub open spec fn session_ended(before: Seq<User>, after: Seq<User>, id: Seq<char>) -> bool {
    &&& after.len() == before.len()
    &&& forall|i: int|
        0 <= i < before.len() ==> if (#[trigger] before[i]).id@ == id {
            &&& after[i].id@ == id
            &&& after[i].user_name@ == before[i].user_name@
            &&& after[i].password@ == before[i].password@
            &&& after[i].token_id@.len() == 0
            &&& after[i].token_expiry_time@.len() == 0
        } else {
            after[i] == before[i]
        }
}

proof fn lemma_no_row_holds(table: Seq<User>, token_id: Seq<char>)
    requires
        forall|i: int| 0 <= i < table.len() ==> (#[trigger] table[i]).token_id@ != token_id,
    ensures
        rows_holding(table, token_id).len() == 0,
    decreases table.len(),
{
    if table.len() > 0 {
        let rest = table.drop_last();
        assert forall|i: int| 0 <= i < rest.len() implies (#[trigger] rest[i]).token_id@
            != token_id by {
            assert(rest[i] == table[i]);
        }
        lemma_no_row_holds(rest, token_id);
        assert(table.last() == table[table.len() - 1]);
    }
}

/// A logout is final.  When the lookup by a token finds the rows holding
/// it, all of them one user's, and logout is served, its one statement
/// ends that user's session; once it has run, the token finds no row, so
/// every later password change, logout, upload or listing with that token
/// is refused, executes nothing and runs no query.
pub proof fn lemma_logout_is_final(
    before: Seq<User>,
    after: Seq<User>,
    token_id: Seq<char>,
    old_password: Seq<char>,
    new_password: Seq<char>,
    key_events: Seq<KeyEventUpload>,
    mouse_events: Seq<MouseEventUpload>,
    start: Seq<char>,
    end: Seq<char>,
    now: Seq<char>,
    new_expiry: Seq<char>,
)
    requires
        logout_plan(rows_holding(before, token_id), token_id).reply == Some(
            (true, "User logout successfully."@),
        ),
        forall|i: int|
            0 <= i < before.len() && (#[trigger] before[i]).token_id@ == token_id ==> before[i].id@
                == rows_holding(before, token_id)[0].id@,
        session_ended(before, after, rows_holding(before, token_id)[0].id@),
    ensures
        logout_plan(rows_holding(before, token_id), token_id).statements == seq![
            end_session_text(rows_holding(before, token_id)[0].id@),
        ],
        rows_holding(after, token_id).len() == 0,
        session_outcome(rows_holding(after, token_id), token_id) == Err::<User, SessionError>(
            SessionError::UnknownUser,
        ),
        ({
            let users = rows_holding(after, token_id);
            let plans = seq![
                password_change_plan(users, token_id, old_password, new_password, now, new_expiry),
                logout_plan(users, token_id),
                key_upload_plan(users, token_id, key_events, now, new_expiry),
                mouse_upload_plan(users, token_id, mouse_events, now, new_expiry),
                key_listing_plan(users, token_id, start, end, now, new_expiry),
                mouse_listing_plan(users, token_id, start, end, now, new_expiry),
            ];
            forall|i: int|
                0 <= i < plans.len() ==> (#[trigger] plans[i]).statements.len() == 0
                    && plans[i].query is None && plans[i].reply matches Some((false, _))
        }),
{
    let holders = rows_holding(before, token_id);
    let id = holders[0].id@;
    assert(session_outcome(holders, token_id) is Ok);
    assert(token_id.len() > 0);
    assert forall|i: int| 0 <= i < after.len() implies (#[trigger] after[i]).token_id@
        != token_id by {
        assert(before[i].id@ == id || before[i].token_id@ != token_id);
        if before[i].id@ == id {
            assert(after[i].token_id@.len() == 0);
        } else {
            assert(after[i] == before[i]);
        }
    }
    lemma_no_row_holds(after, token_id);
    lemma_refused_sessions_change_nothing(
        rows_holding(after, token_id),
        token_id,
        old_password,
        new_password,
        key_events,
        mouse_events,
        start,
        end,
        now,
        new_expiry,
    );
}

/// A password stored by registration is the one that logs in: when the user
/// found by name holds the digest that registration stores for `password`,
/// logging in with `password` succeeds and opens the session.
pub proof fn lemma_registered_password_logs_in(
    existing_users: nat,
    user_name: Seq<char>,
    password: Seq<char>,
    new_id: Seq<char>,
    user: User,
    token_id: Seq<char>,
    now: Seq<char>,
    expiry: Seq<char>,
)
    requires
        existing_users == 0,
        registration_plan(existing_users, user_name, password, new_id).statements
            == seq![insert_user_text(new_id, user_name, user.password@)],
    ensures
        login_plan(seq![user], password, token_id, now, expiry).reply == Some((true, "Login successfully."@)),
        login_plan(seq![user], password, token_id, now, expiry).session == Some((token_id, now)),
{
    let stored = registration_plan(existing_users, user_name, password, new_id).statements;
    assert(stored[0] == insert_user_text(new_id, user_name, password_digest(password)));
    lemma_insert_user_text_digest(new_id, user_name, user.password@, password_digest(password));
}

proof fn lemma_insert_user_text_digest(id: Seq<char>, user_name: Seq<char>, a: Seq<char>, b: Seq<char>)
    requires
        insert_user_text(id, user_name, a) == insert_user_text(id, user_name, b),
    ensures
        a == b,
{
    let prefix = "INSERT INTO User (ID, UserName, Password) VALUES ('"@ + id + "', '"@
        + backslash_escaped(user_name) + "', '"@;
    let suffix = "');"@;
    let x = prefix + a + suffix;
    let y = prefix + b + suffix;
    assert(insert_user_text(id, user_name, a) =~= x);
    assert(insert_user_text(id, user_name, b) =~= y);
    assert(x.len() == y.len());
    assert forall|i: int| 0 <= i < a.len() implies a[i] == b[i] by {
        assert(x[prefix.len() + i] == a[i]);
        assert(y[prefix.len() + i] == b[i]);
    }
    assert(a =~= b);
}
} // verus!

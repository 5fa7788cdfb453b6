use monitor_input::digest::hash_password;
use monitor_input::records::{KeyEventUpload, KeyPressingEvent, MouseEventUpload, MouseMovingEvent, User};
use monitor_input::server::{
    check_session, insert_key_event_data, insert_mouse_moving_event_data,
    login, login_with_token, logout, modify_password, register_user, register_user_as, route,
    session_error_message, token_expired, view_key_event_data, view_mouse_moving_event_data, Plan,
    RequestKind, SessionError,
};

fn user(token: &str, expiry: &str) -> User {
    User {
        id: "u-1".to_string(),
        user_name: "cloudblaze".to_string(),
        password: "698d51a19d8a121ce581499d7b701668".to_string(),
        token_id: token.to_string(),
        token_expiry_time: expiry.to_string(),
    }
}

fn reply(plan: &Plan) -> Option<(bool, String)> {
    plan.reply.as_ref().map(|r| (r.is_success, r.message.clone()))
}

#[test]
fn route_selects_each_procedure() {
    assert_eq!(route("register_user"), Some(RequestKind::RegisterUser));
    assert_eq!(route("login"), Some(RequestKind::Login));
    assert_eq!(route("modify_password"), Some(RequestKind::ModifyPassword));
    assert_eq!(route("logout"), Some(RequestKind::Logout));
    assert_eq!(route("insert_key_event_data"), Some(RequestKind::InsertKeyEventData));
    assert_eq!(route("insert_mouse_moving_event_data"), Some(RequestKind::InsertMouseMovingEventData));
    assert_eq!(route("view_key_event_data"), Some(RequestKind::ViewKeyEventData));
    assert_eq!(route("view_mouse_moving_event_data"), Some(RequestKind::ViewMouseMovingEventData));
    assert_eq!(route("Login"), None);
    assert_eq!(route(""), None);
}

#[test]
fn password_digest_is_lowercase_hex_md5() {
    assert_eq!(hash_password("111"), "698d51a19d8a121ce581499d7b701668");
    assert_eq!(hash_password(""), "d41d8cd98f00b204e9800998ecf8427e");
    assert_eq!(hash_password("Abc!1234"), "59994ac0fc6fd2f9fbf1d1be5dea6911");
}

#[test]
fn session_check_outcomes() {
    assert_eq!(check_session(&vec![], "t").err(), Some(SessionError::UnknownUser));
    assert_eq!(check_session(&vec![user("", "")], "t").err(), Some(SessionError::NotLoggedIn));
    assert_eq!(check_session(&vec![user("T", "")], "t").err(), Some(SessionError::TokenMismatch));
    let ok = check_session(&vec![user("t", "x"), user("other", "")], "t").ok().unwrap();
    assert_eq!(ok.id, "u-1");
    assert_eq!(ok.token_id, "t");
}

#[test]
fn session_messages() {
    assert_eq!(session_error_message(SessionError::UnknownUser, RequestKind::Logout), "Username doesn't exist.");
    assert_eq!(session_error_message(SessionError::UnknownUser, RequestKind::InsertKeyEventData), "User id doesn't exist.");
    assert_eq!(session_error_message(SessionError::UnknownUser, RequestKind::InsertMouseMovingEventData), "User id doesn't exist.");
    assert_eq!(session_error_message(SessionError::NotLoggedIn, RequestKind::ViewKeyEventData), "User didn't login.");
    assert_eq!(session_error_message(SessionError::TokenMismatch, RequestKind::ModifyPassword), "Login token is error.");
}

#[test]
fn token_expiry_compares_time_texts() {
    assert!(token_expired("2022-04-25 10:00:00", "2022-04-25 11:00:00"));
    assert!(!token_expired("2022-04-25 11:00:00", "2022-04-25 10:00:00"));
    assert!(!token_expired("2022-04-25", "2022-04-25"));
    assert!(token_expired("", "2022"));
    assert!(token_expired("2022", "2022-01"));
}

#[test]
fn register_refuses_a_taken_name() {
    let plan = register_user_as(1, "cloudblaze", "111", "id-1");
    assert!(plan.statements.is_empty());
    assert_eq!(reply(&plan), Some((false, "Username already exists.".to_string())));
}

#[test]
fn register_stores_escaped_name_and_digest() {
    let plan = register_user_as(0, "o'neil", "111", "id-1");
    assert_eq!(
        plan.statements,
        vec!["INSERT INTO User (ID, UserName, Password) VALUES ('id-1', 'o\\'neil', '698d51a19d8a121ce581499d7b701668');".to_string()]
    );
    assert_eq!(reply(&plan), Some((true, "Register user successfully.".to_string())));
}

#[test]
fn register_user_draws_a_uuid() {
    let plan = register_user(0, "a", "111");
    let stmt = &plan.statements[0];
    let prefix = "INSERT INTO User (ID, UserName, Password) VALUES ('";
    assert!(stmt.starts_with(prefix));
    let id = &stmt[prefix.len()..prefix.len() + 36];
    assert!(id.chars().all(|c| c.is_ascii_hexdigit() && !c.is_ascii_uppercase() || c == '-'));
    assert_eq!(id.chars().filter(|c| *c == '-').count(), 4);
    let chars: Vec<char> = id.chars().collect();
    for i in [8, 13, 18, 23] {
        assert_eq!(chars[i], '-');
    }
    assert_eq!(chars[14], '4');
    assert!(matches!(chars[19], '8' | '9' | 'a' | 'b'));
    assert!(stmt.ends_with("', 'a', '698d51a19d8a121ce581499d7b701668');"));
}

#[test]
fn login_outcomes() {
    let plan = login_with_token(&vec![], "111", "tok", "now", "later");
    assert_eq!(reply(&plan), Some((false, "Username doesn't exist.".to_string())));
    let plan = login_with_token(&vec![user("", "")], "112", "tok", "now", "later");
    assert_eq!(reply(&plan), Some((false, "User password error.".to_string())));
    assert!(plan.statements.is_empty());
    let plan = login_with_token(&vec![user("", "")], "111", "tok", "now", "later");
    assert_eq!(reply(&plan), Some((true, "Login successfully.".to_string())));
    assert_eq!(
        plan.statements,
        vec!["UPDATE User SET TokenID = 'tok', TokenExpiryTime = 'later' WHERE ID = 'u-1';".to_string()]
    );
    assert_eq!(plan.session, Some(("tok".to_string(), "now".to_string())));
}

#[test]
fn login_draws_a_fresh_token() {
    let a = login(&vec![user("", "")], "111", "now", "later");
    let b = login(&vec![user("", "")], "111", "now", "later");
    let ta = a.session.unwrap().0;
    let tb = b.session.unwrap().0;
    assert_eq!(ta.len(), 36);
    assert_ne!(ta, tb);
}

#[test]
fn modify_password_checks_old_password_after_refresh() {
    let users = vec![user("tok", "2000-01-01")];
    let plan = modify_password(&users, "tok", "bad", "222", "2022-01-01", "2022-01-01 00:30");
    assert_eq!(
        plan.statements,
        vec!["UPDATE User SET TokenExpiryTime = '2022-01-01 00:30' WHERE ID = 'u-1';".to_string()]
    );
    assert_eq!(reply(&plan), Some((false, "User password error.".to_string())));

    let users = vec![user("tok", "2099-01-01")];
    let plan = modify_password(&users, "tok", "111", "222", "2022-01-01", "x");
    assert_eq!(
        plan.statements,
        vec!["UPDATE User SET Password = 'bcbe3365e6ac95ea2c0343a2395834dd' WHERE ID = 'u-1';".to_string()]
    );
    assert_eq!(reply(&plan), Some((true, "Modify user password successfully.".to_string())));
}

#[test]
fn refused_sessions_issue_nothing() {
    let plan = logout(&vec![user("other", "")], "tok");
    assert!(plan.statements.is_empty());
    assert!(plan.query.is_none());
    assert_eq!(reply(&plan), Some((false, "Login token is error.".to_string())));
    let plan = view_key_event_data(&vec![], "tok", "", "", "n", "e");
    assert!(plan.statements.is_empty());
    assert!(plan.query.is_none());
    assert_eq!(reply(&plan), Some((false, "Username doesn't exist.".to_string())));
}

#[test]
fn logout_clears_the_token() {
    let plan = logout(&vec![user("tok", "")], "tok");
    assert_eq!(
        plan.statements,
        vec!["UPDATE User SET TokenID = '', TokenExpiryTime = '' WHERE ID = 'u-1';".to_string()]
    );
    assert_eq!(reply(&plan), Some((true, "User logout successfully.".to_string())));
}

#[test]
fn key_upload_builds_one_insert_per_event() {
    let events = vec![
        KeyEventUpload { id: "e1".to_string(), time: "t1".to_string(), key_name: "Keyboard ''' Key".to_string(), status: 1 },
        KeyEventUpload { id: "e2".to_string(), time: "t2".to_string(), key_name: "Mouse Left Button".to_string(), status: -1 },
    ];
    let plan = insert_key_event_data(&vec![user("tok", "2099")], "tok", &events, "2022", "x");
    assert_eq!(plan.statements, vec![
        "INSERT INTO KeyPressingEvent (ID, UserID, Time, KeyName, Status) VALUES ('e1', 'u-1', 't1', 'Keyboard \\'\\'\\' Key', 1);INSERT INTO KeyPressingEvent (ID, UserID, Time, KeyName, Status) VALUES ('e2', 'u-1', 't2', 'Mouse Left Button', -1);".to_string()
    ]);
    assert_eq!(reply(&plan), Some((true, "Insert key event data successfully.".to_string())));
}

#[test]
fn empty_key_upload_stops_before_replying() {
    let plan = insert_key_event_data(&vec![user("tok", "2000")], "tok", &vec![], "2022", "x");
    assert_eq!(plan.statements, vec!["UPDATE User SET TokenExpiryTime = 'x' WHERE ID = 'u-1';".to_string()]);
    assert_eq!(reply(&plan), None);
    let plan = insert_key_event_data(&vec![user("tok", "2099")], "tok", &vec![], "2022", "x");
    assert!(plan.statements.is_empty());
    assert_eq!(reply(&plan), None);
}

#[test]
fn mouse_upload_skips_repeated_ids_after_the_first_row() {
    let ev = |id: &str, orig: &str| MouseEventUpload {
        id: id.to_string(),
        time: "t".to_string(),
        original_position: orig.to_string(),
        new_position: "(1, 2)".to_string(),
    };
    let events = vec![ev("a", "(0, 0)"), ev("a", "(0, 1)"), ev("a", "(0, 2)"), ev("b", "'")];
    let plan = insert_mouse_moving_event_data(&vec![user("tok", "2099")], "tok", &events, "2022", "x");
    assert_eq!(plan.statements, vec![
        "INSERT INTO MouseMovingEvent (ID, UserID, Time, OriginalPosition, NewPosition) VALUES ('a', 'u-1', 't', '(0, 0)', '(1, 2)') ,('a', 'u-1', 't', '(0, 1)', '(1, 2)') ,('b', 'u-1', 't', '\\'', '(1, 2)');".to_string()
    ]);
    assert_eq!(reply(&plan), Some((true, "Insert mouse moving event data successfully.".to_string())));
}

#[test]
fn mouse_upload_of_nothing_stops_before_replying() {
    let plan = insert_mouse_moving_event_data(&vec![user("tok", "2000")], "tok", &vec![], "2022", "x");
    assert!(plan.reply.is_none());
    assert_eq!(plan.statements, vec!["UPDATE User SET TokenExpiryTime = 'x' WHERE ID = 'u-1';".to_string()]);
}

#[test]
fn listings_query_the_time_window() {
    let users = vec![user("tok", "2099")];
    let plan = view_key_event_data(&users, "tok", "2022-01-01", "2022-02-01", "2022", "x");
    assert_eq!(plan.query, Some("SELECT ID, UserID, Time, KeyName, Status FROM KeyPressingEvent WHERE Time >= '2022-01-01' AND Time <= '2022-02-01' ORDER BY Time;".to_string()));
    assert!(plan.statements.is_empty());
    assert_eq!(reply(&plan), Some((true, "View key event data successfully.".to_string())));
    let plan = view_mouse_moving_event_data(&users, "tok", "", "2022-02-01", "2022", "x");
    assert_eq!(plan.query, Some("SELECT ID, UserID, Time, OriginalPosition, NewPosition FROM MouseMovingEvent WHERE Time <= '2022-02-01' ORDER BY Time;".to_string()));
    assert_eq!(reply(&plan), Some((true, "View mouse moving event data successfully.".to_string())));
    let plan = view_mouse_moving_event_data(&users, "tok", "s", "", "2022", "x");
    assert_eq!(plan.query, Some("SELECT ID, UserID, Time, OriginalPosition, NewPosition FROM MouseMovingEvent WHERE Time >= 's' ORDER BY Time;".to_string()));
    let plan = view_key_event_data(&users, "tok", "", "", "2022", "x");
    assert_eq!(plan.query, Some("SELECT ID, UserID, Time, KeyName, Status FROM KeyPressingEvent ORDER BY Time;".to_string()));
}

#[test]
fn records_clone_field_by_field() {
    let u = user("t", "e");
    let c = u.clone();
    assert_eq!((c.id, c.user_name, c.password, c.token_id, c.token_expiry_time),
        (u.id.clone(), u.user_name.clone(), u.password.clone(), u.token_id.clone(), u.token_expiry_time.clone()));
    let k = KeyPressingEvent { id: "i".into(), user_id: "u".into(), time: "t".into(), key_name: "k".into(), status: 1 };
    let kc = k.clone();
    assert_eq!((kc.id, kc.user_id, kc.time, kc.key_name, kc.status), ("i".to_string(), "u".to_string(), "t".to_string(), "k".to_string(), 1));
    let m = MouseMovingEvent { id: "i".into(), user_id: "u".into(), time: "t".into(), original_position: "(1, 2)".into(), new_position: "(3, 4)".into() };
    let mc = m.clone();
    assert_eq!((mc.original_position, mc.new_position), ("(1, 2)".to_string(), "(3, 4)".to_string()));
}

#[test]
fn a_logged_out_token_is_refused_afterwards() {
    let before = vec![user("tok", "2099")];
    let plan = logout(&before, "tok");
    assert_eq!(plan.statements, vec!["UPDATE User SET TokenID = '', TokenExpiryTime = '' WHERE ID = 'u-1';".to_string()]);
    assert_eq!(reply(&plan), Some((true, "User logout successfully.".to_string())));
    // once the statement has run, the lookup by the token finds no row
    let after: Vec<User> = vec![];
    let again = logout(&after, "tok");
    assert!(again.statements.is_empty());
    assert_eq!(reply(&again), Some((false, "Username doesn't exist.".to_string())));
    let listing = view_key_event_data(&after, "tok", "", "", "now", "later");
    assert!(listing.statements.is_empty() && listing.query.is_none());
    assert_eq!(reply(&listing), Some((false, "Username doesn't exist.".to_string())));
}

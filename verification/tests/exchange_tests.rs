use monitor_input::exchange::{
    empty_value, func_name_of, key_events_value, key_upload_request, key_uploads_of, login_request,
    logout_request, mouse_events_value, mouse_move_lines, mouse_moves, mouse_upload_request,
    mouse_uploads_of, recorded_keys, register_user_request, reply_document, reply_status,
    returned_text, session_value, text_argument, view_key_events_request,
};
use monitor_input::message::{
    document_text, frame_message, read_message, read_reply, read_request, JsonDoc,
};
use monitor_input::pointer::record_move;
use monitor_input::protocol::seal_message;
use monitor_input::records::{KeyEventToServer, KeyPressingEvent, MouseEventUpload, MouseMovingEvent};
use monitor_input::replay::{replay_key_events, RecordedKey, ViewEntry};
use monitor_input::server::Reply;
use monitor_input::task::{StartIcon, TaskEvent, TaskState};

fn number(n: u64) -> JsonDoc {
    JsonDoc::Number { negative: false, mantissa: n, exponent: 0 }
}

fn reply(ok: bool, message: &str) -> Reply {
    Reply { is_success: ok, message: message.to_string() }
}

#[test]
fn requests_dump_as_the_client_sends_them() {
    assert_eq!(
        document_text(&login_request("a", "111")),
        r#"{"length":0,"request":{"func_name":"login","arguments":{"username":"a","password":"111"}}}"#
    );
    assert_eq!(
        document_text(&logout_request("tok")),
        r#"{"length":0,"request":{"func_name":"logout","arguments":{"token_id":"tok"}}}"#
    );
    assert_eq!(
        document_text(&view_key_events_request("tok", "s", "e")),
        r#"{"length":0,"request":{"func_name":"view_key_event_data","arguments":{"token_id":"tok","start_time":"s","end_time":"e"}}}"#
    );
}

#[test]
fn framed_request_reads_back_with_its_length() {
    let (wire, text) = frame_message(register_user_request("cloudblaze", "111")).unwrap();
    let expected_len = text.len();
    assert!(text.starts_with(&format!(r#"{{"length":{},"request""#, expected_len)));
    let (read_text, doc) = read_request(&wire).unwrap();
    assert_eq!(read_text, text);
    let doc = doc.unwrap();
    assert_eq!(func_name_of(&doc), Some("register_user".to_string()));
    assert_eq!(text_argument(&doc, "username"), Some("cloudblaze".to_string()));
    assert_eq!(text_argument(&doc, "password"), Some("111".to_string()));
    assert_eq!(text_argument(&doc, "token_id"), None);
    assert_eq!(read_message(&wire), Some(doc));
}

#[test]
fn a_wrong_length_is_refused() {
    let text = r#"{"length":5,"request":{"func_name":"logout"}}"#;
    let wire = seal_message(&text.as_bytes().to_vec());
    let (read_text, doc) = read_request(&wire).unwrap();
    assert_eq!(read_text, text);
    assert_eq!(doc, None);
    assert_eq!(read_message(&wire), None);
    assert!(read_reply(&wire).is_some());
}

#[test]
fn bytes_that_are_not_a_message_are_refused() {
    assert_eq!(read_reply(&vec![1, 2, 3]), None);
    assert_eq!(read_request(&vec![1, 2, 3]), None);
    let wire = seal_message(&b"not json".to_vec());
    assert_eq!(read_reply(&wire), None);
    assert_eq!(read_message(&wire), None);
}

#[test]
fn non_objects_cannot_be_framed() {
    assert_eq!(frame_message(JsonDoc::Null), None);
    assert_eq!(frame_message(JsonDoc::Array(vec![])), None);
}

#[test]
fn replies_dump_as_the_server_sends_them() {
    let doc = reply_document(&reply(true, "Login successfully."), session_value("tok", "t1"));
    assert_eq!(
        document_text(&doc),
        r#"{"length":0,"response":{"is_success":true,"message":"Login successfully.","returned_value":{"token_id":"tok","token_expiry_time":"t1"}}}"#
    );
    assert_eq!(reply_status(&doc), Some((true, "Login successfully.".to_string())));
    assert_eq!(returned_text(&doc, "token_id"), Some("tok".to_string()));
    let refused = reply_document(&reply(false, "User didn't login."), empty_value());
    assert_eq!(
        document_text(&refused),
        r#"{"length":0,"response":{"is_success":false,"message":"User didn't login.","returned_value":{}}}"#
    );
    assert_eq!(reply_status(&refused), Some((false, "User didn't login.".to_string())));
    assert_eq!(returned_text(&refused, "token_id"), None);
    assert_eq!(reply_status(&JsonDoc::Object(vec![])), None);
}

#[test]
fn framed_reply_reads_back() {
    let doc = reply_document(&reply(true, "Logout successfully."), empty_value());
    let (wire, text) = frame_message(doc).unwrap();
    let read = read_reply(&wire).unwrap();
    assert_eq!(document_text(&read), text);
    assert_eq!(reply_status(&read), Some((true, "Logout successfully.".to_string())));
}

#[test]
fn listed_key_events_read_back() {
    let rows = vec![KeyPressingEvent {
        id: "e1".to_string(),
        user_id: "u1".to_string(),
        time: "t1".to_string(),
        key_name: "Keyboard 'A' Key".to_string(),
        status: 1,
    }];
    let doc = reply_document(&reply(true, "View key event data successfully."), key_events_value(&rows));
    assert_eq!(
        document_text(&doc),
        r#"{"length":0,"response":{"is_success":true,"message":"View key event data successfully.","returned_value":{"event_data_list_count":1,"event_data_list":[{"id":"e1","time":"t1","key_name":"Keyboard 'A' Key","status":1}]}}}"#
    );
    let keys = recorded_keys(&doc).unwrap();
    assert_eq!(keys.len(), 1);
    assert_eq!(keys[0].time, "t1");
    assert_eq!(keys[0].key_name, "Keyboard 'A' Key");
    assert!(keys[0].pressed);
}

#[test]
fn listed_mouse_moves_give_view_lines() {
    let rows = vec![MouseMovingEvent {
        id: "m1".to_string(),
        user_id: "u1".to_string(),
        time: "t1".to_string(),
        original_position: "(1, 2)".to_string(),
        new_position: "(3, 4)".to_string(),
    }];
    let doc = reply_document(&reply(true, "ok"), mouse_events_value(&rows));
    assert_eq!(
        mouse_move_lines(&doc),
        Some(vec![r#"["t1"] Mouse move "(1, 2)" => "(3, 4)""#.to_string()])
    );
    assert_eq!(
        mouse_moves(&doc),
        Some(vec![("t1".to_string(), "(1, 2)".to_string(), "(3, 4)".to_string())])
    );
    let missing = JsonDoc::Object(vec![(
        "response".to_string(),
        JsonDoc::Object(vec![(
            "returned_value".to_string(),
            JsonDoc::Object(vec![(
                "event_data_list".to_string(),
                JsonDoc::Array(vec![JsonDoc::Object(vec![("time".to_string(), number(7))])]),
            )]),
        )]),
    )]);
    assert_eq!(mouse_move_lines(&missing), Some(vec!["[7] Mouse move null => null".to_string()]));
    assert_eq!(mouse_moves(&missing), None);
    assert!(recorded_keys(&missing).is_none());
    assert_eq!(mouse_move_lines(&JsonDoc::Null), Some(vec![]));
}

#[test]
fn uploads_read_back_on_the_server() {
    let keys = vec![KeyEventToServer {
        id: "k1".to_string(),
        time: "t1".to_string(),
        key_name: "Mouse Left".to_string(),
        status: 0,
    }];
    let doc = key_upload_request("tok", &keys);
    assert_eq!(
        document_text(&doc),
        r#"{"length":0,"request":{"func_name":"insert_key_event_data","arguments":{"token_id":"tok","event_data_list":[{"id":"k1","time":"t1","key_name":"Mouse Left","status":0}]}}}"#
    );
    let read = key_uploads_of(&doc).unwrap();
    assert_eq!(read.len(), 1);
    assert_eq!((read[0].id.as_str(), read[0].time.as_str(), read[0].key_name.as_str(), read[0].status), ("k1", "t1", "Mouse Left", 0));

    let moves = vec![MouseEventUpload {
        id: "m1".to_string(),
        time: "t1".to_string(),
        original_position: "(1, 2)".to_string(),
        new_position: "(3, 4)".to_string(),
    }];
    let doc = mouse_upload_request("tok", &moves);
    let read = mouse_uploads_of(&doc).unwrap();
    assert_eq!(read.len(), 1);
    assert_eq!(read[0].new_position, "(3, 4)");
    assert_eq!(text_argument(&doc, "token_id"), Some("tok".to_string()));
    assert_eq!(key_uploads_of(&login_request("a", "b")).map(|v| v.len()), Some(0));
}

#[test]
fn json_numbers_read_as_small_integers() {
    assert_eq!(number(200).as_u8(), Some(200));
    assert_eq!(number(256).as_u8(), None);
    assert_eq!(JsonDoc::Number { negative: true, mantissa: 1, exponent: 0 }.as_u8(), None);
    assert_eq!(JsonDoc::Number { negative: true, mantissa: 128, exponent: 0 }.as_i8(), Some(-128));
    assert_eq!(number(128).as_i8(), None);
    assert_eq!(JsonDoc::Number { negative: false, mantissa: 1, exponent: 1 }.as_i8(), None);
    assert_eq!(JsonDoc::Text("1".to_string()).as_i8(), None);
}

fn local_time(secs: i64, nanos: u32) -> String {
    chrono::TimeZone::timestamp_opt(&chrono::Local, secs, nanos).unwrap().to_string()
}

#[test]
fn replay_lists_events_hold_times_and_typed_characters() {
    let t1 = local_time(1650855281, 0);
    let t2 = local_time(1650855282, 500000000);
    let key = "Keyboard 'A' Key".to_string();
    let events = vec![
        RecordedKey { time: t1.clone(), key_name: key.clone(), pressed: true },
        RecordedKey { time: t2.clone(), key_name: key.clone(), pressed: false },
        RecordedKey { time: t2.clone(), key_name: "Mouse Left".to_string(), pressed: false },
    ];
    let entries = replay_key_events(&events).unwrap();
    assert_eq!(entries.len(), 5);
    match &entries[0] {
        ViewEntry::Line(l) => assert_eq!(l, &format!("[{}] Keyboard 'A' Key Pressed", t1)),
        _ => panic!("expected a line"),
    }
    match &entries[1] {
        ViewEntry::Line(l) => assert_eq!(l, &format!("[{}] Keyboard 'A' Key Released", t2)),
        _ => panic!("expected a line"),
    }
    match &entries[2] {
        ViewEntry::Held { key_name, released_at, held_nanos } => {
            assert_eq!(key_name, &key);
            assert_eq!(*released_at, 1650855282500000000);
            assert_eq!(*held_nanos, 1500000000);
        }
        _ => panic!("expected a hold time"),
    }
    match &entries[3] {
        ViewEntry::Line(l) => assert_eq!(l, &format!("[{}] Input Character 'a'", t2)),
        _ => panic!("expected a line"),
    }
    match &entries[4] {
        ViewEntry::Line(l) => assert_eq!(l, &format!("[{}] Mouse Left Released", t2)),
        _ => panic!("expected a line"),
    }
    let unreadable = vec![RecordedKey { time: "not a time".to_string(), key_name: key, pressed: true }];
    assert!(replay_key_events(&unreadable).is_none());
}

#[test]
fn pointer_moves_chain_from_the_last_position() {
    let mut last = (124, 182);
    assert_eq!(record_move(&mut last, (125, 183)), ("(124, 182)".to_string(), "(125, 183)".to_string()));
    assert_eq!(last, (125, 183));
    assert_eq!(record_move(&mut last, (-1, 0)), ("(125, 183)".to_string(), "(-1, 0)".to_string()));
    assert_eq!(last, (-1, 0));
}

#[test]
fn start_pause_and_stop_drive_the_task() {
    let mut s = TaskState::new();
    let a = s.step(TaskEvent::StartClicked);
    assert!(a.spawn_monitor && a.mark_task_start && !a.mark_task_end);
    assert_eq!(a.start_icon, StartIcon::Pause);
    assert_eq!(a.stop_sensitive, Some(true));
    assert!(!a.results_sensitive);
    assert_eq!(s, TaskState { monitoring: true, task_running: true });

    let a = s.step(TaskEvent::StartClicked);
    assert!(!a.spawn_monitor && !a.mark_task_start);
    assert_eq!(a.start_icon, StartIcon::Start);
    assert_eq!(a.stop_sensitive, None);
    assert_eq!(s, TaskState { monitoring: false, task_running: true });

    let a = s.step(TaskEvent::StopClicked);
    assert!(a.mark_task_end && a.results_sensitive);
    assert_eq!(a.stop_sensitive, Some(false));
    assert_eq!(s, TaskState { monitoring: false, task_running: false });

    let a = s.step(TaskEvent::StopClicked);
    assert!(!a.mark_task_end);
    assert_eq!(s, TaskState { monitoring: false, task_running: false });
}

#[test]
fn every_framed_request_counts_itself() {
    let keys = vec![KeyEventToServer { id: "k".to_string(), time: "t".to_string(), key_name: "n".to_string(), status: 1 }];
    let long_name = "x".repeat(120);
    let docs = vec![
        login_request("a", "b"),
        logout_request(&long_name),
        view_key_events_request("tok", "2022-04-25 10:54:41", "2022-04-25 12:54:41"),
        key_upload_request("tok", &keys),
    ];
    for doc in docs {
        let (wire, text) = frame_message(doc).unwrap();
        let declared = format!(r#"{{"length":{},"#, text.len());
        assert!(text.starts_with(&declared));
        assert!(read_message(&wire).is_some());
    }
}

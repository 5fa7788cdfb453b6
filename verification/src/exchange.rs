//! The documents of the protocol's calls: the requests a client builds, the
//! replies a server builds, and the parts each side reads from the other's.
use crate::keyboard::is_press;
use crate::message::{
    key_index_from, length_placeholder, only_key_at, printed_width, whole_number,
    bool_of, i8_of, member_of, mouse_move_line, mouse_move_line_text, text_of, u8_of, JsonDoc,
};
use crate::records::{
    KeyEventToServer, KeyEventUpload, KeyPressingEvent, MouseEventUpload, MouseMovingEvent,
};
use crate::replay::RecordedKey;
use crate::server::Reply;
use vstd::prelude::*;
use vstd::string::*;

verus! {

/// A JSON number for a count or a status.
pub open spec fn count_number(n: nat) -> JsonDoc {
    JsonDoc::Number { negative: false, mantissa: n as u64, exponent: 0 }
}

/// Whether member `i` of `members` is named `key` and holds the text `value`.
pub open spec fn text_member_at(
    members: Seq<(String, JsonDoc)>,
    i: int,
    key: Seq<char>,
    value: Seq<char>,
) -> bool {
    members[i].0@ == key && text_of(members[i].1) == Some(value)
}

/// Whether `doc` is an object whose members are, in order, named `keys` and
/// hold the texts `values`.
pub open spec fn text_object(doc: JsonDoc, keys: Seq<Seq<char>>, values: Seq<Seq<char>>) -> bool {
    &&& doc matches JsonDoc::Object(m)
    &&& values.len() == keys.len()
    &&& m@.len() == keys.len()
    &&& forall|i: int| 0 <= i < keys.len() ==> #[trigger] text_member_at(m@, i, keys[i], values[i])
}

/// The arguments of `doc` where it is the request
/// `{"length":0,"request":{"func_name":func_name,"arguments":...}}`.
pub open spec fn request_arguments(doc: JsonDoc, func_name: Seq<char>) -> Option<JsonDoc> {
    match doc {
        JsonDoc::Object(top) => if top@.len() == 2 && top@[0].0@ == "length"@ && top@[0].1
            == count_number(0) && top@[1].0@ == "request"@ {
            match top@[1].1 {
                JsonDoc::Object(req) => if req@.len() == 2 && text_member_at(
                    req@,
                    0,
                    "func_name"@,
                    func_name,
                ) && req@[1].0@ == "arguments"@ {
                    Some(req@[1].1)
                } else {
                    None
                },
                _ => None,
            }
        } else {
            None
        },
        _ => None,
    }
}

/// Whether `doc` is the request calling `func_name` with the text arguments
/// named `keys` holding `values`.
pub open spec fn text_request(
    doc: JsonDoc,
    func_name: Seq<char>,
    keys: Seq<Seq<char>>,
    values: Seq<Seq<char>>,
) -> bool {
    request_arguments(doc, func_name) matches Some(a) && text_object(a, keys, values)
}

/// Every request the client builds carries the one-character `length`
/// placeholder, so its framing counts itself and the server accepts it
/// (`frame_message`).
pub proof fn lemma_requests_carry_the_placeholder(doc: JsonDoc, func_name: Seq<char>)
    requires
        request_arguments(doc, func_name) is Some,
    ensures
        length_placeholder(doc),
{
    reveal_strlit("length");
    reveal_strlit("request");
    if let JsonDoc::Object(top) = doc {
        assert(top@[1].0@ == "request"@);
        assert("request"@.len() != "length"@.len());
        assert(top@[1].0@ != "length"@);
        assert(key_index_from(top@, "length"@, 0) == Some(0int));
        assert(only_key_at(top@, "length"@, 0));
        assert(whole_number(top@[0].1));
        assert(printed_width(top@[0].1) == 1);
    }
}

/// A member holding a text.
fn text_member(key: &str, value: &str) -> (m: (String, JsonDoc))
    ensures
        m.0@ == key@,
        text_of(m.1) == Some(value@),
{
    (String::from_str(key), JsonDoc::Text(String::from_str(value)))
}

/// The request calling `func_name` with `arguments`.
fn request_document(func_name: &str, arguments: JsonDoc) -> (doc: JsonDoc)
    ensures
        request_arguments(doc, func_name@) == Some(arguments),
{
    let mut req: Vec<(String, JsonDoc)> = Vec::new();
    req.push(text_member("func_name", func_name));
    req.push((String::from_str("arguments"), arguments));
    let mut top: Vec<(String, JsonDoc)> = Vec::new();
    top.push((String::from_str("length"), JsonDoc::Number { negative: false, mantissa: 0, exponent: 0 }));
    top.push((String::from_str("request"), JsonDoc::Object(req)));
    JsonDoc::Object(top)
}

/// An object of two text members.
fn two_texts(k0: &str, v0: &str, k1: &str, v1: &str) -> (doc: JsonDoc)
    ensures
        text_object(doc, seq![k0@, k1@], seq![v0@, v1@]),
{
    let mut m: Vec<(String, JsonDoc)> = Vec::new();
    m.push(text_member(k0, v0));
    m.push(text_member(k1, v1));
    let doc = JsonDoc::Object(m);
    let ghost keys = seq![k0@, k1@];
    let ghost values = seq![v0@, v1@];
    assert forall|i: int| 0 <= i < 2 implies #[trigger] text_member_at(m@, i, keys[i], values[i]) by {
        if i == 0 {
        } else {
        }
    }
    doc
}

/// An object of three text members.
fn three_texts(k0: &str, v0: &str, k1: &str, v1: &str, k2: &str, v2: &str) -> (doc: JsonDoc)
    ensures
        text_object(doc, seq![k0@, k1@, k2@], seq![v0@, v1@, v2@]),
{
    let mut m: Vec<(String, JsonDoc)> = Vec::new();
    m.push(text_member(k0, v0));
    m.push(text_member(k1, v1));
    m.push(text_member(k2, v2));
    let doc = JsonDoc::Object(m);
    let ghost keys = seq![k0@, k1@, k2@];
    let ghost values = seq![v0@, v1@, v2@];
    assert forall|i: int| 0 <= i < 3 implies #[trigger] text_member_at(m@, i, keys[i], values[i]) by {
        if i == 0 {
        } else if i == 1 {
        } else {
        }
    }
    doc
}

/// The request that registers a user.
pub fn register_user_request(username: &str, password: &str) -> (doc: JsonDoc)
    ensures
        text_request(
            doc,
            "register_user"@,
            seq!["username"@, "password"@],
            seq![username@, password@],
        ),
{
    request_document("register_user", two_texts("username", username, "password", password))
}

/// The request that logs a user in.
pub fn login_request(username: &str, password: &str) -> (doc: JsonDoc)
    ensures
        text_request(doc, "login"@, seq!["username"@, "password"@], seq![username@, password@]),
{
    request_document("login", two_texts("username", username, "password", password))
}

/// The request that changes a logged-in user's password.
pub fn modify_password_request(token_id: &str, old_password: &str, new_password: &str) -> (doc:
    JsonDoc)
    ensures
        text_request(
            doc,
            "modify_password"@,
            seq!["token_id"@, "old_password"@, "new_password"@],
            seq![token_id@, old_password@, new_password@],
        ),
{
    request_document(
        "modify_password",
        three_texts(
            "token_id",
            token_id,
            "old_password",
            old_password,
            "new_password",
            new_password,
        ),
    )
}

/// The request that logs a session out.
pub fn logout_request(token_id: &str) -> (doc: JsonDoc)
    ensures
        text_request(doc, "logout"@, seq!["token_id"@], seq![token_id@]),
{
    let mut m: Vec<(String, JsonDoc)> = Vec::new();
    m.push(text_member("token_id", token_id));
    let args = JsonDoc::Object(m);
    let ghost keys = seq!["token_id"@];
    let ghost values = seq![token_id@];
    assert(text_member_at(m@, 0, keys[0], values[0]));
    request_document("logout", args)
}

/// The request that lists the stored key events of a time window.
pub fn view_key_events_request(token_id: &str, start_time: &str, end_time: &str) -> (doc: JsonDoc)
    ensures
        text_request(
            doc,
            "view_key_event_data"@,
            seq!["token_id"@, "start_time"@, "end_time"@],
            seq![token_id@, start_time@, end_time@],
        ),
{
    request_document(
        "view_key_event_data",
        three_texts("token_id", token_id, "start_time", start_time, "end_time", end_time),
    )
}

/// The request that lists the stored mouse movements of a time window.
pub fn view_mouse_moves_request(token_id: &str, start_time: &str, end_time: &str) -> (doc: JsonDoc)
    ensures
        text_request(
            doc,
            "view_mouse_moving_event_data"@,
            seq!["token_id"@, "start_time"@, "end_time"@],
            seq![token_id@, start_time@, end_time@],
        ),
{
    request_document(
        "view_mouse_moving_event_data",
        three_texts("token_id", token_id, "start_time", start_time, "end_time", end_time),
    )
}

/// Whether `doc` is a key event `{"id","time","key_name","status"}`.
pub open spec fn key_event_object(
    doc: JsonDoc,
    id: Seq<char>,
    time: Seq<char>,
    key_name: Seq<char>,
    status: u8,
) -> bool {
    &&& doc matches JsonDoc::Object(m)
    &&& m@.len() == 4
    &&& text_member_at(m@, 0, "id"@, id)
    &&& text_member_at(m@, 1, "time"@, time)
    &&& text_member_at(m@, 2, "key_name"@, key_name)
    &&& m@[3].0@ == "status"@
    &&& m@[3].1 == count_number(status as nat)
}

/// Whether `doc` is a mouse movement
/// `{"id","time","original_position","new_position"}`.
pub open spec fn mouse_event_object(
    doc: JsonDoc,
    id: Seq<char>,
    time: Seq<char>,
    original_position: Seq<char>,
    new_position: Seq<char>,
) -> bool {
    text_object(
        doc,
        seq!["id"@, "time"@, "original_position"@, "new_position"@],
        seq![id, time, original_position, new_position],
    )
}

/// A key event as an object.
fn key_event_doc(id: &str, time: &str, key_name: &str, status: u8) -> (doc: JsonDoc)
    ensures
        key_event_object(doc, id@, time@, key_name@, status),
{
    let mut m: Vec<(String, JsonDoc)> = Vec::new();
    m.push(text_member("id", id));
    m.push(text_member("time", time));
    m.push(text_member("key_name", key_name));
    m.push(
        (
            String::from_str("status"),
            JsonDoc::Number { negative: false, mantissa: status as u64, exponent: 0 },
        ),
    );
    JsonDoc::Object(m)
}

/// A mouse movement as an object.
fn mouse_event_doc(id: &str, time: &str, original_position: &str, new_position: &str) -> (doc:
    JsonDoc)
    ensures
        mouse_event_object(doc, id@, time@, original_position@, new_position@),
{
    let mut m: Vec<(String, JsonDoc)> = Vec::new();
    m.push(text_member("id", id));
    m.push(text_member("time", time));
    m.push(text_member("original_position", original_position));
    m.push(text_member("new_position", new_position));
    let doc = JsonDoc::Object(m);
    let ghost keys = seq!["id"@, "time"@, "original_position"@, "new_position"@];
    let ghost values = seq![id@, time@, original_position@, new_position@];
    assert forall|i: int| 0 <= i < 4 implies #[trigger] text_member_at(m@, i, keys[i], values[i]) by {
        if i == 0 {
        } else if i == 1 {
        } else if i == 2 {
        } else {
        }
    }
    doc
}

/// The events of an upload's arguments `{"token_id":..,"event_data_list":[..]}`.
pub open spec fn upload_items(args: JsonDoc, token_id: Seq<char>) -> Option<Seq<JsonDoc>> {
    match args {
        JsonDoc::Object(m) => if m@.len() == 2 && text_member_at(m@, 0, "token_id"@, token_id)
            && m@[1].0@ == "event_data_list"@ {
            match m@[1].1 {
                JsonDoc::Array(items) => Some(items@),
                _ => None,
            }
        } else {
            None
        },
        _ => None,
    }
}

/// The events of an upload request calling `func_name`.
pub open spec fn upload_request_items(doc: JsonDoc, func_name: Seq<char>, token_id: Seq<char>) -> Option<
    Seq<JsonDoc>,
> {
    match request_arguments(doc, func_name) {
        Some(a) => upload_items(a, token_id),
        None => None,
    }
}

/// The upload request calling `func_name` with the events `items`.
fn upload_document(func_name: &str, token_id: &str, items: Vec<JsonDoc>) -> (doc: JsonDoc)
    ensures
        upload_request_items(doc, func_name@, token_id@) == Some(items@),
{
    let mut m: Vec<(String, JsonDoc)> = Vec::new();
    m.push(text_member("token_id", token_id));
    m.push((String::from_str("event_data_list"), JsonDoc::Array(items)));
    request_document(func_name, JsonDoc::Object(m))
}

/// The request that uploads key events for storage.
pub fn key_upload_request(token_id: &str, events: &Vec<KeyEventToServer>) -> (doc: JsonDoc)
    ensures
        upload_request_items(doc, "insert_key_event_data"@, token_id@) matches Some(items) && {
            &&& items.len() == events.len()
            &&& forall|i: int|
                0 <= i < items.len() ==> key_event_object(
                    #[trigger] items[i],
                    events@[i].id@,
                    events@[i].time@,
                    events@[i].key_name@,
                    events@[i].status,
                )
        },
{
    let mut items: Vec<JsonDoc> = Vec::new();
    let mut i: usize = 0;
    while i < events.len()
        invariant
            i <= events.len(),
            items.len() == i,
            forall|j: int|
                0 <= j < i ==> key_event_object(
                    #[trigger] items@[j],
                    events@[j].id@,
                    events@[j].time@,
                    events@[j].key_name@,
                    events@[j].status,
                ),
        decreases events.len() - i,
    {
        let e = &events[i];
        items.push(key_event_doc(e.id.as_str(), e.time.as_str(), e.key_name.as_str(), e.status));
        i += 1;
    }
    upload_document("insert_key_event_data", token_id, items)
}

/// The request that uploads mouse movements for storage.
pub fn mouse_upload_request(token_id: &str, events: &Vec<MouseEventUpload>) -> (doc: JsonDoc)
    ensures
        upload_request_items(doc, "insert_mouse_moving_event_data"@, token_id@) matches Some(items)
            && {
            &&& items.len() == events.len()
            &&& forall|i: int|
                0 <= i < items.len() ==> mouse_event_object(
                    #[trigger] items[i],
                    events@[i].id@,
                    events@[i].time@,
                    events@[i].original_position@,
                    events@[i].new_position@,
                )
        },
{
    let mut items: Vec<JsonDoc> = Vec::new();
    let mut i: usize = 0;
    while i < events.len()
        invariant
            i <= events.len(),
            items.len() == i,
            forall|j: int|
                0 <= j < i ==> mouse_event_object(
                    #[trigger] items@[j],
                    events@[j].id@,
                    events@[j].time@,
                    events@[j].original_position@,
                    events@[j].new_position@,
                ),
        decreases events.len() - i,
    {
        let e = &events[i];
        items.push(
            mouse_event_doc(
                e.id.as_str(),
                e.time.as_str(),
                e.original_position.as_str(),
                e.new_position.as_str(),
            ),
        );
        i += 1;
    }
    upload_document("insert_mouse_moving_event_data", token_id, items)
}

/// The parts of a reply
/// `{"length":0,"response":{"is_success":..,"message":..,"returned_value":..}}`.
pub open spec fn reply_parts(doc: JsonDoc) -> Option<(bool, Seq<char>, JsonDoc)> {
    match doc {
        JsonDoc::Object(top) => if top@.len() == 2 && top@[0].0@ == "length"@ && top@[0].1
            == count_number(0) && top@[1].0@ == "response"@ {
            match top@[1].1 {
                JsonDoc::Object(r) => if r@.len() == 3 && r@[0].0@ == "is_success"@ && r@[1].0@
                    == "message"@ && r@[2].0@ == "returned_value"@ {
                    match (r@[0].1, text_of(r@[1].1)) {
                        (JsonDoc::Bool(b), Some(t)) => Some((b, t, r@[2].1)),
                        _ => None,
                    }
                } else {
                    None
                },
                _ => None,
            }
        } else {
            None
        },
        _ => None,
    }
}

/// The reply a server sends: success, message and returned value.
pub fn reply_document(reply: &Reply, returned_value: JsonDoc) -> (doc: JsonDoc)
    ensures
        reply_parts(doc) == Some((reply.is_success, reply.message@, returned_value)),
{
    let mut r: Vec<(String, JsonDoc)> = Vec::new();
    r.push((String::from_str("is_success"), JsonDoc::Bool(reply.is_success)));
    r.push(text_member("message", reply.message.as_str()));
    r.push((String::from_str("returned_value"), returned_value));
    let mut top: Vec<(String, JsonDoc)> = Vec::new();
    top.push((String::from_str("length"), JsonDoc::Number { negative: false, mantissa: 0, exponent: 0 }));
    top.push((String::from_str("response"), JsonDoc::Object(r)));
    JsonDoc::Object(top)
}

/// The returned value of a reply that returns nothing: `{}`.
pub fn empty_value() -> (doc: JsonDoc)
    ensures
        doc matches JsonDoc::Object(m) && m@.len() == 0,
{
    JsonDoc::Object(Vec::new())
}

/// The returned value of a login: the session's token and the time reported
/// with it.
pub fn session_value(token_id: &str, token_expiry_time: &str) -> (doc: JsonDoc)
    ensures
        text_object(
            doc,
            seq!["token_id"@, "token_expiry_time"@],
            seq![token_id@, token_expiry_time@],
        ),
{
    two_texts("token_id", token_id, "token_expiry_time", token_expiry_time)
}

/// The events of a returned value `{"event_data_list_count":n,"event_data_list":[..]}`
/// whose count is the number of its events.
pub open spec fn listed_events(doc: JsonDoc) -> Option<Seq<JsonDoc>> {
    match doc {
        JsonDoc::Object(m) => if m@.len() == 2 && m@[0].0@ == "event_data_list_count"@ && m@[1].0@
            == "event_data_list"@ {
            match m@[1].1 {
                JsonDoc::Array(items) => if m@[0].1 == count_number(items@.len()) {
                    Some(items@)
                } else {
                    None
                },
                _ => None,
            }
        } else {
            None
        },
        _ => None,
    }
}

/// A returned value listing `items` with their count.
fn event_list_value(items: Vec<JsonDoc>) -> (doc: JsonDoc)
    ensures
        listed_events(doc) == Some(items@),
{
    let count = JsonDoc::Number { negative: false, mantissa: items.len() as u64, exponent: 0 };
    let mut m: Vec<(String, JsonDoc)> = Vec::new();
    m.push((String::from_str("event_data_list_count"), count));
    m.push((String::from_str("event_data_list"), JsonDoc::Array(items)));
    JsonDoc::Object(m)
}

/// The returned value listing stored key events (their user left out).
pub fn key_events_value(rows: &Vec<KeyPressingEvent>) -> (doc: JsonDoc)
    ensures
        listed_events(doc) matches Some(items) && {
            &&& items.len() == rows.len()
            &&& forall|i: int|
                0 <= i < items.len() ==> key_event_object(
                    #[trigger] items[i],
                    rows@[i].id@,
                    rows@[i].time@,
                    rows@[i].key_name@,
                    rows@[i].status,
                )
        },
{
    let mut items: Vec<JsonDoc> = Vec::new();
    let mut i: usize = 0;
    while i < rows.len()
        invariant
            i <= rows.len(),
            items.len() == i,
            forall|j: int|
                0 <= j < i ==> key_event_object(
                    #[trigger] items@[j],
                    rows@[j].id@,
                    rows@[j].time@,
                    rows@[j].key_name@,
                    rows@[j].status,
                ),
        decreases rows.len() - i,
    {
        let e = &rows[i];
        items.push(key_event_doc(e.id.as_str(), e.time.as_str(), e.key_name.as_str(), e.status));
        i += 1;
    }
    event_list_value(items)
}

/// The returned value listing stored mouse movements (their user left out).
pub fn mouse_events_value(rows: &Vec<MouseMovingEvent>) -> (doc: JsonDoc)
    ensures
        listed_events(doc) matches Some(items) && {
            &&& items.len() == rows.len()
            &&& forall|i: int|
                0 <= i < items.len() ==> mouse_event_object(
                    #[trigger] items[i],
                    rows@[i].id@,
                    rows@[i].time@,
                    rows@[i].original_position@,
                    rows@[i].new_position@,
                )
        },
{
    let mut items: Vec<JsonDoc> = Vec::new();
    let mut i: usize = 0;
    while i < rows.len()
        invariant
            i <= rows.len(),
            items.len() == i,
            forall|j: int|
                0 <= j < i ==> mouse_event_object(
                    #[trigger] items@[j],
                    rows@[j].id@,
                    rows@[j].time@,
                    rows@[j].original_position@,
                    rows@[j].new_position@,
                ),
        decreases rows.len() - i,
    {
        let e = &rows[i];
        items.push(
            mouse_event_doc(
                e.id.as_str(),
                e.time.as_str(),
                e.original_position.as_str(),
                e.new_position.as_str(),
            ),
        );
        i += 1;
    }
    event_list_value(items)
}

/// The text of an optional document.
pub open spec fn opt_text(doc: Option<JsonDoc>) -> Option<Seq<char>> {
    match doc {
        Some(d) => text_of(d),
        None => None,
    }
}

/// The boolean of an optional document.
pub open spec fn opt_bool(doc: Option<JsonDoc>) -> Option<bool> {
    match doc {
        Some(d) => bool_of(d),
        None => None,
    }
}

/// The `u8` of an optional document.
pub open spec fn opt_u8(doc: Option<JsonDoc>) -> Option<u8> {
    match doc {
        Some(d) => u8_of(d),
        None => None,
    }
}

/// The `i8` of an optional document.
pub open spec fn opt_i8(doc: Option<JsonDoc>) -> Option<i8> {
    match doc {
        Some(d) => i8_of(d),
        None => None,
    }
}

/// The member `key` of the member `outer` of a document.
pub open spec fn nested_member(doc: JsonDoc, outer: Seq<char>, key: Seq<char>) -> Option<JsonDoc> {
    match member_of(doc, outer) {
        Some(o) => member_of(o, key),
        None => None,
    }
}

/// The member `key` of `response.returned_value` in a reply.
pub open spec fn returned_member(doc: JsonDoc, key: Seq<char>) -> Option<JsonDoc> {
    match nested_member(doc, "response"@, "returned_value"@) {
        Some(v) => member_of(v, key),
        None => None,
    }
}

/// The argument `key` of a request: `request.arguments.key`.
pub open spec fn argument(doc: JsonDoc, key: Seq<char>) -> Option<JsonDoc> {
    match nested_member(doc, "request"@, "arguments"@) {
        Some(a) => member_of(a, key),
        None => None,
    }
}

/// The items of a list member: an array's items, none where the member is
/// absent or null; `None` for anything else.
pub open spec fn list_items(doc: Option<JsonDoc>) -> Option<Seq<JsonDoc>> {
    match doc {
        None => Some(Seq::empty()),
        Some(JsonDoc::Null) => Some(Seq::empty()),
        Some(JsonDoc::Array(items)) => Some(items@),
        Some(_) => None,
    }
}

/// The text of a member.
fn member_text(doc: &JsonDoc, key: &str) -> (t: Option<String>)
    ensures
        match t {
            Some(s) => opt_text(member_of(*doc, key@)) == Some(s@),
            None => opt_text(member_of(*doc, key@)) is None,
        },
{
    match doc.member(key) {
        Some(d) => match d.as_text() {
            Some(s) => Some(s.clone()),
            None => None,
        },
        None => None,
    }
}

/// A member of a member.
fn nested<'a>(doc: &'a JsonDoc, outer: &str, key: &str) -> (m: Option<&'a JsonDoc>)
    ensures
        match m {
            Some(d) => nested_member(*doc, outer@, key@) == Some(*d),
            None => nested_member(*doc, outer@, key@) is None,
        },
{
    match doc.member(outer) {
        Some(o) => o.member(key),
        None => None,
    }
}

/// The `u8` of a member.
fn member_u8(doc: &JsonDoc, key: &str) -> (v: Option<u8>)
    ensures
        v == opt_u8(member_of(*doc, key@)),
{
    match doc.member(key) {
        Some(d) => d.as_u8(),
        None => None,
    }
}

/// The `i8` of a member.
fn member_i8(doc: &JsonDoc, key: &str) -> (v: Option<i8>)
    ensures
        v == opt_i8(member_of(*doc, key@)),
{
    match doc.member(key) {
        Some(d) => d.as_i8(),
        None => None,
    }
}

/// The member `key` of a reply's returned value.
fn returned<'a>(doc: &'a JsonDoc, key: &str) -> (m: Option<&'a JsonDoc>)
    ensures
        match m {
            Some(d) => returned_member(*doc, key@) == Some(*d),
            None => returned_member(*doc, key@) is None,
        },
{
    match nested(doc, "response", "returned_value") {
        Some(v) => v.member(key),
        None => None,
    }
}

/// A request's argument `key`.
fn argument_doc<'a>(doc: &'a JsonDoc, key: &str) -> (m: Option<&'a JsonDoc>)
    ensures
        match m {
            Some(d) => argument(*doc, key@) == Some(*d),
            None => argument(*doc, key@) is None,
        },
{
    match nested(doc, "request", "arguments") {
        Some(a) => a.member(key),
        None => None,
    }
}

/// A reply's `response.is_success` and `response.message`; `None` where
/// either is missing or of another kind.
pub fn reply_status(doc: &JsonDoc) -> (status: Option<(bool, String)>)
    ensures
        match status {
            Some((ok, message)) => {
                &&& opt_bool(nested_member(*doc, "response"@, "is_success"@)) == Some(ok)
                &&& opt_text(nested_member(*doc, "response"@, "message"@)) == Some(message@)
            },
            None => opt_bool(nested_member(*doc, "response"@, "is_success"@)) is None || opt_text(
                nested_member(*doc, "response"@, "message"@),
            ) is None,
        },
{
    let ok = match nested(doc, "response", "is_success") {
        Some(d) => d.as_bool(),
        None => None,
    };
    let message = match nested(doc, "response", "message") {
        Some(d) => match d.as_text() {
            Some(t) => Some(t.clone()),
            None => None,
        },
        None => None,
    };
    match (ok, message) {
        (Some(b), Some(m)) => Some((b, m)),
        _ => None,
    }
}

/// The text member `key` of a reply's returned value, such as a login's
/// `token_id`.
pub fn returned_text(doc: &JsonDoc, key: &str) -> (t: Option<String>)
    ensures
        match t {
            Some(s) => opt_text(returned_member(*doc, key@)) == Some(s@),
            None => opt_text(returned_member(*doc, key@)) is None,
        },
{
    match returned(doc, key) {
        Some(d) => match d.as_text() {
            Some(s) => Some(s.clone()),
            None => None,
        },
        None => None,
    }
}

/// Whether `key` is what the event view reads from a listed key event: its
/// time, its key name and whether its status is a press.
pub open spec fn recorded_key_of(item: JsonDoc, key: RecordedKey) -> bool {
    &&& opt_text(member_of(item, "time"@)) == Some(key.time@)
    &&& opt_text(member_of(item, "key_name"@)) == Some(key.key_name@)
    &&& opt_u8(member_of(item, "status"@)) matches Some(st) && key.pressed == is_press(st)
}

/// Whether a listed key event has a text time, a text key name and a `u8`
/// status.
pub open spec fn key_readable(item: JsonDoc) -> bool {
    &&& opt_text(member_of(item, "time"@)) is Some
    &&& opt_text(member_of(item, "key_name"@)) is Some
    &&& opt_u8(member_of(item, "status"@)) is Some
}

/// Whether `read` is what is read from each of the key events of `doc`.
pub open spec fn keys_listed(doc: JsonDoc, read: Seq<RecordedKey>) -> bool {
    match list_items(returned_member(doc, "event_data_list"@)) {
        Some(items) => read.len() == items.len() && forall|i: int|
            0 <= i < items.len() ==> recorded_key_of(#[trigger] items[i], read[i]),
        None => false,
    }
}

/// Whether the key events of `doc` are not a list or one cannot be read.
pub open spec fn keys_unreadable(doc: JsonDoc) -> bool {
    match list_items(returned_member(doc, "event_data_list"@)) {
        Some(items) => exists|i: int| 0 <= i < items.len() && !key_readable(#[trigger] items[i]),
        None => true,
    }
}

/// The key events a reply lists under `returned_value.event_data_list`;
/// `None` where the list is not a list or an event cannot be read.
pub fn recorded_keys(doc: &JsonDoc) -> (found: Option<Vec<RecordedKey>>)
    ensures
        match found {
            Some(v) => keys_listed(*doc, v@),
            None => keys_unreadable(*doc),
        },
{
    let empty: Vec<JsonDoc> = Vec::new();
    let list = returned(doc, "event_data_list");
    let items: &Vec<JsonDoc> = match list {
        None => &empty,
        Some(JsonDoc::Null) => &empty,
        Some(JsonDoc::Array(v)) => v,
        Some(_) => {
            return None;
        },
    };
    assert(list_items(returned_member(*doc, "event_data_list"@)) == Some(items@));
    let mut acc: Vec<RecordedKey> = Vec::new();
    let mut i: usize = 0;
    while i < items.len()
        invariant
            i <= items.len(),
            acc.len() == i,
            list_items(returned_member(*doc, "event_data_list"@)) == Some(items@),
            forall|j: int| 0 <= j < i ==> recorded_key_of(#[trigger] items@[j], acc@[j]),
        decreases items.len() - i,
    {
        let item = &items[i];
        let time = member_text(item, "time");
        let key_name = member_text(item, "key_name");
        let status = member_u8(item, "status");
        match (time, key_name, status) {
            (Some(t), Some(k), Some(st)) => {
                let pressed = st == 1;
                acc.push(RecordedKey { time: t, key_name: k, pressed });
            },
            _ => {
                assert(keys_unreadable(*doc)) by {
                    let its = list_items(returned_member(*doc, "event_data_list"@))->0;
                    assert(its == items@);
                    assert(!key_readable(its[i as int]));
                }
                return None;
            },
        }
        i += 1;
    }
    Some(acc)
}

/// The document of an optional member, null where it is absent (as
/// indexing a `JsonValue` gives it).
pub open spec fn or_null(doc: Option<JsonDoc>) -> JsonDoc {
    match doc {
        Some(d) => d,
        None => JsonDoc::Null,
    }
}

/// How the event view lists a listed mouse movement.
pub open spec fn listed_move_line(item: JsonDoc) -> Seq<char> {
    mouse_move_line_text(
        or_null(member_of(item, "time"@)),
        or_null(member_of(item, "original_position"@)),
        or_null(member_of(item, "new_position"@)),
    )
}

/// The event view's lines for the mouse movements a reply lists under
/// `returned_value.event_data_list`; `None` where the list is not a list.
pub fn mouse_move_lines(doc: &JsonDoc) -> (lines: Option<Vec<String>>)
    ensures
        match lines {
            Some(v) => list_items(returned_member(*doc, "event_data_list"@)) matches Some(items) && {
                &&& v.len() == items.len()
                &&& forall|i: int| 0 <= i < items.len() ==> #[trigger] v@[i]@ == listed_move_line(items[i])
            },
            None => list_items(returned_member(*doc, "event_data_list"@)) is None,
        },
{
    let empty: Vec<JsonDoc> = Vec::new();
    let list = returned(doc, "event_data_list");
    let items: &Vec<JsonDoc> = match list {
        None => &empty,
        Some(JsonDoc::Null) => &empty,
        Some(JsonDoc::Array(v)) => v,
        Some(_) => {
            return None;
        },
    };
    assert(list_items(returned_member(*doc, "event_data_list"@)) == Some(items@));
    let null = JsonDoc::Null;
    let mut acc: Vec<String> = Vec::new();
    let mut i: usize = 0;
    while i < items.len()
        invariant
            i <= items.len(),
            acc.len() == i,
            null == JsonDoc::Null,
            forall|j: int| 0 <= j < i ==> #[trigger] acc@[j]@ == listed_move_line(items@[j]),
        decreases items.len() - i,
    {
        let item = &items[i];
        let time = match item.member("time") {
            Some(d) => d,
            None => &null,
        };
        let original = match item.member("original_position") {
            Some(d) => d,
            None => &null,
        };
        let new = match item.member("new_position") {
            Some(d) => d,
            None => &null,
        };
        acc.push(mouse_move_line(time, original, new));
        i += 1;
    }
    Some(acc)
}

/// Whether `moved` is what the analysis reads from a listed mouse movement:
/// its time and its two positions.
pub open spec fn move_of(item: JsonDoc, moved: (String, String, String)) -> bool {
    &&& opt_text(member_of(item, "time"@)) == Some(moved.0@)
    &&& opt_text(member_of(item, "original_position"@)) == Some(moved.1@)
    &&& opt_text(member_of(item, "new_position"@)) == Some(moved.2@)
}

/// Whether a listed mouse movement has a text time and text positions.
pub open spec fn move_readable(item: JsonDoc) -> bool {
    &&& opt_text(member_of(item, "time"@)) is Some
    &&& opt_text(member_of(item, "original_position"@)) is Some
    &&& opt_text(member_of(item, "new_position"@)) is Some
}

/// Whether `read` is what is read from each of the mouse movements of `doc`.
pub open spec fn moves_listed(doc: JsonDoc, read: Seq<(String, String, String)>) -> bool {
    match list_items(returned_member(doc, "event_data_list"@)) {
        Some(items) => read.len() == items.len() && forall|i: int|
            0 <= i < items.len() ==> move_of(#[trigger] items[i], read[i]),
        None => false,
    }
}

/// Whether the mouse movements of `doc` are not a list or one cannot be read.
pub open spec fn moves_unreadable(doc: JsonDoc) -> bool {
    match list_items(returned_member(doc, "event_data_list"@)) {
        Some(items) => exists|i: int| 0 <= i < items.len() && !move_readable(#[trigger] items[i]),
        None => true,
    }
}

/// The time, original and new position of each mouse movement a reply
/// lists; `None` where the list is not a list or a movement cannot be read.
pub fn mouse_moves(doc: &JsonDoc) -> (found: Option<Vec<(String, String, String)>>)
    ensures
        match found {
            Some(v) => moves_listed(*doc, v@),
            None => moves_unreadable(*doc),
        },
{
    let empty: Vec<JsonDoc> = Vec::new();
    let list = returned(doc, "event_data_list");
    let items: &Vec<JsonDoc> = match list {
        None => &empty,
        Some(JsonDoc::Null) => &empty,
        Some(JsonDoc::Array(v)) => v,
        Some(_) => {
            return None;
        },
    };
    assert(list_items(returned_member(*doc, "event_data_list"@)) == Some(items@));
    let mut acc: Vec<(String, String, String)> = Vec::new();
    let mut i: usize = 0;
    while i < items.len()
        invariant
            i <= items.len(),
            acc.len() == i,
            list_items(returned_member(*doc, "event_data_list"@)) == Some(items@),
            forall|j: int| 0 <= j < i ==> move_of(#[trigger] items@[j], acc@[j]),
        decreases items.len() - i,
    {
        let item = &items[i];
        let time = member_text(item, "time");
        let original = member_text(item, "original_position");
        let new = member_text(item, "new_position");
        match (time, original, new) {
            (Some(t), Some(o), Some(n)) => {
                acc.push((t, o, n));
            },
            _ => {
                assert(moves_unreadable(*doc)) by {
                    let its = list_items(returned_member(*doc, "event_data_list"@))->0;
                    assert(its == items@);
                    assert(!move_readable(its[i as int]));
                }
                return None;
            },
        }
        i += 1;
    }
    Some(acc)
}

/// The function a request calls: `request.func_name`.
pub fn func_name_of(doc: &JsonDoc) -> (name: Option<String>)
    ensures
        match name {
            Some(n) => opt_text(nested_member(*doc, "request"@, "func_name"@)) == Some(n@),
            None => opt_text(nested_member(*doc, "request"@, "func_name"@)) is None,
        },
{
    match nested(doc, "request", "func_name") {
        Some(d) => match d.as_text() {
            Some(s) => Some(s.clone()),
            None => None,
        },
        None => None,
    }
}

/// A request's text argument `key`.
pub fn text_argument(doc: &JsonDoc, key: &str) -> (t: Option<String>)
    ensures
        match t {
            Some(s) => opt_text(argument(*doc, key@)) == Some(s@),
            None => opt_text(argument(*doc, key@)) is None,
        },
{
    match argument_doc(doc, key) {
        Some(d) => match d.as_text() {
            Some(s) => Some(s.clone()),
            None => None,
        },
        None => None,
    }
}

/// Whether `e` is what the server reads from an uploaded key event.
pub open spec fn key_upload_of(item: JsonDoc, e: KeyEventUpload) -> bool {
    &&& opt_text(member_of(item, "id"@)) == Some(e.id@)
    &&& opt_text(member_of(item, "time"@)) == Some(e.time@)
    &&& opt_text(member_of(item, "key_name"@)) == Some(e.key_name@)
    &&& opt_i8(member_of(item, "status"@)) == Some(e.status)
}

/// Whether an uploaded key event has text fields and an `i8` status.
pub open spec fn key_upload_readable(item: JsonDoc) -> bool {
    &&& opt_text(member_of(item, "id"@)) is Some
    &&& opt_text(member_of(item, "time"@)) is Some
    &&& opt_text(member_of(item, "key_name"@)) is Some
    &&& opt_i8(member_of(item, "status"@)) is Some
}

/// Whether `read` is what is read from each of the uploaded key events of `doc`.
pub open spec fn key_uploads_listed(doc: JsonDoc, read: Seq<KeyEventUpload>) -> bool {
    match list_items(argument(doc, "event_data_list"@)) {
        Some(items) => read.len() == items.len() && forall|i: int|
            0 <= i < items.len() ==> key_upload_of(#[trigger] items[i], read[i]),
        None => false,
    }
}

/// Whether the uploaded key events of `doc` are not a list or one cannot be read.
pub open spec fn key_uploads_unreadable(doc: JsonDoc) -> bool {
    match list_items(argument(doc, "event_data_list"@)) {
        Some(items) => exists|i: int| 0 <= i < items.len() && !key_upload_readable(#[trigger] items[i]),
        None => true,
    }
}

/// The key events a request uploads under `arguments.event_data_list`;
/// `None` where the list is not a list or an event cannot be read.
pub fn key_uploads_of(doc: &JsonDoc) -> (found: Option<Vec<KeyEventUpload>>)
    ensures
        match found {
            Some(v) => key_uploads_listed(*doc, v@),
            None => key_uploads_unreadable(*doc),
        },
{
    let empty: Vec<JsonDoc> = Vec::new();
    let list = argument_doc(doc, "event_data_list");
    let items: &Vec<JsonDoc> = match list {
        None => &empty,
        Some(JsonDoc::Null) => &empty,
        Some(JsonDoc::Array(v)) => v,
        Some(_) => {
            return None;
        },
    };
    assert(list_items(argument(*doc, "event_data_list"@)) == Some(items@));
    let mut acc: Vec<KeyEventUpload> = Vec::new();
    let mut i: usize = 0;
    while i < items.len()
        invariant
            i <= items.len(),
            acc.len() == i,
            list_items(argument(*doc, "event_data_list"@)) == Some(items@),
            forall|j: int| 0 <= j < i ==> key_upload_of(#[trigger] items@[j], acc@[j]),
        decreases items.len() - i,
    {
        let item = &items[i];
        let id = member_text(item, "id");
        let time = member_text(item, "time");
        let key_name = member_text(item, "key_name");
        let status = member_i8(item, "status");
        match (id, time, key_name, status) {
            (Some(id), Some(time), Some(key_name), Some(status)) => {
                acc.push(KeyEventUpload { id, time, key_name, status });
            },
            _ => {
                assert(key_uploads_unreadable(*doc)) by {
                    let its = list_items(argument(*doc, "event_data_list"@))->0;
                    assert(its == items@);
                    assert(!key_upload_readable(its[i as int]));
                }
                return None;
            },
        }
        i += 1;
    }
    Some(acc)
}

/// Whether `e` is what the server reads from an uploaded mouse movement.
pub open spec fn mouse_upload_of(item: JsonDoc, e: MouseEventUpload) -> bool {
    &&& opt_text(member_of(item, "id"@)) == Some(e.id@)
    &&& opt_text(member_of(item, "time"@)) == Some(e.time@)
    &&& opt_text(member_of(item, "original_position"@)) == Some(e.original_position@)
    &&& opt_text(member_of(item, "new_position"@)) == Some(e.new_position@)
}

/// Whether an uploaded mouse movement has text fields.
pub open spec fn mouse_upload_readable(item: JsonDoc) -> bool {
    &&& opt_text(member_of(item, "id"@)) is Some
    &&& opt_text(member_of(item, "time"@)) is Some
    &&& opt_text(member_of(item, "original_position"@)) is Some
    &&& opt_text(member_of(item, "new_position"@)) is Some
}

/// Whether `read` is what is read from each of the uploaded mouse movements of `doc`.
pub open spec fn mouse_uploads_listed(doc: JsonDoc, read: Seq<MouseEventUpload>) -> bool {
    match list_items(argument(doc, "event_data_list"@)) {
        Some(items) => read.len() == items.len() && forall|i: int|
            0 <= i < items.len() ==> mouse_upload_of(#[trigger] items[i], read[i]),
        None => false,
    }
}

/// Whether the uploaded mouse movements of `doc` are not a list or one cannot be read.
pub open spec fn mouse_uploads_unreadable(doc: JsonDoc) -> bool {
    match list_items(argument(doc, "event_data_list"@)) {
        Some(items) => exists|i: int| 0 <= i < items.len() && !mouse_upload_readable(#[trigger] items[i]),
        None => true,
    }
}

/// The mouse movements a request uploads under `arguments.event_data_list`;
/// `None` where the list is not a list or a movement cannot be read.
pub fn mouse_uploads_of(doc: &JsonDoc) -> (found: Option<Vec<MouseEventUpload>>)
    ensures
        match found {
            Some(v) => mouse_uploads_listed(*doc, v@),
            None => mouse_uploads_unreadable(*doc),
        },
{
    let empty: Vec<JsonDoc> = Vec::new();
    let list = argument_doc(doc, "event_data_list");
    let items: &Vec<JsonDoc> = match list {
        None => &empty,
        Some(JsonDoc::Null) => &empty,
        Some(JsonDoc::Array(v)) => v,
        Some(_) => {
            return None;
        },
    };
    assert(list_items(argument(*doc, "event_data_list"@)) == Some(items@));
    let mut acc: Vec<MouseEventUpload> = Vec::new();
    let mut i: usize = 0;
    while i < items.len()
        invariant
            i <= items.len(),
            acc.len() == i,
            list_items(argument(*doc, "event_data_list"@)) == Some(items@),
            forall|j: int| 0 <= j < i ==> mouse_upload_of(#[trigger] items@[j], acc@[j]),
        decreases items.len() - i,
    {
        let item = &items[i];
        let id = member_text(item, "id");
        let time = member_text(item, "time");
        let original_position = member_text(item, "original_position");
        let new_position = member_text(item, "new_position");
        match (id, time, original_position, new_position) {
            (Some(id), Some(time), Some(original_position), Some(new_position)) => {
                acc.push(MouseEventUpload { id, time, original_position, new_position });
            },
            _ => {
                assert(mouse_uploads_unreadable(*doc)) by {
                    let its = list_items(argument(*doc, "event_data_list"@))->0;
                    assert(its == items@);
                    assert(!mouse_upload_readable(its[i as int]));
                }
                return None;
            },
        }
        i += 1;
    }
    Some(acc)
}

} // verus!

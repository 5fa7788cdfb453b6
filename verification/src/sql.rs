//! The SQL statements that the server sends to MySQL and the client to its
//! local SQLite store, each stated as the exact text it produces.
//!
//! Fields are spliced in as they are, except where a statement escapes a
//! quote: server statements write `'` as `\'` in user names, key names,
//! original positions and logged JSON; client statements write `'` as `''` in
//! key names.
use crate::records::{KeyEventUpload, MouseEventUpload};
use crate::text::{
    bool_string, bool_text, decimal, decimal_text, has_substring, lemma_signed_decimal_parses,
    parsed_i32, replace_char, replaced, signed_decimal, signed_decimal_text,
};
use vstd::prelude::*;
use vstd::string::*;

verus! {

/// `s` with each `'` written `\'`.
pub open spec fn backslash_escaped(s: Seq<char>) -> Seq<char> {
    replaced(s, '\'', seq!['\\', '\''])
}

/// `s` with each `'` written `''`.
pub open spec fn doubled_quotes(s: Seq<char>) -> Seq<char> {
    replaced(s, '\'', seq!['\'', '\''])
}

fn escape_backslash(s: &str) -> (r: String)
    ensures
        r@ == backslash_escaped(s@),
{
    let r = replace_char(s, '\'', "\\'");
    proof {
        reveal_strlit("\\'");
        assert("\\'"@ =~= seq!['\\', '\'']);
    }
    r
}

fn escape_doubled(s: &str) -> (r: String)
    ensures
        r@ == doubled_quotes(s@),
{
    let r = replace_char(s, '\'', "''");
    proof {
        reveal_strlit("''");
        assert("''"@ =~= seq!['\'', '\'']);
    }
    r
}

/// The MySQL connection URL for `user` and `password`.
pub open spec fn connection_url(user: Seq<char>, password: Seq<char>) -> Seq<char> {
    "mysql://"@ + user + ":"@ + password + "@localhost:3306/MonitorInputDevice"@
}

/// The MySQL connection URL for `user` and `password`.
pub fn db_connection_url(user: &str, password: &str) -> (url: String)
    ensures
        url@ == connection_url(user@, password@),
{
    let mut s = String::from_str("mysql://");
    s.append(user);
    s.append(":");
    s.append(password);
    s.append("@localhost:3306/MonitorInputDevice");
    s
}

/// The MySQL connection URL of the monitor's database account.
pub fn get_db_conn_string() -> (url: String)
    ensures
        url@ == connection_url("hy"@, "huo04ying11xia"@),
{
    db_connection_url("hy", "huo04ying11xia")
}

/// Looks a user up by name (the name is not escaped).
pub open spec fn user_by_name_text(user_name: Seq<char>) -> Seq<char> {
    "SELECT ID, UserName, Password FROM User WHERE UserName = '"@ + user_name + "';"@
}

/// Looks a user up by name (the name is not escaped).
pub fn user_by_name_query(user_name: &str) -> (sql: String)
    ensures
        sql@ == user_by_name_text(user_name@),
{
    let mut s = String::from_str("SELECT ID, UserName, Password FROM User WHERE UserName = '");
    s.append(user_name);
    s.append("';");
    s
}

/// Looks a user up by login token.
pub open spec fn user_by_token_text(token_id: Seq<char>) -> Seq<char> {
    "SELECT ID, UserName, Password, TokenID, TokenExpiryTime FROM User WHERE TokenID = '"@
        + token_id + "';"@
}

/// Looks a user up by login token.
pub fn user_by_token_query(token_id: &str) -> (sql: String)
    ensures
        sql@ == user_by_token_text(token_id@),
{
    let mut s = String::from_str(
        "SELECT ID, UserName, Password, TokenID, TokenExpiryTime FROM User WHERE TokenID = '",
    );
    s.append(token_id);
    s.append("';");
    s
}

/// Stores a new user; the name is escaped, the password is its digest.
pub open spec fn insert_user_text(id: Seq<char>, user_name: Seq<char>, password_hex: Seq<char>) -> Seq<char> {
    "INSERT INTO User (ID, UserName, Password) VALUES ('"@ + id + "', '"@ + backslash_escaped(
        user_name,
    ) + "', '"@ + password_hex + "');"@
}

/// Stores a new user; the name is escaped, the password is its digest.
pub fn insert_user_sql(id: &str, user_name: &str, password_hex: &str) -> (sql: String)
    ensures
        sql@ == insert_user_text(id@, user_name@, password_hex@),
{
    let mut s = String::from_str("INSERT INTO User (ID, UserName, Password) VALUES ('");
    s.append(id);
    s.append("', '");
    let name = escape_backslash(user_name);
    s.append(name.as_str());
    s.append("', '");
    s.append(password_hex);
    s.append("');");
    s
}

/// Records a new login token and its expiry for a user.
pub open spec fn start_session_text(token_id: Seq<char>, expiry: Seq<char>, user_id: Seq<char>) -> Seq<char> {
    "UPDATE User SET TokenID = '"@ + token_id + "', TokenExpiryTime = '"@ + expiry
        + "' WHERE ID = '"@ + user_id + "';"@
}

/// Records a new login token and its expiry for a user.
pub fn start_session_sql(token_id: &str, expiry: &str, user_id: &str) -> (sql: String)
    ensures
        sql@ == start_session_text(token_id@, expiry@, user_id@),
{
    let mut s = String::from_str("UPDATE User SET TokenID = '");
    s.append(token_id);
    s.append("', TokenExpiryTime = '");
    s.append(expiry);
    s.append("' WHERE ID = '");
    s.append(user_id);
    s.append("';");
    s
}

/// Moves a user's token expiry to `expiry`.
pub open spec fn extend_session_text(expiry: Seq<char>, user_id: Seq<char>) -> Seq<char> {
    "UPDATE User SET TokenExpiryTime = '"@ + expiry + "' WHERE ID = '"@ + user_id + "';"@
}

/// Moves a user's token expiry to `expiry`.
pub fn extend_session_sql(expiry: &str, user_id: &str) -> (sql: String)
    ensures
        sql@ == extend_session_text(expiry@, user_id@),
{
    let mut s = String::from_str("UPDATE User SET TokenExpiryTime = '");
    s.append(expiry);
    s.append("' WHERE ID = '");
    s.append(user_id);
    s.append("';");
    s
}

/// Replaces a user's stored password digest.
pub open spec fn change_password_text(password_hex: Seq<char>, user_id: Seq<char>) -> Seq<char> {
    "UPDATE User SET Password = '"@ + password_hex + "' WHERE ID = '"@ + user_id + "';"@
}

/// Replaces a user's stored password digest.
pub fn change_password_sql(password_hex: &str, user_id: &str) -> (sql: String)
    ensures
        sql@ == change_password_text(password_hex@, user_id@),
{
    let mut s = String::from_str("UPDATE User SET Password = '");
    s.append(password_hex);
    s.append("' WHERE ID = '");
    s.append(user_id);
    s.append("';");
    s
}

/// Clears a user's login token and expiry.
pub open spec fn end_session_text(user_id: Seq<char>) -> Seq<char> {
    "UPDATE User SET TokenID = '', TokenExpiryTime = '' WHERE ID = '"@ + user_id + "';"@
}

/// Clears a user's login token and expiry.
pub fn end_session_sql(user_id: &str) -> (sql: String)
    ensures
        sql@ == end_session_text(user_id@),
{
    let mut s = String::from_str("UPDATE User SET TokenID = '', TokenExpiryTime = '' WHERE ID = '");
    s.append(user_id);
    s.append("';");
    s
}

/// One `INSERT` for one uploaded key event; the key name is escaped.
pub open spec fn key_event_insert_text(user_id: Seq<char>, e: KeyEventUpload) -> Seq<char> {
    "INSERT INTO KeyPressingEvent (ID, UserID, Time, KeyName, Status) VALUES ('"@ + e.id@
        + "', '"@ + user_id + "', '"@ + e.time@ + "', '"@ + backslash_escaped(e.key_name@) + "', "@
        + signed_decimal(e.status as int) + ");"@
}

/// The `INSERT` statements of a batch of key events, one after another.
pub open spec fn key_events_insert_text(user_id: Seq<char>, events: Seq<KeyEventUpload>) -> Seq<char>
    decreases events.len(),
{
    if events.len() == 0 {
        Seq::empty()
    } else {
        key_events_insert_text(user_id, events.drop_last()) + key_event_insert_text(
            user_id,
            events.last(),
        )
    }
}

/// The `INSERT` statements of a batch of key events, one after another.
pub fn key_events_insert_sql(user_id: &str, events: &Vec<KeyEventUpload>) -> (sql: String)
    ensures
        sql@ == key_events_insert_text(user_id@, events@),
{
    let mut s = String::new();
    let mut i: usize = 0;
    while i < events.len()
        invariant
            i <= events.len(),
            s@ == key_events_insert_text(user_id@, events@.subrange(0, i as int)),
        decreases events.len() - i,
    {
        assert(events@.subrange(0, i + 1).drop_last() =~= events@.subrange(0, i as int));
        let e = &events[i];
        s.append("INSERT INTO KeyPressingEvent (ID, UserID, Time, KeyName, Status) VALUES ('");
        s.append(e.id.as_str());
        s.append("', '");
        s.append(user_id);
        s.append("', '");
        s.append(e.time.as_str());
        s.append("', '");
        let name = escape_backslash(e.key_name.as_str());
        s.append(name.as_str());
        s.append("', ");
        let status = signed_decimal_text(e.status as i64);
        s.append(status.as_str());
        s.append(");");
        i += 1;
    }
    assert(events@.subrange(0, events.len() as int) =~= events@);
    s
}

/// The values tuple of a later mouse event; the original position is escaped.
pub open spec fn mouse_values_text(user_id: Seq<char>, e: MouseEventUpload) -> Seq<char> {
    " ,('"@ + e.id@ + "', '"@ + user_id + "', '"@ + e.time@ + "', '"@ + backslash_escaped(
        e.original_position@,
    ) + "', '"@ + e.new_position@ + "')"@
}

/// The values tuples of the events from index `i` on, skipping an event whose
/// id equals that of the last tuple written after the first event.
pub open spec fn mouse_values_from(
    user_id: Seq<char>,
    events: Seq<MouseEventUpload>,
    i: int,
    prev_id: Option<Seq<char>>,
) -> Seq<char>
    decreases events.len() - i,
{
    if i < 0 || i >= events.len() {
        Seq::empty()
    } else if prev_id == Some(events[i].id@) {
        mouse_values_from(user_id, events, i + 1, prev_id)
    } else {
        mouse_values_text(user_id, events[i]) + mouse_values_from(
            user_id,
            events,
            i + 1,
            Some(events[i].id@),
        )
    }
}

/// One multi-row `INSERT` for a batch of mouse movements.  The first event is
/// written as it is; each later event is skipped when its id repeats the id of
/// the previous later event written.
pub open spec fn mouse_events_insert_text(user_id: Seq<char>, events: Seq<MouseEventUpload>) -> Seq<char> {
    let first = events[0];
    "INSERT INTO MouseMovingEvent (ID, UserID, Time, OriginalPosition, NewPosition) VALUES ('"@
        + first.id@ + "', '"@ + user_id + "', '"@ + first.time@ + "', '"@
        + first.original_position@ + "', '"@ + first.new_position@ + "')"@ + mouse_values_from(
        user_id,
        events,
        1,
        None,
    ) + ";"@
}

proof fn lemma_key_prefix(user_id: Seq<char>, events: Seq<KeyEventUpload>, k: int)
    requires
        0 <= k <= events.len(),
    ensures
        key_events_insert_text(user_id, events.take(k)).is_prefix_of(
            key_events_insert_text(user_id, events),
        ),
    decreases events.len() - k,
{
    if k < events.len() {
        lemma_key_prefix(user_id, events, k + 1);
        let t = events.take(k + 1);
        assert(t.drop_last() =~= events.take(k));
        let a = key_events_insert_text(user_id, events.take(k));
        let b = key_events_insert_text(user_id, t);
        assert(b == a + key_event_insert_text(user_id, t.last()));
        assert(a.is_prefix_of(b));
    } else {
        assert(events.take(k) =~= events);
    }
}

/// Each key event of an uploaded batch gets its own statement, in batch
/// order: the statement for event `k` ends with `VALUES ('id', 'user',
/// 'time', 'name', s);` holding that event's own id, time and escaped key
/// name, and `s` is its status as a decimal that reads back as that status.
pub proof fn lemma_key_insert_keeps_status(user_id: Seq<char>, events: Seq<KeyEventUpload>, k: int)
    requires
        0 <= k < events.len(),
    ensures
        ({
            let stmt = key_events_insert_text(user_id, events.take(k + 1));
            let e = events[k];
            let tail = "', "@ + signed_decimal(e.status as int) + ");"@;
            let row = "VALUES ('"@ + e.id@ + "', '"@ + user_id + "', '"@ + e.time@ + "', '"@
                + backslash_escaped(e.key_name@) + tail;
            &&& row.is_suffix_of(stmt)
            &&& key_events_insert_text(user_id, events.take(k)).is_prefix_of(stmt)
            &&& stmt.is_prefix_of(key_events_insert_text(user_id, events))
            &&& tail.is_suffix_of(stmt)
            &&& parsed_i32(signed_decimal(events[k].status as int)) == Some(events[k].status as i32)
        }),
{
    lemma_key_prefix(user_id, events, k + 1);
    let t = events.take(k + 1);
    assert(t.drop_last() =~= events.take(k));
    assert(t.last() == events[k]);
    let a = key_events_insert_text(user_id, events.take(k));
    let e = events[k];
    let stmt = key_events_insert_text(user_id, t);
    let body = "INSERT INTO KeyPressingEvent (ID, UserID, Time, KeyName, Status) VALUES ('"@ + e.id@
        + "', '"@ + user_id + "', '"@ + e.time@ + "', '"@ + backslash_escaped(e.key_name@);
    let tail = "', "@ + signed_decimal(e.status as int) + ");"@;
    reveal_strlit("INSERT INTO KeyPressingEvent (ID, UserID, Time, KeyName, Status) VALUES ('");
    reveal_strlit("INSERT INTO KeyPressingEvent (ID, UserID, Time, KeyName, Status) ");
    reveal_strlit("VALUES ('");
    let head = "INSERT INTO KeyPressingEvent (ID, UserID, Time, KeyName, Status) "@;
    let row = "VALUES ('"@ + e.id@ + "', '"@ + user_id + "', '"@ + e.time@ + "', '"@
        + backslash_escaped(e.key_name@) + tail;
    assert(key_event_insert_text(user_id, e) =~= body + tail);
    assert(body + tail =~= head + row);
    assert(stmt =~= (a + body) + tail);
    assert(stmt =~= (a + head) + row);
    assert(tail.is_suffix_of(stmt));
    assert(row.is_suffix_of(stmt));
    assert(a.is_prefix_of(stmt));
    lemma_signed_decimal_parses(e.status as int);
}

proof fn lemma_substring_at(hay: Seq<char>, needle: Seq<char>, i: int)
    requires
        0 <= i <= hay.len() - needle.len(),
        hay.subrange(i, i + needle.len()) =~= needle,
    ensures
        has_substring(hay, needle),
{
    assert(hay.subrange(i, i + needle.len()) == needle);
}

/// A piece of a text is a piece of any text around it.
proof fn lemma_substring_within(before: Seq<char>, hay: Seq<char>, after: Seq<char>, needle: Seq<char>)
    requires
        has_substring(hay, needle),
    ensures
        has_substring(before + hay + after, needle),
{
    let i = choose|i: int| 0 <= i <= hay.len() - needle.len() && #[trigger] hay.subrange(i, i + needle.len()) == needle;
    let whole = before + hay + after;
    let j = before.len() + i;
    assert(whole.subrange(j, j + needle.len()) =~= hay.subrange(i, i + needle.len()));
}

/// The tuple a mouse movement after the first is written as.
pub open spec fn later_mouse_tuple(user_id: Seq<char>, e: MouseEventUpload) -> Seq<char> {
    " ,('"@ + e.id@ + "', '"@ + user_id + "', '"@ + e.time@ + "', '"@ + backslash_escaped(
        e.original_position@,
    ) + "', '"@ + e.new_position@ + "')"@
}

/// Whether the batch writes the later movement `k`: the second movement
/// always, each later one unless its id repeats the one just before it.
pub open spec fn later_move_written(events: Seq<MouseEventUpload>, k: int) -> bool {
    1 <= k < events.len() && (k == 1 || events[k].id@ != events[k - 1].id@)
}

/// The id the tuples from `i` on are compared with.
pub open spec fn id_before(events: Seq<MouseEventUpload>, i: int) -> Option<Seq<char>> {
    if i <= 1 {
        None
    } else {
        Some(events[i - 1].id@)
    }
}

proof fn lemma_mouse_tuples_from(user_id: Seq<char>, events: Seq<MouseEventUpload>, i: int, k: int)
    requires
        1 <= i <= k,
        later_move_written(events, k),
    ensures
        has_substring(
            mouse_values_from(user_id, events, i, id_before(events, i)),
            later_mouse_tuple(user_id, events[k]),
        ),
    decreases k - i,
{
    let rest = mouse_values_from(user_id, events, i + 1, Some(events[i].id@));
    assert(id_before(events, i + 1) == Some(events[i].id@));
    let whole = mouse_values_from(user_id, events, i, id_before(events, i));
    let needle = later_mouse_tuple(user_id, events[k]);
    if i == k {
        assert(mouse_values_text(user_id, events[k]) == needle);
        assert(id_before(events, i) != Some(events[i].id@));
        assert(whole == needle + rest);
        lemma_substring_at(whole, needle, 0);
    } else {
        lemma_mouse_tuples_from(user_id, events, i + 1, k);
        if id_before(events, i) == Some(events[i].id@) {
            assert(whole == rest);
        } else {
            let text = mouse_values_text(user_id, events[i]);
            assert(whole == text + rest);
            lemma_substring_within(text, rest, Seq::empty(), needle);
            assert(text + rest + Seq::<char>::empty() =~= text + rest);
        }
    }
}

/// Every movement a mouse batch writes carries its own id, time and
/// positions: the first as `VALUES ('id', 'user', 'time', 'orig', 'new')`,
/// each later one that is written (the second always, any other unless its
/// id repeats the one just before it) as ` ,('id', 'user', 'time', 'orig',
/// 'new')` with the original position escaped.
pub proof fn lemma_mouse_insert_keeps_each_event(user_id: Seq<char>, events: Seq<MouseEventUpload>, k: int)
    requires
        0 <= k < events.len(),
        k == 0 || later_move_written(events, k),
    ensures
        k == 0 ==> has_substring(
            mouse_events_insert_text(user_id, events),
            "VALUES ('"@ + events[0].id@ + "', '"@ + user_id + "', '"@ + events[0].time@ + "', '"@
                + events[0].original_position@ + "', '"@ + events[0].new_position@ + "')"@,
        ),
        k > 0 ==> has_substring(
            mouse_events_insert_text(user_id, events),
            " ,('"@ + events[k].id@ + "', '"@ + user_id + "', '"@ + events[k].time@ + "', '"@
                + backslash_escaped(events[k].original_position@) + "', '"@
                + events[k].new_position@ + "')"@,
        ),
{
    reveal_strlit("INSERT INTO MouseMovingEvent (ID, UserID, Time, OriginalPosition, NewPosition) VALUES ('");
    reveal_strlit("INSERT INTO MouseMovingEvent (ID, UserID, Time, OriginalPosition, NewPosition) ");
    reveal_strlit("VALUES ('");
    let first = events[0];
    let head = "INSERT INTO MouseMovingEvent (ID, UserID, Time, OriginalPosition, NewPosition) "@;
    let values = "VALUES ('"@ + first.id@ + "', '"@ + user_id + "', '"@ + first.time@ + "', '"@
        + first.original_position@ + "', '"@ + first.new_position@ + "')"@;
    let later = mouse_values_from(user_id, events, 1, None);
    let whole = mouse_events_insert_text(user_id, events);
    assert(whole =~= head + values + (later + ";"@));
    if k == 0 {
        lemma_substring_at(values, values, 0);
        lemma_substring_within(head, values, later + ";"@, values);
    } else {
        lemma_mouse_tuples_from(user_id, events, 1, k);
        assert(id_before(events, 1) == None::<Seq<char>>);
        lemma_substring_within(head + values, later, ";"@, later_mouse_tuple(user_id, events[k]));
        assert(head + values + later + ";"@ =~= head + values + (later + ";"@));
    }
}

/// The text of an optional string.
pub open spec fn text_option(s: Option<String>) -> Option<Seq<char>> {
    match s {
        Some(t) => Some(t@),
        None => None,
    }
}

/// One multi-row `INSERT` for a non-empty batch of mouse movements.
pub fn mouse_events_insert_sql(user_id: &str, events: &Vec<MouseEventUpload>) -> (sql: String)
    requires
        events.len() > 0,
    ensures
        sql@ == mouse_events_insert_text(user_id@, events@),
{
    let first = &events[0];
    let mut s = String::from_str(
        "INSERT INTO MouseMovingEvent (ID, UserID, Time, OriginalPosition, NewPosition) VALUES ('",
    );
    s.append(first.id.as_str());
    s.append("', '");
    s.append(user_id);
    s.append("', '");
    s.append(first.time.as_str());
    s.append("', '");
    s.append(first.original_position.as_str());
    s.append("', '");
    s.append(first.new_position.as_str());
    s.append("')");
    let ghost head = s@;
    let mut prev_id: Option<String> = None;
    let mut i: usize = 1;
    while i < events.len()
        invariant
            1 <= i <= events.len(),
            s@ + mouse_values_from(user_id@, events@, i as int, text_option(prev_id)) == head + mouse_values_from(user_id@, events@, 1, None),
        decreases events.len() - i,
    {
        let e = &events[i];
        let ghost pv = text_option(prev_id);
        let repeated = match &prev_id {
            Some(p) => crate::text::same_text(p.as_str(), e.id.as_str()),
            None => false,
        };
        if repeated {
            assert(pv == Some(events@[i as int].id@));
        } else {
            assert(pv != Some(events@[i as int].id@));
            let ghost before = s@;
            s.append(" ,('");
            s.append(e.id.as_str());
            s.append("', '");
            s.append(user_id);
            s.append("', '");
            s.append(e.time.as_str());
            s.append("', '");
            let orig = escape_backslash(e.original_position.as_str());
            s.append(orig.as_str());
            s.append("', '");
            s.append(e.new_position.as_str());
            s.append("')");
            assert(s@ == before + mouse_values_text(user_id@, events@[i as int]));
            prev_id = Some(e.id.clone());
            assert(before + mouse_values_from(user_id@, events@, i as int, pv) == s@
                + mouse_values_from(user_id@, events@, i + 1, Some(events@[i as int].id@)));
        }
        i += 1;
    }
    s.append(";");
    s
}

/// A query over an event table, limited to `[start, end]` where those bounds
/// are not empty, in time order.
pub open spec fn time_window_text(base: Seq<char>, start: Seq<char>, end: Seq<char>) -> Seq<char> {
    let where_clause = if start.len() != 0 || end.len() != 0 {
        " WHERE "@ + (if start.len() != 0 {
            "Time >= '"@ + start + "'"@
        } else {
            Seq::empty()
        }) + (if start.len() != 0 && end.len() != 0 {
            " AND "@
        } else {
            Seq::empty()
        }) + (if end.len() != 0 {
            "Time <= '"@ + end + "'"@
        } else {
            Seq::empty()
        })
    } else {
        Seq::empty()
    };
    base + where_clause + " ORDER BY Time;"@
}

fn time_window_query(base: &str, start: &str, end: &str) -> (sql: String)
    ensures
        sql@ == time_window_text(base@, start@, end@),
{
    let mut s = String::from_str(base);
    let has_start = !start.is_empty();
    let has_end = !end.is_empty();
    if has_start || has_end {
        let ghost before = s@;
        s.append(" WHERE ");
        if has_start {
            s.append("Time >= '");
            s.append(start);
            s.append("'");
        }
        if has_start && has_end {
            s.append(" AND ");
        }
        if has_end {
            s.append("Time <= '");
            s.append(end);
            s.append("'");
        }
        assert(s@ =~= before + (" WHERE "@ + (if start@.len() != 0 {
            "Time >= '"@ + start@ + "'"@
        } else {
            Seq::empty()
        }) + (if start@.len() != 0 && end@.len() != 0 {
            " AND "@
        } else {
            Seq::empty()
        }) + (if end@.len() != 0 {
            "Time <= '"@ + end@ + "'"@
        } else {
            Seq::empty()
        })));
    }
    s.append(" ORDER BY Time;");
    s
}

/// The stored key events within the given time bounds.
pub open spec fn key_events_query_text(start: Seq<char>, end: Seq<char>) -> Seq<char> {
    time_window_text("SELECT ID, UserID, Time, KeyName, Status FROM KeyPressingEvent"@, start, end)
}

/// The stored key events within the given time bounds.
pub fn key_events_query(start: &str, end: &str) -> (sql: String)
    ensures
        sql@ == key_events_query_text(start@, end@),
{
    time_window_query("SELECT ID, UserID, Time, KeyName, Status FROM KeyPressingEvent", start, end)
}

/// The stored mouse movements within the given time bounds.
pub open spec fn mouse_events_query_text(start: Seq<char>, end: Seq<char>) -> Seq<char> {
    time_window_text(
        "SELECT ID, UserID, Time, OriginalPosition, NewPosition FROM MouseMovingEvent"@,
        start,
        end,
    )
}

/// The stored mouse movements within the given time bounds.
pub fn mouse_events_query(start: &str, end: &str) -> (sql: String)
    ensures
        sql@ == mouse_events_query_text(start@, end@),
{
    time_window_query(
        "SELECT ID, UserID, Time, OriginalPosition, NewPosition FROM MouseMovingEvent",
        start,
        end,
    )
}

/// Logs an incoming request; the request text is escaped.
pub open spec fn request_log_text(time: Seq<char>, ip: Seq<char>, port: u16, request: Seq<char>) -> Seq<char> {
    "INSERT INTO Log (Time, IP, Port, Request) VALUES ('"@ + time + "', '"@ + ip + "', '"@
        + decimal(port as nat) + "', '"@ + backslash_escaped(request) + "');"@
}

/// Logs an incoming request; the request text is escaped.
pub fn request_log_sql(time: &str, ip: &str, port: u16, request: &str) -> (sql: String)
    ensures
        sql@ == request_log_text(time@, ip@, port, request@),
{
    let mut s = String::from_str("INSERT INTO Log (Time, IP, Port, Request) VALUES ('");
    s.append(time);
    s.append("', '");
    s.append(ip);
    s.append("', '");
    let p = decimal_text(port as u64);
    s.append(p.as_str());
    s.append("', '");
    let r = escape_backslash(request);
    s.append(r.as_str());
    s.append("');");
    s
}

/// Adds the response to the log entry of the request received at
/// `request_time`; the response text is escaped.
pub open spec fn response_log_text(response: Seq<char>, response_time: Seq<char>, request_time: Seq<char>) -> Seq<char> {
    "UPDATE Log SET Response = '"@ + backslash_escaped(response) + "', ResponseTime = '"@
        + response_time + "' WHERE Time = '"@ + request_time + "';"@
}

/// Adds the response to the log entry of the request received at
/// `request_time`; the response text is escaped.
pub fn response_log_sql(response: &str, response_time: &str, request_time: &str) -> (sql: String)
    ensures
        sql@ == response_log_text(response@, response_time@, request_time@),
{
    let mut s = String::from_str("UPDATE Log SET Response = '");
    let r = escape_backslash(response);
    s.append(r.as_str());
    s.append("', ResponseTime = '");
    s.append(response_time);
    s.append("' WHERE Time = '");
    s.append(request_time);
    s.append("';");
    s
}

/// Stores a key event in the client's local store; the key name is escaped by
/// doubling quotes.
pub open spec fn local_key_event_text(
    id: Seq<char>,
    user_id: Seq<char>,
    time: Seq<char>,
    key_name: Seq<char>,
    pressed: bool,
    synchronized: bool,
) -> Seq<char> {
    "INSERT INTO KeyPressingEvent VALUES ('"@ + id + "', '"@ + user_id + "', '"@ + time + "', '"@
        + doubled_quotes(key_name) + "', "@ + bool_text(pressed) + ", "@ + bool_text(synchronized)
        + ");"@
}

/// Stores a key event in the client's local store.
pub fn local_key_event_sql(
    id: &str,
    user_id: &str,
    time: &str,
    key_name: &str,
    pressed: bool,
    synchronized: bool,
) -> (sql: String)
    ensures
        sql@ == local_key_event_text(id@, user_id@, time@, key_name@, pressed, synchronized),
{
    let mut s = String::from_str("INSERT INTO KeyPressingEvent VALUES ('");
    s.append(id);
    s.append("', '");
    s.append(user_id);
    s.append("', '");
    s.append(time);
    s.append("', '");
    let k = escape_doubled(key_name);
    s.append(k.as_str());
    s.append("', ");
    let p = bool_string(pressed);
    s.append(p.as_str());
    s.append(", ");
    let y = bool_string(synchronized);
    s.append(y.as_str());
    s.append(");");
    s
}

/// Stores a mouse movement in the client's local store.
pub open spec fn local_mouse_event_text(
    id: Seq<char>,
    user_id: Seq<char>,
    time: Seq<char>,
    original_position: Seq<char>,
    new_position: Seq<char>,
    synchronized: bool,
) -> Seq<char> {
    "INSERT INTO MouseMovingEvent VALUES ('"@ + id + "', '"@ + user_id + "', '"@ + time + "', '"@
        + original_position + "', '"@ + new_position + "', "@ + bool_text(synchronized) + ");"@
}

/// Stores a mouse movement in the client's local store.
pub fn local_mouse_event_sql(
    id: &str,
    user_id: &str,
    time: &str,
    original_position: &str,
    new_position: &str,
    synchronized: bool,
) -> (sql: String)
    ensures
        sql@ == local_mouse_event_text(
            id@,
            user_id@,
            time@,
            original_position@,
            new_position@,
            synchronized,
        ),
{
    let mut s = String::from_str("INSERT INTO MouseMovingEvent VALUES ('");
    s.append(id);
    s.append("', '");
    s.append(user_id);
    s.append("', '");
    s.append(time);
    s.append("', '");
    s.append(original_position);
    s.append("', '");
    s.append(new_position);
    s.append("', ");
    let y = bool_string(synchronized);
    s.append(y.as_str());
    s.append(");");
    s
}

/// Marks the locally stored key events of `[start, end]` as uploaded.
pub open spec fn key_events_synchronized_text(start: Seq<char>, end: Seq<char>) -> Seq<char> {
    "UPDATE KeyPressingEvent SET IsSynchro = '1' WHERE Time >= '"@ + start + "' AND Time <= '"@
        + end + "';"@
}

/// Marks the locally stored key events of `[start, end]` as uploaded.
pub fn key_events_synchronized_sql(start: &str, end: &str) -> (sql: String)
    ensures
        sql@ == key_events_synchronized_text(start@, end@),
{
    let mut s = String::from_str("UPDATE KeyPressingEvent SET IsSynchro = '1' WHERE Time >= '");
    s.append(start);
    s.append("' AND Time <= '");
    s.append(end);
    s.append("';");
    s
}

/// Marks the locally stored mouse movements of `[start, end]` as uploaded.
pub open spec fn mouse_events_synchronized_text(start: Seq<char>, end: Seq<char>) -> Seq<char> {
    "UPDATE MouseMovingEvent SET IsSynchro = '1' WHERE Time >= '"@ + start + "' AND Time <= '"@
        + end + "';"@
}

/// Marks the locally stored mouse movements of `[start, end]` as uploaded.
pub fn mouse_events_synchronized_sql(start: &str, end: &str) -> (sql: String)
    ensures
        sql@ == mouse_events_synchronized_text(start@, end@),
{
    let mut s = String::from_str("UPDATE MouseMovingEvent SET IsSynchro = '1' WHERE Time >= '");
    s.append(start);
    s.append("' AND Time <= '");
    s.append(end);
    s.append("';");
    s
}

/// Stores a newly registered user in the client's local store (nothing is
/// escaped, the password is kept as typed).
pub open spec fn local_user_text(id: Seq<char>, user_name: Seq<char>, password: Seq<char>) -> Seq<char> {
    "INSERT INTO User (ID, UserName, Password) VALUES ('"@ + id + "', '"@ + user_name + "', '"@
        + password + "');"@
}

/// Stores a newly registered user in the client's local store.
pub fn local_user_sql(id: &str, user_name: &str, password: &str) -> (sql: String)
    ensures
        sql@ == local_user_text(id@, user_name@, password@),
{
    let mut s = String::from_str("INSERT INTO User (ID, UserName, Password) VALUES ('");
    s.append(id);
    s.append("', '");
    s.append(user_name);
    s.append("', '");
    s.append(password);
    s.append("');");
    s
}

} // verus!

//! Protocol messages as JSON documents: reading a sealed request or reply
//! from the bytes received, and framing a document for the wire with its
//! self-counting `length` member.
use crate::cipher::{can_open, lemma_open_sealed, opened_bytes, sealed_bytes};
use crate::length_field::{
    accurate_len, digit_count, framed_length, lemma_length_field_counts_itself, pow10,
};
use crate::protocol::{open_message, seal_message, shared_key};
use crate::text::same_text;
use vstd::prelude::*;
use vstd::slice::slice_to_vec;
use vstd::string::*;
use vstd::utf8::{decode_utf8, encode_utf8, valid_utf8};

verus! {

/// A JSON document as the `json` crate holds it: numbers are kept as a sign,
/// a decimal mantissa and a decimal exponent; object members keep their
/// order.
#[derive(Debug, PartialEq, Eq)]
pub enum JsonDoc {
    Null,
    Bool(bool),
    Number { negative: bool, mantissa: u64, exponent: i16 },
    Text(String),
    Array(Vec<JsonDoc>),
    Object(Vec<(String, JsonDoc)>),
}

#[verifier::external_type_specification]
#[verifier::external_body]
pub struct ExJsonValue(json::JsonValue);

/// The document `json::parse` reads from a text, if it reads one.
pub uninterp spec fn json_parsed(text: Seq<char>) -> Option<JsonDoc>;

/// The text `JsonValue::dump` writes for a document.
pub uninterp spec fn json_dumped(doc: JsonDoc) -> Seq<char>;

/// Converts a `json::JsonValue` into the library's form, one node for one.
#[verifier::external_body]
fn doc_of(value: &json::JsonValue) -> JsonDoc {
    match value {
        json::JsonValue::Null => JsonDoc::Null,
        json::JsonValue::Boolean(b) => JsonDoc::Bool(*b),
        json::JsonValue::Number(n) => {
            let (positive, mantissa, exponent) = n.as_parts();
            JsonDoc::Number { negative: !positive, mantissa, exponent }
        },
        json::JsonValue::Short(s) => JsonDoc::Text(s.as_str().to_string()),
        json::JsonValue::String(s) => JsonDoc::Text(s.clone()),
        json::JsonValue::Array(items) => JsonDoc::Array(items.iter().map(doc_of).collect()),
        json::JsonValue::Object(o) => JsonDoc::Object(o.iter().map(|(k, v)| (k.to_string(), doc_of(v))).collect()),
    }
}

/// Converts the library's form into a `json::JsonValue`, node by node;
/// `Number::from_parts` drops the trailing zeros of a fraction and
/// `Object::insert` keeps one member of each name, the last value given.
#[verifier::external_body]
fn value_of(doc: &JsonDoc) -> json::JsonValue {
    match doc {
        JsonDoc::Null => json::JsonValue::Null,
        JsonDoc::Bool(b) => json::JsonValue::Boolean(*b),
        JsonDoc::Number { negative, mantissa, exponent } => json::JsonValue::Number(
            json::number::Number::from_parts(!*negative, *mantissa, *exponent),
        ),
        JsonDoc::Text(s) => json::JsonValue::String(s.clone()),
        JsonDoc::Array(items) => json::JsonValue::Array(items.iter().map(value_of).collect()),
        JsonDoc::Object(members) => {
            let mut o = json::object::Object::new();
            members.iter().for_each(|(k, v)| o.insert(k, value_of(v)));
            json::JsonValue::Object(o)
        },
    }
}

/// `json::parse`: the crate's JSON parser.  Trusted to return, converted one
/// node for one, the document named `json_parsed` of exactly this text, or
/// `None` where the crate reports an error.
#[verifier::external_body]
fn parse_json(text: &str) -> (doc: Option<JsonDoc>)
    ensures
        doc == json_parsed(text@),
{
    json::parse(text).ok().map(|v| doc_of(&v))
}

/// Whether `d` is a whole non-negative number as the writer sees it: not
/// negative, exponent zero.
pub open spec fn whole_number(d: JsonDoc) -> bool {
    d matches JsonDoc::Number { negative, exponent, .. } && !negative && exponent == 0
}

/// How many characters the writer prints for a whole non-negative number:
/// its decimal digits, or `0` alone.
pub open spec fn printed_width(d: JsonDoc) -> nat {
    match d {
        JsonDoc::Number { mantissa, .. } => if mantissa == 0 {
            1
        } else {
            digit_count(mantissa as nat)
        },
        _ => 0,
    }
}

/// Whether `key` names the member at `i` of `members` and no other.
pub open spec fn only_key_at(members: Seq<(String, JsonDoc)>, key: Seq<char>, i: int) -> bool {
    &&& 0 <= i < members.len()
    &&& members[i].0@ == key
    &&& forall|j: int| 0 <= j < members.len() && j != i ==> (#[trigger] members[j]).0@ != key
}

/// The old and new value where `other` is the object `doc` with the whole
/// number held by its only member named `key` replaced by another whole
/// number, all else equal.
pub open spec fn number_replacement(doc: JsonDoc, key: Seq<char>, other: Seq<(String, JsonDoc)>) -> Option<
    (JsonDoc, JsonDoc),
> {
    match doc {
        JsonDoc::Object(m) => match key_index_from(m@, key, 0) {
            Some(i) => if only_key_at(m@, key, i) && whole_number(m@[i].1) && other.len()
                == m@.len() && other[i].0 == m@[i].0 && whole_number(other[i].1) && (forall|j: int|
                0 <= j < m@.len() && j != i ==> #[trigger] other[j] == m@[j]) {
                Some((m@[i].1, other[i].1))
            } else {
                None
            },
            None => None,
        },
        _ => None,
    }
}

/// `JsonValue::dump`: the crate's compact JSON writer.  Trusted to return the
/// text named `json_dumped` of exactly this document, and, from the writer
/// (`codegen.rs`, `print_dec::write`), that a whole non-negative number is
/// printed as its decimal digits: where the number held by an object's only
/// member of some name is replaced by another, the text changes only in those
/// digits, so its UTF-8 length changes by the difference of their widths.
#[verifier::external_body]
fn dump_json(doc: &JsonDoc) -> (text: String)
    ensures
        text@ == json_dumped(*doc),
        forall|key: Seq<char>, other: Vec<(String, JsonDoc)>|
            #[trigger] number_replacement(*doc, key, other@) matches Some((a, b)) ==> {
                &&& encode_utf8(text@).len() >= printed_width(a)
                &&& encode_utf8(json_dumped(JsonDoc::Object(other))).len() + printed_width(a)
                    == encode_utf8(text@).len() + printed_width(b)
            },
{
    value_of(doc).dump()
}

/// std `String::from_utf8`: the text the bytes encode, where they are UTF-8.
#[verifier::external_body]
fn text_of_utf8(bytes: Vec<u8>) -> (text: Option<String>)
    ensures
        match text {
            Some(t) => valid_utf8(bytes@) && t@ == decode_utf8(bytes@),
            None => !valid_utf8(bytes@),
        },
{
    String::from_utf8(bytes).ok()
}

/// A document's compact JSON text.
pub fn document_text(doc: &JsonDoc) -> (text: String)
    ensures
        text@ == json_dumped(*doc),
{
    dump_json(doc)
}

/// How the event view lists a mouse movement: the time and the two positions
/// as their JSON texts, `[time] Mouse move original => new`.
pub open spec fn mouse_move_line_text(time: JsonDoc, original: JsonDoc, new: JsonDoc) -> Seq<char> {
    "["@ + json_dumped(time) + "] Mouse move "@ + json_dumped(original) + " => "@ + json_dumped(new)
}

/// How the event view lists a mouse movement.
pub fn mouse_move_line(time: &JsonDoc, original: &JsonDoc, new: &JsonDoc) -> (line: String)
    ensures
        line@ == mouse_move_line_text(*time, *original, *new),
{
    let mut s = String::from_str("[");
    let a = dump_json(time);
    s.append(a.as_str());
    s.append("] Mouse move ");
    let b = dump_json(original);
    s.append(b.as_str());
    s.append(" => ");
    let c = dump_json(new);
    s.append(c.as_str());
    s
}

/// The text of a JSON string, as `JsonValue::as_str` gives it.
pub open spec fn text_of(doc: JsonDoc) -> Option<Seq<char>> {
    match doc {
        JsonDoc::Text(s) => Some(s@),
        _ => None,
    }
}

/// A JSON boolean, as `JsonValue::as_bool` gives it.
pub open spec fn bool_of(doc: JsonDoc) -> Option<bool> {
    match doc {
        JsonDoc::Bool(b) => Some(b),
        _ => None,
    }
}

/// A JSON number as a `u8`, as `JsonValue::as_u8` gives it: a non-negative
/// whole number with exponent zero that fits.
pub open spec fn u8_of(doc: JsonDoc) -> Option<u8> {
    match doc {
        JsonDoc::Number { negative, mantissa, exponent } => if !negative && exponent == 0
            && mantissa <= 255 {
            Some(mantissa as u8)
        } else {
            None
        },
        _ => None,
    }
}

/// A JSON number as an `i8`, as `JsonValue::as_i8` gives it: a number with
/// exponent zero whose mantissa, cast to `i64` and given the sign, fits.
pub open spec fn i8_of(doc: JsonDoc) -> Option<i8> {
    match doc {
        JsonDoc::Number { negative, mantissa, exponent } => {
            let w = mantissa as i64;
            let v = if negative {
                -(w as int)
            } else {
                w as int
            };
            if exponent == 0 && -128 <= v <= 127 {
                Some(v as i8)
            } else {
                None
            }
        },
        _ => None,
    }
}

impl JsonDoc {
    /// The text of a JSON string.
    pub fn as_text(&self) -> (t: Option<&String>)
        ensures
            match t {
                Some(s) => text_of(*self) == Some(s@),
                None => text_of(*self) is None,
            },
    {
        match self {
            JsonDoc::Text(s) => Some(s),
            _ => None,
        }
    }

    /// A JSON boolean.
    pub fn as_bool(&self) -> (b: Option<bool>)
        ensures
            b == bool_of(*self),
    {
        match self {
            JsonDoc::Bool(b) => Some(*b),
            _ => None,
        }
    }

    /// A JSON number as a `u8`.
    pub fn as_u8(&self) -> (v: Option<u8>)
        ensures
            v == u8_of(*self),
    {
        match self {
            JsonDoc::Number { negative, mantissa, exponent } => if !*negative && *exponent == 0
                && *mantissa <= 255 {
                Some(*mantissa as u8)
            } else {
                None
            },
            _ => None,
        }
    }

    /// A JSON number as an `i8`.
    pub fn as_i8(&self) -> (v: Option<i8>)
        ensures
            v == i8_of(*self),
    {
        match self {
            JsonDoc::Number { negative, mantissa, exponent } => {
                if *exponent != 0 {
                    return None;
                }
                let w = *mantissa as i64;
                if *negative {
                    if w == i64::MIN || w > 128 || w < -127 {
                        None
                    } else {
                        Some((0 - w) as i8)
                    }
                } else if -128 <= w && w <= 127 {
                    Some(w as i8)
                } else {
                    None
                }
            },
            _ => None,
        }
    }
}

/// The value of the first member named `key` among `members`.
pub open spec fn first_member(members: Seq<(String, JsonDoc)>, key: Seq<char>) -> Option<JsonDoc>
    decreases members.len(),
{
    if members.len() == 0 {
        None
    } else if members[0].0@ == key {
        Some(members[0].1)
    } else {
        first_member(members.drop_first(), key)
    }
}

/// The member `key` of an object; `None` for another document or an absent
/// key.
pub open spec fn member_of(doc: JsonDoc, key: Seq<char>) -> Option<JsonDoc> {
    match doc {
        JsonDoc::Object(members) => first_member(members@, key),
        _ => None,
    }
}

impl JsonDoc {
    /// The member `key` of an object; `None` for another document or an
    /// absent key.
    pub fn member(&self, key: &str) -> (m: Option<&JsonDoc>)
        ensures
            match m {
                Some(d) => member_of(*self, key@) == Some(*d),
                None => member_of(*self, key@) is None,
            },
    {
        match self {
            JsonDoc::Object(members) => {
                let mut i: usize = 0;
                assert(members@.subrange(0, members@.len() as int) =~= members@);
                assert(member_of(*self, key@) == first_member(members@, key@));
                while i < members.len()
                    invariant
                        member_of(*self, key@) == first_member(members@, key@),
                        i <= members.len(),
                        first_member(members@, key@) == first_member(
                            members@.subrange(i as int, members@.len() as int),
                            key@,
                        ),
                    decreases members.len() - i,
                {
                    let ghost rest = members@.subrange(i as int, members@.len() as int);
                    assert(rest.drop_first() =~= members@.subrange(i + 1, members@.len() as int));
                    if same_text(members[i].0.as_str(), key) {
                        assert(rest[0] == members@[i as int]);
                        assert(rest[0].0@ == key@);
                        assert(first_member(rest, key@) == Some(rest[0].1));
                        assert(member_of(*self, key@) == Some(members@[i as int].1));
                        return Some(&members[i].1);
                    }
                    i += 1;
                }
                None
            },
            _ => None,
        }
    }
}

/// `10^e` as the `json` crate's `decimal_power` gives it: exact below 20,
/// otherwise a saturating product over the base-20 digits of `e` other than
/// its last.
pub open spec fn decimal_power(e: u16) -> u64 {
    if e < 20 {
        pow10(e as nat) as u64
    } else {
        power_digits(e, 1)
    }
}

/// The saturating product that `decimal_power` forms for large exponents.
pub open spec fn power_digits(e: u16, acc: u64) -> u64
    decreases e,
{
    if e >= 20 {
        let step = acc * pow10((e % 20) as nat);
        power_digits(e / 20, if step > u64::MAX {
            u64::MAX
        } else {
            step as u64
        })
    } else {
        acc
    }
}

/// Whether a JSON number equals the count `n`, as the `json` crate compares
/// a `Number` with an integer: zero equals zero, signs must agree, and the
/// mantissas are compared after scaling one by the exponent difference with
/// wrapping multiplication.
pub open spec fn number_equals_count(negative: bool, mantissa: u64, exponent: i16, n: u64) -> bool {
    if mantissa == 0 && n == 0 {
        true
    } else if negative {
        false
    } else if exponent == 0 {
        mantissa == n
    } else if exponent > 0 {
        mantissa.wrapping_mul(decimal_power(exponent as u16)) == n
    } else {
        mantissa == n.wrapping_mul(decimal_power((-(exponent as int)) as u16))
    }
}

/// Whether a document's `length` member is a number equal to `n`.
pub open spec fn declares_length(doc: JsonDoc, n: nat) -> bool {
    match member_of(doc, "length"@) {
        Some(JsonDoc::Number { negative, mantissa, exponent }) => n <= u64::MAX
            && number_equals_count(negative, mantissa, exponent, n as u64),
        _ => false,
    }
}

fn ten_power(e: u16) -> (p: u64)
    requires
        e < 20,
    ensures
        p == pow10(e as nat),
{
    let mut p: u64 = 1;
    let mut i: u16 = 0;
    while i < e
        invariant
            i <= e < 20,
            p == pow10(i as nat),
        decreases e - i,
    {
        proof {
            crate::length_field::lemma_pow10_monotone((i + 1) as nat, 19);
            assert(pow10(19) == 10_000_000_000_000_000_000) by {
                reveal_with_fuel(pow10, 20);
            }
        }
        p = p * 10;
        i += 1;
    }
    p
}

fn json_decimal_power(e: u16) -> (p: u64)
    ensures
        p == decimal_power(e),
{
    if e < 20 {
        return ten_power(e);
    }
    let mut pow: u64 = 1;
    let mut rest = e;
    while rest >= 20
        invariant
            power_digits(rest, pow) == power_digits(e, 1),
        decreases rest,
    {
        let digit = ten_power(rest % 20);
        pow = match pow.checked_mul(digit) {
            Some(v) => v,
            None => u64::MAX,
        };
        rest = rest / 20;
    }
    pow
}

fn number_matches(negative: bool, mantissa: u64, exponent: i16, n: u64) -> (eq: bool)
    ensures
        eq == number_equals_count(negative, mantissa, exponent, n),
{
    if mantissa == 0 && n == 0 {
        true
    } else if negative {
        false
    } else if exponent == 0 {
        mantissa == n
    } else if exponent > 0 {
        mantissa.wrapping_mul(json_decimal_power(exponent as u16)) == n
    } else {
        let e: u16 = if exponent == i16::MIN {
            0x8000
        } else {
            (-exponent) as u16
        };
        mantissa == n.wrapping_mul(json_decimal_power(e))
    }
}

/// Whether a document's `length` member is a number equal to `n`.
pub fn length_declared(doc: &JsonDoc, n: usize) -> (ok: bool)
    ensures
        ok == declares_length(*doc, n as nat),
{
    match doc.member("length") {
        Some(JsonDoc::Number { negative, mantissa, exponent }) => number_matches(
            *negative,
            *mantissa,
            *exponent,
            n as u64,
        ),
        _ => false,
    }
}

/// The document a peer's sealed bytes carry: they open under the shared key
/// to UTF-8 text that parses as JSON.
pub open spec fn reply_read(wire: Seq<u8>) -> Option<JsonDoc> {
    if !can_open(wire, shared_key()) {
        None
    } else {
        let bytes = opened_bytes(wire, shared_key());
        if !valid_utf8(bytes) {
            None
        } else {
            json_parsed(decode_utf8(bytes))
        }
    }
}

/// A request as the server accepts it: the document the sealed bytes carry,
/// whose `length` member equals the byte length of its text.
pub open spec fn request_read(wire: Seq<u8>) -> Option<JsonDoc> {
    match reply_read(wire) {
        Some(doc) => if declares_length(doc, opened_bytes(wire, shared_key()).len()) {
            Some(doc)
        } else {
            None
        },
        None => None,
    }
}

fn read_document(wire: &Vec<u8>) -> (r: Option<(JsonDoc, usize)>)
    ensures
        match r {
            Some((d, n)) => reply_read(wire@) == Some(d) && n == opened_bytes(
                wire@,
                shared_key(),
            ).len(),
            None => reply_read(wire@) is None,
        },
{
    let bytes = match open_message(wire) {
        Some(b) => b,
        None => {
            return None;
        },
    };
    let n = bytes.len();
    let text = match text_of_utf8(bytes) {
        Some(t) => t,
        None => {
            return None;
        },
    };
    match parse_json(text.as_str()) {
        Some(d) => Some((d, n)),
        None => None,
    }
}

/// Reads a request from the bytes received, with the text it carries:
/// `None` where the bytes are not a sealed UTF-8 JSON text; the text alone
/// where its `length` member is not the byte length of that text.
pub fn read_request(wire: &Vec<u8>) -> (read: Option<(String, Option<JsonDoc>)>)
    ensures
        match read {
            Some((t, d)) => {
                &&& reply_read(wire@) is Some
                &&& t@ == decode_utf8(opened_bytes(wire@, shared_key()))
                &&& d == request_read(wire@)
            },
            None => reply_read(wire@) is None,
        },
{
    let bytes = match open_message(wire) {
        Some(b) => b,
        None => {
            return None;
        },
    };
    let n = bytes.len();
    let text = match text_of_utf8(bytes) {
        Some(t) => t,
        None => {
            return None;
        },
    };
    match parse_json(text.as_str()) {
        Some(d) => if length_declared(&d, n) {
            Some((text, Some(d)))
        } else {
            Some((text, None))
        },
        None => None,
    }
}

/// Reads a reply from the bytes received: `None` where they are not a sealed
/// UTF-8 JSON text.
pub fn read_reply(wire: &Vec<u8>) -> (doc: Option<JsonDoc>)
    ensures
        doc == reply_read(wire@),
{
    match read_document(wire) {
        Some((d, _)) => Some(d),
        None => None,
    }
}

/// Reads a request from the bytes received: `None` where they are not a
/// sealed UTF-8 JSON text or its `length` member is not the byte length of
/// that text.
pub fn read_message(wire: &Vec<u8>) -> (doc: Option<JsonDoc>)
    ensures
        doc == request_read(wire@),
{
    match read_document(wire) {
        Some((d, n)) => if length_declared(&d, n) {
            Some(d)
        } else {
            None
        },
        None => None,
    }
}

/// The value of `length` as `JsonValue::insert` stores an `i32`.
pub open spec fn length_number(n: i32) -> JsonDoc {
    JsonDoc::Number {
        negative: n < 0,
        mantissa: if n < 0 {
            (-(n as int)) as u64
        } else {
            n as u64
        },
        exponent: 0,
    }
}

/// The index of the first member named `key` at or after `i`.
pub open spec fn key_index_from(members: Seq<(String, JsonDoc)>, key: Seq<char>, i: int) -> Option<int>
    decreases members.len() - i,
{
    if i < 0 || i >= members.len() {
        None
    } else if members[i].0@ == key {
        Some(i)
    } else {
        key_index_from(members, key, i + 1)
    }
}

/// `members` with the first member named `key` given `value`, or with
/// `(key, value)` appended where there is none (`JsonValue::insert`).
pub open spec fn members_with(members: Seq<(String, JsonDoc)>, key: String, value: JsonDoc) -> Seq<(String, JsonDoc)> {
    match key_index_from(members, key@, 0) {
        Some(i) => members.update(i, (members[i].0, value)),
        None => members.push((key, value)),
    }
}

/// Whether `wire` is the framing of `doc`: the document's `length` member
/// (named by `length_key`) is set to the self-counting length of its dump
/// with the placeholder, giving `framed_members`, and the dump of the result
/// is sealed as UTF-8.  No wire where the document is not an object, or its
/// text is too long for the length field or the cipher.
pub open spec fn frames(
    doc: JsonDoc,
    wire: Option<Seq<u8>>,
    length_key: String,
    framed_members: Vec<(String, JsonDoc)>,
) -> bool {
    match doc {
        JsonDoc::Object(members) => {
            let first = encode_utf8(json_dumped(doc));
            if first.len() > i32::MAX - 10 {
                wire is None
            } else {
                let n = framed_length(first.len() as int) as i32;
                &&& length_key@ == "length"@
                &&& framed_members@ == members_with(members@, length_key, length_number(n))
                &&& {
                    let bytes = encode_utf8(json_dumped(JsonDoc::Object(framed_members)));
                    if bytes.len() + 13 > usize::MAX {
                        wire is None
                    } else {
                        wire == Some(sealed_bytes(bytes, shared_key()))
                    }
                }
            }
        },
        _ => wire is None,
    }
}

/// What one side frames is what the other reads: the bytes a framing sends
/// read back, as a reply, as exactly the document the `json` crate parses
/// from the text that was sealed, and as a request where that document's
/// `length` member counts the text's bytes.  (Texts of 4 GiB or more do not
/// fit the cipher's length trailer.)
pub proof fn lemma_framed_message_reads_back(
    doc: JsonDoc,
    length_key: String,
    framed_members: Vec<(String, JsonDoc)>,
    wire: Seq<u8>,
)
    requires
        frames(doc, Some(wire), length_key, framed_members),
        encode_utf8(json_dumped(JsonDoc::Object(framed_members))).len() < 0x1_0000_0000,
    ensures
        reply_read(wire) == json_parsed(json_dumped(JsonDoc::Object(framed_members))),
        request_read(wire) == match json_parsed(json_dumped(JsonDoc::Object(framed_members))) {
            Some(d) => if declares_length(
                d,
                encode_utf8(json_dumped(JsonDoc::Object(framed_members))).len(),
            ) {
                Some(d)
            } else {
                None
            },
            None => None,
        },
{
    let text = json_dumped(JsonDoc::Object(framed_members));
    let bytes = encode_utf8(text);
    assert(wire == sealed_bytes(bytes, shared_key()));
    lemma_open_sealed(bytes, shared_key());
    vstd::utf8::encode_utf8_valid_utf8(text);
    vstd::utf8::encode_utf8_decode_utf8(text);
}

/// Whether `doc` is an object whose only member named `length` holds a
/// one-character whole number, the placeholder that framing replaces.
pub open spec fn length_placeholder(doc: JsonDoc) -> bool {
    match doc {
        JsonDoc::Object(m) => match key_index_from(m@, "length"@, 0) {
            Some(i) => only_key_at(m@, "length"@, i) && whole_number(m@[i].1) && printed_width(
                m@[i].1,
            ) == 1,
            None => false,
        },
        _ => false,
    }
}

/// Whether a framed text counts itself: the framed document's `length`
/// member equals the text's UTF-8 length, and the sealed bytes read back as
/// an accepted request wherever the crate parses the text to a document with
/// that same `length` member.
pub open spec fn counts_itself(framed: JsonDoc, text: Seq<char>, wire: Seq<u8>) -> bool {
    &&& declares_length(framed, encode_utf8(text).len())
    &&& match json_parsed(text) {
        Some(d) => member_of(d, "length"@) == member_of(framed, "length"@) ==> request_read(wire)
            == Some(d),
        None => true,
    }
}

proof fn lemma_first_member_only(m: Seq<(String, JsonDoc)>, key: Seq<char>, i: int)
    requires
        only_key_at(m, key, i),
    ensures
        first_member(m, key) == Some(m[i].1),
    decreases m.len(),
{
    if i > 0 {
        let rest = m.drop_first();
        assert(m[0].0@ != key);
        assert forall|j: int| 0 <= j < rest.len() && j != i - 1 implies (#[trigger] rest[j]).0@
            != key by {
            assert(rest[j] == m[j + 1]);
        }
        lemma_first_member_only(rest, key, i - 1);
    }
}

proof fn lemma_framed_length_nonnegative(len: int)
    requires
        len >= 0,
    ensures
        framed_length(len) >= 0,
{
    if len == 0 {
        assert(digit_count(1) == 1) by {
            reveal_with_fuel(digit_count, 2);
        }
        assert(pow10(1) == 10) by {
            reveal_with_fuel(pow10, 2);
        }
    }
}

/// The wire bytes of a framed message, if there is one.
pub open spec fn framed_wire(framed: Option<(Vec<u8>, String)>) -> Option<Seq<u8>> {
    match framed {
        Some((w, _)) => Some(w@),
        None => None,
    }
}

/// Frames a document for the wire: sets its `length` member to the
/// self-counting length and seals its text.  Returns the sealed bytes and
/// the text that was sealed; `None` where the document is not an object or
/// its text is too long.
pub fn frame_message(doc: JsonDoc) -> (framed: Option<(Vec<u8>, String)>)
    ensures
        exists|k: String, framed_members: Vec<(String, JsonDoc)>|
            {
                &&& frames(doc, framed_wire(framed), k, framed_members)
                &&& (framed matches Some((_, t)) ==> t@ == json_dumped(
                    JsonDoc::Object(framed_members),
                ))
                &&& match framed {
                    Some((w, t)) => length_placeholder(doc) ==> counts_itself(
                        JsonDoc::Object(framed_members),
                        t@,
                        w@,
                    ),
                    None => true,
                }
            },
{
    let ghost original = doc;
    let key = String::from_str("length");
    let first = dump_json(&doc);
    let first_len = first.as_str().as_bytes().len();
    let mut members = match doc {
        JsonDoc::Object(members) => members,
        _ => {
            assert(frames(original, None, key, vstd::pervasive::arbitrary()));
            return None;
        },
    };
    if first_len > (i32::MAX - 10) as usize {
        assert(frames(original, None, key, members));
        return None;
    }
    let n = accurate_len(first_len as i32);
    proof {
        lemma_framed_length_nonnegative(first_len as int);
    }
    let number = JsonDoc::Number {
        negative: n < 0,
        mantissa: if n < 0 {
            (-(n as i64)) as u64
        } else {
            n as u64
        },
        exponent: 0,
    };
    assert(number == length_number(n));
    let ghost before = members@;
    let mut i: usize = 0;
    while i < members.len() && !same_text(members[i].0.as_str(), key.as_str())
        invariant
            i <= members.len(),
            members@ == before,
            key@ == "length"@,
            key_index_from(before, key@, 0) == key_index_from(before, key@, i as int),
        decreases members.len() - i,
    {
        i += 1;
    }
    if i < members.len() {
        assert(key_index_from(before, key@, i as int) == Some(i as int));
        let k = members[i].0.clone();
        members.set(i, (k, number));
    } else {
        members.push((key, number));
    }
    assert(members@ == members_with(before, key, length_number(n)));
    let ghost framed_members = members;
    let framed = JsonDoc::Object(members);
    let text = dump_json(&framed);
    let bytes = slice_to_vec(text.as_str().as_bytes());
    if bytes.len() > usize::MAX - 13 {
        assert(frames(original, None, key, framed_members));
        return None;
    }
    let wire = seal_message(&bytes);
    assert(frames(original, Some(wire@), key, framed_members));
    proof {
        if length_placeholder(original) {
            let at = key_index_from(before, "length"@, 0)->0;
            let fm = framed_members@;
            assert(fm == before.update(at, (before[at].0, length_number(n))));
            assert(number_replacement(original, "length"@, fm) == Some(
                (before[at].1, length_number(n)),
            ));
            assert(printed_width(before[at].1) == 1);
            let first_bytes = encode_utf8(json_dumped(original)).len();
            assert(first_bytes >= 1);
            lemma_length_field_counts_itself(first_bytes as int);
            assert(n >= 1);
            assert(encode_utf8(text@).len() == n);
            assert(only_key_at(fm, "length"@, at)) by {
                assert forall|j: int| 0 <= j < fm.len() && j != at implies (#[trigger] fm[j]).0@
                    != "length"@ by {
                    assert(fm[j] == before[j]);
                }
            }
            lemma_first_member_only(fm, "length"@, at);
            assert(declares_length(JsonDoc::Object(framed_members), encode_utf8(text@).len()));
            lemma_framed_message_reads_back(original, key, framed_members, wire@);
        }
    }
    Some((wire, text))
}

} // verus!

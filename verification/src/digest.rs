//! Password digests and generated identifiers.
//!
//! Passwords are stored as the lowercase hexadecimal MD5 digest of their
//! UTF-8 bytes; new users and login tokens get random version-4 UUIDs in
//! their hyphenated lowercase form.
use crate::text::push_char;
use vstd::prelude::*;
use vstd::string::*;

verus! {

/// The MD5 digest of `data`, as `md5::compute` returns it.
pub uninterp spec fn md5_digest(data: Seq<u8>) -> Seq<u8>;

/// `md5::compute`: the crate's MD5 implementation.  Trusted to return the
/// digest named `md5_digest` of exactly the given bytes, as sixteen bytes
/// (`md5::Digest` wraps a `[u8; 16]`).
#[verifier::external_body]
fn md5_compute(data: &[u8]) -> (digest: Vec<u8>)
    ensures
        digest@ == md5_digest(data@),
        digest@.len() == 16,
{
    md5::compute(data).0.to_vec()
}

/// The lowercase hexadecimal character of a value below sixteen.
pub open spec fn hex_char(v: nat) -> char {
    if v < 10 {
        (48 + v) as char
    } else {
        (87 + v) as char
    }
}

/// Two lowercase hexadecimal characters per byte, high nibble first (the
/// `{:x}` form of an `md5::Digest`).
pub open spec fn lower_hex(bytes: Seq<u8>) -> Seq<char>
    decreases bytes.len(),
{
    if bytes.len() == 0 {
        Seq::empty()
    } else {
        lower_hex(bytes.drop_last()).push(hex_char((bytes.last() / 16) as nat)).push(
            hex_char((bytes.last() % 16) as nat),
        )
    }
}

/// The stored form of a password: the lowercase hex MD5 digest of its UTF-8
/// bytes.
pub open spec fn password_digest(password: Seq<char>) -> Seq<char> {
    lower_hex(md5_digest(vstd::utf8::encode_utf8(password)))
}

fn hex_digit(v: u8) -> (c: char)
    requires
        v < 16,
    ensures
        c == hex_char(v as nat),
{
    if v < 10 {
        (48 + v) as char
    } else {
        (87 + v) as char
    }
}

/// Lowercase hexadecimal text of `bytes`.
pub fn hex_text(bytes: &Vec<u8>) -> (s: String)
    ensures
        s@ == lower_hex(bytes@),
{
    let mut s = String::new();
    let mut i: usize = 0;
    while i < bytes.len()
        invariant
            i <= bytes.len(),
            s@ == lower_hex(bytes@.subrange(0, i as int)),
        decreases bytes.len() - i,
    {
        assert(bytes@.subrange(0, i + 1).drop_last() =~= bytes@.subrange(0, i as int));
        let b = bytes[i];
        push_char(&mut s, hex_digit(b / 16));
        push_char(&mut s, hex_digit(b % 16));
        i += 1;
    }
    assert(bytes@.subrange(0, bytes.len() as int) =~= bytes@);
    s
}

/// The stored form of `password`: lowercase hex MD5 of its UTF-8 bytes.
pub fn hash_password(password: &str) -> (hex: String)
    ensures
        hex@ == password_digest(password@),
        hex@.len() == 32,
{
    let bytes = password.as_bytes();
    let digest = md5_compute(bytes);
    let hex = hex_text(&digest);
    proof {
        lemma_lower_hex_len(digest@);
    }
    hex
}

proof fn lemma_lower_hex_len(bytes: Seq<u8>)
    ensures
        lower_hex(bytes).len() == 2 * bytes.len(),
    decreases bytes.len(),
{
    if bytes.len() > 0 {
        lemma_lower_hex_len(bytes.drop_last());
    }
}

/// A lowercase hexadecimal digit.
pub open spec fn lower_hex_char(c: char) -> bool {
    ('0' <= c <= '9') || ('a' <= c <= 'f')
}

/// The positions of the hyphens in the hyphenated UUID form.
pub open spec fn uuid_hyphen_at(i: int) -> bool {
    i == 8 || i == 13 || i == 18 || i == 23
}

/// The shape of a random (version 4) UUID in hyphenated lowercase form:
/// 36 characters, hyphens at 8, 13, 18 and 23, lowercase hex digits
/// elsewhere, the version digit `4` at 14 and a variant digit of `8`, `9`,
/// `a` or `b` at 19.
pub open spec fn uuid_shaped(s: Seq<char>) -> bool {
    &&& s.len() == 36
    &&& forall|i: int|
        0 <= i < 36 ==> if uuid_hyphen_at(i) {
            #[trigger] s[i] == '-'
        } else {
            lower_hex_char(s[i])
        }
    &&& s[14] == '4'
    &&& (s[19] == '8' || s[19] == '9' || s[19] == 'a' || s[19] == 'b')
}

/// `uuid::Uuid::new_v4` displayed: a random identifier.  Trusted to have the
/// version 4 layout: `new_v4` masks in version nibble 4 and variant bits
/// `10`, and `Display` writes the crate's `format_hyphenated` form in lowercase
/// hex.  Which identifier comes back is left open.
#[verifier::external_body]
pub(crate) fn new_uuid_text() -> (id: String)
    ensures
        uuid_shaped(id@),
{
    uuid::Uuid::new_v4().to_string()
}

} // verus!

//! Framing of protocol messages: the shared key and the sealing of message
//! text under it.
use crate::cipher::{can_decrypt, can_open, decrypt, encrypt, opened_bytes, sealed_bytes};
use vstd::prelude::*;

verus! {

/// The key that client and server share: the ASCII bytes of `1357924680`.
pub open spec fn shared_key() -> Seq<u8> {
    seq![49u8, 51u8, 53u8, 55u8, 57u8, 50u8, 52u8, 54u8, 56u8, 48u8]
}

/// The key that client and server share.
pub fn message_key() -> (key: Vec<u8>)
    ensures
        key@ == shared_key(),
{
    let key = vec![49u8, 51u8, 53u8, 55u8, 57u8, 50u8, 52u8, 54u8, 56u8, 48u8];
    assert(key@ =~= shared_key());
    key
}

/// Seals message text for the wire.
pub fn seal_message(text: &Vec<u8>) -> (wire: Vec<u8>)
    requires
        text.len() + 13 <= usize::MAX,
    ensures
        wire@ == sealed_bytes(text@, shared_key()),
{
    let key = message_key();
    encrypt(text, &key)
}

/// Opens bytes received from the wire; `None` where they are not a sealed
/// message (where reading them as one would fail).
pub fn open_message(wire: &Vec<u8>) -> (text: Option<Vec<u8>>)
    ensures
        match text {
            Some(t) => can_open(wire@, shared_key()) && t@ == opened_bytes(wire@, shared_key()),
            None => !can_open(wire@, shared_key()),
        },
{
    let key = message_key();
    if can_decrypt(wire, &key) {
        Some(decrypt(wire, &key))
    } else {
        None
    }
}

} // verus!

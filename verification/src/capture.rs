//! How the client records input events before storing and uploading them.
use vstd::prelude::*;
use vstd::string::*;

verus! {

/// How many queued local statements one store transaction takes at most.
pub const LOCAL_STORE_BATCH: usize = 10000;

/// How many queued key events one upload takes at most.
pub const KEY_UPLOAD_BATCH: usize = 100;

/// How many queued mouse movements one upload takes at most.
pub const MOUSE_UPLOAD_BATCH: usize = 300;

/// The number of queued items that the next batch takes.
pub fn batch_len(pending: usize, limit: usize) -> (n: usize)
    ensures
        n == if pending <= limit {
            pending
        } else {
            limit
        },
{
    if pending <= limit {
        pending
    } else {
        limit
    }
}

/// The recorded name of a mouse button: buttons 1, 2 and 3 are Left, Middle
/// and Right; any other is an Extended Key.
pub open spec fn mouse_button_text(button: usize) -> Seq<char> {
    "Mouse "@ + (if button == 1 {
        "Left"@
    } else if button == 2 {
        "Middle"@
    } else if button == 3 {
        "Right"@
    } else {
        "Extended Key"@
    }) + " Button"@
}

/// The recorded name of a mouse button.
pub fn mouse_button_label(button: usize) -> (name: String)
    ensures
        name@ == mouse_button_text(button),
{
    let mut s = String::from_str("Mouse ");
    if button == 1 {
        s.append("Left");
    } else if button == 2 {
        s.append("Middle");
    } else if button == 3 {
        s.append("Right");
    } else {
        s.append("Extended Key");
    }
    s.append(" Button");
    s
}

/// The recorded name of a keyboard key, given the key's own name.
pub open spec fn keyboard_key_text(key: Seq<char>) -> Seq<char> {
    "Keyboard '"@ + key + "' Key"@
}

/// The recorded name of a keyboard key, given the key's own name.
pub fn keyboard_key_label(key: &str) -> (name: String)
    ensures
        name@ == keyboard_key_text(key@),
{
    let mut s = String::from_str("Keyboard '");
    s.append(key);
    s.append("' Key");
    s
}

} // verus!

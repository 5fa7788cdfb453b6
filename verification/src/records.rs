//! The rows that the server reads from and writes to its database.
use vstd::prelude::*;

verus! {

/// A row of the `User` table.  Columns that a query does not select are
/// empty.
pub struct User {
    pub id: String,
    pub user_name: String,
    pub password: String,
    pub token_id: String,
    pub token_expiry_time: String,
}

impl Clone for User {
    fn clone(&self) -> (copy: Self)
        ensures
            copy == *self,
    {
        User {
            id: self.id.clone(),
            user_name: self.user_name.clone(),
            password: self.password.clone(),
            token_id: self.token_id.clone(),
            token_expiry_time: self.token_expiry_time.clone(),
        }
    }
}

/// A row of the `KeyPressingEvent` table; `status` is 1 for a press.
pub struct KeyPressingEvent {
    pub id: String,
    pub user_id: String,
    pub time: String,
    pub key_name: String,
    pub status: u8,
}

impl Clone for KeyPressingEvent {
    fn clone(&self) -> (copy: Self)
        ensures
            copy == *self,
    {
        KeyPressingEvent {
            id: self.id.clone(),
            user_id: self.user_id.clone(),
            time: self.time.clone(),
            key_name: self.key_name.clone(),
            status: self.status,
        }
    }
}

/// A row of the `MouseMovingEvent` table; positions read `(x, y)`.
pub struct MouseMovingEvent {
    pub id: String,
    pub user_id: String,
    pub time: String,
    pub original_position: String,
    pub new_position: String,
}

impl Clone for MouseMovingEvent {
    fn clone(&self) -> (copy: Self)
        ensures
            copy == *self,
    {
        MouseMovingEvent {
            id: self.id.clone(),
            user_id: self.user_id.clone(),
            time: self.time.clone(),
            original_position: self.original_position.clone(),
            new_position: self.new_position.clone(),
        }
    }
}

/// A key event as a client submits it for storage.
pub struct KeyEventUpload {
    pub id: String,
    pub time: String,
    pub key_name: String,
    pub status: i8,
}

/// A key event as the client queues it for the server; `status` is 1 for a
/// press.
pub struct KeyEventToServer {
    pub id: String,
    pub time: String,
    pub key_name: String,
    pub status: u8,
}

/// A mouse movement as a client submits it for storage.
pub struct MouseEventUpload {
    pub id: String,
    pub time: String,
    pub original_position: String,
    pub new_position: String,
}

} // verus!

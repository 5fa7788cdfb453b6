//! Verified core of the input-device monitor: the message cipher and the
//! self-describing length field of the wire protocol, the rules that the
//! client forms and the server handlers apply, the SQL statements they
//! issue, and the interpretation of recorded keyboard and mouse events.
pub mod cipher;
pub mod length_field;
pub mod text;
pub mod digest;
pub mod records;
pub mod sql;
pub mod server;
pub mod forms;
pub mod pointer;
pub mod keyboard;
pub mod press_table;
pub mod capture;
pub mod protocol;
pub mod message;
pub mod replay;
pub mod exchange;
pub mod task;

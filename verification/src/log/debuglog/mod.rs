//! Debug log lines.

pub mod debuglog_productor;
pub mod events;
pub mod productor;

//! Download events and the debug log lines that report them.

pub mod debuglog;
pub mod events;
pub mod on_event;

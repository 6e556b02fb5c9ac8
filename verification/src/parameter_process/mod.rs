//! Command-line options of the first, minimal front end.

pub mod args_define;

pub use self::args_define::WgetArgs;

//! Verified core of a small `wget`-like downloader: URL splitting, HTTP
//! request rendering, response-head scanning, `Content-Length` extraction,
//! download planning and debug-log lines.

pub mod cli;
pub mod file_writer;
pub mod log;
pub mod parameter_process;
pub mod text;
pub mod web;

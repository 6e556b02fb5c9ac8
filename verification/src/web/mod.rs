//! The HTTP side of the downloader.

pub mod http;
pub mod http_client;

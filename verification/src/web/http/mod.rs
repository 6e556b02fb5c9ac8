//! HTTP/1.x request rendering and response-head processing.

pub mod http_client;
pub mod http_requests;
pub mod response;

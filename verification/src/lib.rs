//! Verified request/response logic of the Ajaya web framework.

pub mod body_limit;
pub mod compression;
pub mod cookies;
pub mod cors;
pub mod csrf;
pub mod duration;
pub mod error;
pub mod extract;
pub mod headers;
pub mod map_response;
pub mod method_filter;
pub mod multipart;
pub mod num;
pub mod path_value;
pub mod rate_limit;
pub mod rejection;
pub mod security_headers;
pub mod request_id;
pub mod response;
pub mod server;
pub mod sse;
pub mod text;
pub mod timeout;
pub mod ws;

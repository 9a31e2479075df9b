pub mod admission;
pub mod config;
pub mod error;
pub mod handler;
pub mod headers;
pub mod method;
pub mod request;
pub mod response;
pub mod response_code;
pub mod text;
pub mod version;

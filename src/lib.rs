//! A single-message codec for JSON-RPC 2.0 carried in HTTP/1.1 envelopes.
pub mod buffer;
pub mod decimal;
pub mod head;
pub mod httpcodec;
pub mod json;
pub mod parse;
pub mod request;
pub mod response;

pub use self::request::Request;
pub use self::response::Error;
pub use self::response::Response;
pub use serde_json::Value as Params;

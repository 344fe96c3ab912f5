//! A codec for tracing spans: a 128-bit trace identifier with its base64 text
//! form, a nanosecond timestamp, and the binary form of a batch of spans.

pub mod base64_text;
pub mod datetime;
pub mod harness;
mod random;
pub mod span;
pub mod trace_id;
pub mod wire;

pub use datetime::DateTime;
pub use span::Span;
pub use trace_id::TraceId;

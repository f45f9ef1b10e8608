//! The client's side of tool calls to the Thunderbird MCP extension:
//! repair and tolerant decoding of the peer's responses, the unwrapping of
//! tool results, and the rows that the command line shows.

pub mod cli;
pub mod client;
pub mod decode;
pub mod json;
pub mod sanitize;
pub mod text;
pub mod types;

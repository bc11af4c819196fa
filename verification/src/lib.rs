//! Client-side framing for a long-lived metadata-extraction child process
//! driven in interactive batch mode.
//!
//! The child receives newline-delimited command arguments on its input
//! stream and answers on its output and error streams, each response
//! bounded only by per-call sentinel tokens.  This crate holds the verified
//! core of that wire protocol: sentinel construction, request encoding,
//! the terminator scan that bounds each read, and response decoding
//! (whitespace trimming, sentinel stripping, and recovery of the embedded
//! status code).  Process spawning and the actual pipe I/O live outside
//! the library and hand it plain byte buffers.

pub mod bytes;
pub mod decode;
pub mod encode;
pub mod json;
pub mod laws;
pub mod params;
pub mod reader;
pub mod sentinel;
pub mod session;
pub mod trim;

pub use decode::{decode_response, parse_u8_decimal, ExifToolOutput, ProtocolError};
pub use encode::{encode_request, STATUS_DELIM};
pub use json::{parse_json, JsonError};
pub use params::{json_params, preview_params, tag_params};
pub use reader::{reader_step, tail_contains_terminator, ReadEvent, ReaderAction};
pub use sentinel::{make_sentinels, Sentinels};
pub use session::{prepare_call, CallPlan};
pub use trim::{is_not_whitespace, is_whitespace, trim_end};

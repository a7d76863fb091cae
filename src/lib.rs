//! Client-side protocol for a git status worker process: encoding of status
//! requests and strict decoding of the worker's positional response records.

pub mod fields;
pub mod frame;
pub mod request;
pub mod response;

pub use fields::{FIELD_SEP, RECORD_TERM};
pub use response::{GitDetails, GitStatus, ResponceParseError};
pub use request::{ReadIndex, StatusRequest};
pub use frame::{decode_frame, FrameError};

//! Turning one frame read from the worker into a decoded response.

use vstd::prelude::*;
use vstd::string::StringSliceAdditionalSpecFns;
use vstd::utf8::{decode_utf8, encode_utf8_decode_utf8, encode_utf8_valid_utf8, valid_utf8};
use crate::response::{decodes, GitStatus, ResponceParseError};

verus! {

/// The record terminator as a byte.
pub const TERM_BYTE: u8 = 0x1e;

#[verifier::external_type_specification]
#[verifier::external_body]
pub struct ExUtf8Error(std::str::Utf8Error);

/// Relies on `std::str::from_utf8`: the bytes, viewed as text when they are
/// valid UTF-8, and an error when they are not.
#[verifier::external_body]
fn text_of(b: &[u8]) -> (r: Result<&str, std::str::Utf8Error>)
    ensures
        match r {
            Ok(t) => t.spec_bytes() == b@,
            Err(_) => !valid_utf8(b@),
        },
{
    std::str::from_utf8(b)
}

/// Why a frame read from the worker yields no response.
#[derive(Debug, PartialEq)]
pub enum FrameError {
    /// The bytes do not end with the record terminator: the stream ended
    /// before a whole frame arrived.
    Unterminated,
    /// The frame is not valid UTF-8 text.
    NotText(std::str::Utf8Error),
    /// The frame's text is not a well-formed response record.
    Parse(ResponceParseError),
}

/// The bytes read are one whole frame: they end with the terminator.
pub open spec fn is_terminated(frame: Seq<u8>) -> bool {
    frame.len() > 0 && frame.last() == TERM_BYTE
}

/// `r` is what a frame gives: its terminator is dropped, the rest must be
/// UTF-8 text, and that text is decoded as a response record.
pub open spec fn frame_decodes(frame: Seq<u8>, r: Result<GitStatus, FrameError>) -> bool {
    let body = frame.drop_last();
    match r {
        Err(FrameError::Unterminated) => !is_terminated(frame),
        Err(FrameError::NotText(_)) => is_terminated(frame) && !valid_utf8(body),
        Err(FrameError::Parse(e)) => {
            &&& is_terminated(frame)
            &&& valid_utf8(body)
            &&& decodes(decode_utf8(body), Err(e))
        },
        Ok(st) => is_terminated(frame) && valid_utf8(body) && decodes(decode_utf8(body), Ok(st)),
    }
}

/// Decodes the bytes read from the worker up to and including the record
/// terminator.
pub fn decode_frame(frame: &[u8]) -> (r: Result<GitStatus, FrameError>)
    ensures
        frame_decodes(frame@, r),
{
    let n = frame.len();
    if n == 0 || frame[n - 1] != TERM_BYTE {
        return Err(FrameError::Unterminated);
    }
    let mut body: Vec<u8> = Vec::new();
    let mut i: usize = 0;
    while i < n - 1
        invariant
            n == frame@.len(),
            n > 0,
            i <= n - 1,
            body@ == frame@.subrange(0, i as int),
        decreases n - 1 - i,
    {
        body.push(frame[i]);
        i += 1;
    }
    assert(body@ =~= frame@.drop_last());
    match text_of(body.as_slice()) {
        Err(e) => Err(FrameError::NotText(e)),
        Ok(t) => {
            proof {
                broadcast use encode_utf8_decode_utf8, encode_utf8_valid_utf8;
            }
            assert(decode_utf8(body@) == t@);
            match GitStatus::from_str(t) {
                Ok(st) => Ok(st),
                Err(e) => Err(FrameError::Parse(e)),
            }
        },
    }
}

} // verus!

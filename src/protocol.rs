use vstd::prelude::*;
use mini_redis::Frame;
use crate::dispatch::{Request, Response};

verus! {

#[verifier::external_type_specification]
#[verifier::external_body]
pub struct ExFrame(Frame);

/// Why a frame could not be turned into a request.
#[derive(PartialEq, Eq, Structural, Debug, Clone, Copy)]
pub enum FrameError {
    /// The frame is not a well-formed command.
    Malformed,
}

/// Relies on `mini_redis::Command::from_frame` to decode a command frame. GET
/// and SET carry their key and value over; any other command keeps its debug
/// text as a name; a frame that does not decode gives `None`.
#[verifier::external_body]
fn command_from_frame(frame: Frame) -> (r: Option<Request>) {
    match mini_redis::Command::from_frame(frame) {
        Ok(mini_redis::Command::Get(c)) => Some(Request::Get { key: c.key().as_bytes().to_vec() }),
        Ok(mini_redis::Command::Set(c)) => Some(
            Request::Put { key: c.key().as_bytes().to_vec(), value: c.value().to_vec() },
        ),
        Ok(other) => Some(Request::Unsupported { name: format!("{:?}", other) }),
        Err(_) => None,
    }
}

/// Relies on `mini_redis::Frame::Simple`: a simple-status frame.
#[verifier::external_body]
fn simple_frame(status: String) -> (r: Frame) {
    Frame::Simple(status)
}

/// Relies on `mini_redis::Frame::Bulk` and `bytes::Bytes::from`: a bulk frame
/// holding the value's bytes.
#[verifier::external_body]
fn bulk_frame(value: Vec<u8>) -> (r: Frame) {
    Frame::Bulk(bytes::Bytes::from(value))
}

/// Relies on `mini_redis::Frame::Null`: the nil frame.
#[verifier::external_body]
fn null_frame() -> (r: Frame) {
    Frame::Null
}

/// Decodes a request frame; a frame that is not a well-formed command is
/// `Malformed`.
pub fn decode_request(frame: Frame) -> (r: Result<Request, FrameError>) {
    match command_from_frame(frame) {
        Some(req) => Ok(req),
        None => Err(FrameError::Malformed),
    }
}

/// Encodes a response: `OK` as a simple status, a value as a bulk frame, and
/// absence as nil.
pub fn encode_response(resp: Response) -> (r: Frame) {
    match resp {
        Response::Okay => simple_frame("OK".to_string()),
        Response::Bulk(v) => bulk_frame(v),
        Response::Null => null_frame(),
    }
}

} // verus!

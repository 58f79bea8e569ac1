use vstd::prelude::*;

use crate::executor::ToolError;
use crate::jsonenc::{append_json_string, json_string};
use crate::text::{append_i64, dec_i64};

verus! {

/// The base64 (standard alphabet, padded) encoding of a byte sequence, as
/// the base64 crate computes it: a function of the bytes alone.
pub uninterp spec fn b64_encode_of(bytes: Seq<u8>) -> Seq<char>;

/// What the base64 crate decodes a text to: the bytes, or nothing when the
/// text is not valid base64. A function of the text alone.
pub uninterp spec fn b64_decode_of(text: Seq<char>) -> Option<Seq<u8>>;

/// Relies on base64's STANDARD engine encode: the encoding depends on the
/// bytes alone, and decoding the encoded form yields the original bytes.
#[verifier::external_body]
fn b64_encode(bytes: &[u8]) -> (r: String)
    ensures
        r@ == b64_encode_of(bytes@),
        b64_decode_of(r@) == Some(bytes@),
{
    base64::Engine::encode(&base64::engine::general_purpose::STANDARD, bytes)
}

/// Relies on base64's STANDARD engine decode: whether the text decodes, and
/// to which bytes, depends on the text alone.
#[verifier::external_body]
fn b64_decode(text: &str) -> (r: Result<Vec<u8>, String>)
    ensures
        r is Ok <==> b64_decode_of(text@) is Some,
        r matches Ok(b) ==> b64_decode_of(text@) == Some(b@),
{
    base64::Engine::decode(&base64::engine::general_purpose::STANDARD, text).map_err(|error| {
        error.to_string()
    })
}

/// Decodes a base64 payload.
pub fn decode_b64_payload(text: &String) -> (r: Result<Vec<u8>, String>)
    ensures
        r is Ok <==> b64_decode_of(text@) is Some,
        r matches Ok(b) ==> b64_decode_of(text@) == Some(b@),
{
    b64_decode(text.as_str())
}

/// The JSON body of a non-streaming error response.
pub struct RawErrorBody {
    pub error: String,
}

/// One event of the raw byte stream.
pub enum RawStreamEvent {
    /// The request was accepted; payload events follow.
    Start,
    /// A chunk of the child's stdout, base64-encoded.
    Stdout { data_b64: String },
    /// A chunk of the child's stderr, base64-encoded.
    Stderr { data_b64: String },
    /// The child finished; no code means it was killed by a signal.
    /// This is the last event of a stream.
    Exit { exit_code: Option<i32> },
    /// A runtime failure after streaming began; terminates the stream.
    Error { message: String },
}

/// The canonical JSON line for an event, newline excluded.
pub open spec fn event_json(e: RawStreamEvent) -> Seq<char> {
    match e {
        RawStreamEvent::Start => "{\"event\":\"start\"}"@,
        RawStreamEvent::Stdout { data_b64 } => "{\"event\":\"stdout\",\"data_b64\":"@
            + json_string(data_b64@) + "}"@,
        RawStreamEvent::Stderr { data_b64 } => "{\"event\":\"stderr\",\"data_b64\":"@
            + json_string(data_b64@) + "}"@,
        RawStreamEvent::Exit { exit_code } => "{\"event\":\"exit\",\"exitCode\":"@ + (match
            exit_code {
            Some(code) => dec_i64(code as int),
            None => "null"@,
        }) + "}"@,
        RawStreamEvent::Error { message } => "{\"event\":\"error\",\"message\":"@ + json_string(
            message@,
        ) + "}"@,
    }
}

/// Renders one event as its canonical JSON line, newline excluded.
pub fn encode_event(e: &RawStreamEvent) -> (r: String)
    ensures
        r@ == event_json(*e),
{
    proof {
        reveal_strlit("{\"event\":\"start\"}");
        reveal_strlit("{\"event\":\"stdout\",\"data_b64\":");
        reveal_strlit("{\"event\":\"stderr\",\"data_b64\":");
        reveal_strlit("{\"event\":\"exit\",\"exitCode\":");
        reveal_strlit("{\"event\":\"error\",\"message\":");
        reveal_strlit("null");
        reveal_strlit("}");
    }
    let mut out = String::new();
    match e {
        RawStreamEvent::Start => {
            out.append("{\"event\":\"start\"}");
        }
        RawStreamEvent::Stdout { data_b64 } => {
            out.append("{\"event\":\"stdout\",\"data_b64\":");
            append_json_string(&mut out, data_b64.as_str());
            out.append("}");
        }
        RawStreamEvent::Stderr { data_b64 } => {
            out.append("{\"event\":\"stderr\",\"data_b64\":");
            append_json_string(&mut out, data_b64.as_str());
            out.append("}");
        }
        RawStreamEvent::Exit { exit_code } => {
            out.append("{\"event\":\"exit\",\"exitCode\":");
            match exit_code {
                Some(code) => {
                    append_i64(&mut out, *code as i64);
                    proof {
                        assert(dec_i64((*code as i64) as int) == dec_i64(*code as int));
                    }
                }
                None => {
                    out.append("null");
                }
            }
            out.append("}");
        }
        RawStreamEvent::Error { message } => {
            out.append("{\"event\":\"error\",\"message\":");
            append_json_string(&mut out, message.as_str());
            out.append("}");
        }
    }
    out
}

/// Wraps a chunk of child stdout as its stream event: the payload decodes
/// back to exactly the chunk's bytes.
pub fn stdout_chunk_event(chunk: &[u8]) -> (r: RawStreamEvent)
    ensures
        r matches RawStreamEvent::Stdout { data_b64 } && data_b64@ == b64_encode_of(chunk@)
            && b64_decode_of(data_b64@) == Some(chunk@),
{
    RawStreamEvent::Stdout { data_b64: b64_encode(chunk) }
}

/// Wraps a chunk of child stderr as its stream event: the payload decodes
/// back to exactly the chunk's bytes.
pub fn stderr_chunk_event(chunk: &[u8]) -> (r: RawStreamEvent)
    ensures
        r matches RawStreamEvent::Stderr { data_b64 } && data_b64@ == b64_encode_of(chunk@)
            && b64_decode_of(data_b64@) == Some(chunk@),
{
    RawStreamEvent::Stderr { data_b64: b64_encode(chunk) }
}

/// The HTTP status for a failure before the stream starts: a policy denial
/// is a client error, anything else is the broker's.
pub fn preflight_status(e: &ToolError) -> (r: u16)
    ensures
        e is Validation ==> r == 403,
        !(e is Validation) ==> r == 500,
{
    match e {
        ToolError::Validation(_) => 403,
        _ => 500,
    }
}

} // verus!

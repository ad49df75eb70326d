use std::string::FromUtf8Error;

use vstd::prelude::*;
use vstd::utf8::{decode_utf8, encode_utf8, valid_utf8};

use crate::scripting::TimelineEvent;

verus! {

/// `std::string::FromUtf8Error`, carried opaquely.
#[verifier::external_type_specification]
#[verifier::external_body]
pub struct ExFromUtf8Error(FromUtf8Error);

/// Messages from the request-handling task to the window loop.
#[derive(Debug)]
pub enum AppMessage {
    /// Load a new script.
    InjectTimeline(Vec<TimelineEvent>),
    /// The language model call failed; carries its description.
    LlmError(String),
    /// Shut the daemon down.
    Shutdown,
}

/// Name of the pipe the daemon listens on.
pub const PIPE_NAME: &'static str = "\\\\.\\pipe\\ai-pet-ipc";

/// The prompt that asks the daemon to shut down.
pub const SHUTDOWN_PROMPT: &'static str = "__shutdown__";

/// The four little-endian bytes of `n` (below 2^32).
pub open spec fn le_bytes(n: nat) -> Seq<u8> {
    seq![
        (n % 256) as u8,
        ((n / 256) % 256) as u8,
        ((n / 65536) % 256) as u8,
        ((n / 16777216) % 256) as u8,
    ]
}

/// The number whose little-endian bytes are `b[0..4]`.
pub open spec fn le_value(b: Seq<u8>) -> nat {
    b[0] as nat + 256 * (b[1] as nat) + 65536 * (b[2] as nat) + 16777216 * (b[3] as nat)
}

/// A message on the wire: the byte length of the UTF-8 body as a 4-byte
/// little-endian prefix, then the body.
pub open spec fn framed(body: Seq<char>) -> Seq<u8> {
    le_bytes(encode_utf8(body).len()) + encode_utf8(body)
}

/// Frames `body` for the wire; `None` when its UTF-8 encoding is longer
/// than a `u32` can count.
pub fn encode_message(body: &str) -> (r: Option<Vec<u8>>)
    ensures
        r is Some <==> encode_utf8(body@).len() <= u32::MAX,
        r matches Some(v) ==> v@ == framed(body@),
{
    let bytes = body.as_bytes();
    let n = bytes.len();
    if n as u64 > 4294967295u64 {
        return None;
    }
    let len = n as u32;
    let mut out: Vec<u8> = Vec::new();
    out.push((len % 256) as u8);
    out.push(((len / 256) % 256) as u8);
    out.push(((len / 65536) % 256) as u8);
    out.push(((len / 16777216) % 256) as u8);
    assert(out@ =~= le_bytes(n as nat));
    let mut i: usize = 0;
    while i < n
        invariant
            n == bytes@.len(),
            bytes@ == encode_utf8(body@),
            i <= n,
            out@ =~= le_bytes(n as nat) + bytes@.subrange(0, i as int),
        decreases n - i,
    {
        out.push(bytes[i]);
        i = i + 1;
    }
    assert(bytes@.subrange(0, n as int) =~= bytes@);
    Some(out)
}

/// The body length a 4-byte little-endian header announces.
pub fn message_length(header: [u8; 4]) -> (n: u32)
    ensures
        n == le_value(header@),
{
    let b0 = header[0] as u32;
    let b1 = header[1] as u32;
    let b2 = header[2] as u32;
    let b3 = header[3] as u32;
    b0 + 256 * b1 + 65536 * b2 + 16777216 * b3
}

/// `String::from_utf8`: the text the bytes encode, or an error when they
/// are not valid UTF-8.
#[verifier::external_body]
fn string_from_utf8(bytes: Vec<u8>) -> (r: Result<String, FromUtf8Error>)
    ensures
        r is Ok <==> valid_utf8(bytes@),
        r matches Ok(s) ==> s@ == decode_utf8(bytes@),
{
    String::from_utf8(bytes)
}

/// Decodes a message body; `None` when it is not valid UTF-8.
pub fn message_text(bytes: Vec<u8>) -> (r: Option<String>)
    ensures
        r is Some <==> valid_utf8(bytes@),
        r matches Some(s) ==> s@ == decode_utf8(bytes@),
{
    match string_from_utf8(bytes) {
        Ok(s) => Some(s),
        Err(_) => None,
    }
}

/// The header is the body's UTF-8 byte length, least significant byte
/// first, and the body bytes follow it unchanged.
pub proof fn lemma_header_is_little_endian(body: Seq<char>)
    requires
        encode_utf8(body).len() <= u32::MAX,
    ensures
        ({
            let n = encode_utf8(body).len();
            let f = framed(body);
            &&& f[0] as nat == n % 256
            &&& f[1] as nat == (n / 256) % 256
            &&& f[2] as nat == (n / 65536) % 256
            &&& f[3] as nat == n / 16777216
            &&& forall|i: int| 0 <= i < n ==> #[trigger] f[4 + i] == encode_utf8(body)[i]
        }),
{
    let n = encode_utf8(body).len();
    assert(n / 16777216 < 256);
}

/// Reading back a framed message gives the body: the header announces the
/// body's byte length, and the body bytes decode to the text that was sent.
pub proof fn lemma_message_round_trip(body: Seq<char>)
    requires
        encode_utf8(body).len() <= u32::MAX,
    ensures
        framed(body).len() == 4 + encode_utf8(body).len(),
        le_value(framed(body).subrange(0, 4)) == encode_utf8(body).len(),
        framed(body).subrange(4, framed(body).len() as int) == encode_utf8(body),
        valid_utf8(framed(body).subrange(4, framed(body).len() as int)),
        decode_utf8(framed(body).subrange(4, framed(body).len() as int)) == body,
{
    let n = encode_utf8(body).len();
    let f = framed(body);
    assert(f.subrange(0, 4) =~= le_bytes(n));
    assert(f.subrange(4, f.len() as int) =~= encode_utf8(body));
    assert(le_value(le_bytes(n)) == n) by (nonlinear_arith)
        requires
            n <= u32::MAX,
            le_bytes(n)[0] == (n % 256) as u8,
            le_bytes(n)[1] == ((n / 256) % 256) as u8,
            le_bytes(n)[2] == ((n / 65536) % 256) as u8,
            le_bytes(n)[3] == ((n / 16777216) % 256) as u8,
    {
    }
    vstd::utf8::encode_utf8_valid_utf8(body);
    vstd::utf8::encode_utf8_decode_utf8(body);
}

} // verus!

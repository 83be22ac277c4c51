//! The daemon codec: the requests and responses exchanged with the session
//! daemon, the length prefix that frames them, and the overwriting of secrets.

use crate::greetd::{pam_error_of, AuthError, AuthMessageType};
use crate::text::occurs;
use vstd::prelude::*;
use vstd::utf8::{encode_utf8, is_ascii_chars, is_ascii_chars_encode_utf8};

verus! {

/// `String::clear` empties the text.
pub assume_specification[ String::clear ](s: &mut String)
    ensures
        final(s)@ == Seq::<char>::empty(),
;

/// What is sent to the session daemon.
#[derive(Debug, PartialEq, Eq)]
pub enum Request {
    CreateSession { username: String },
    PostAuthMessageResponse { response: Option<String> },
    StartSession { cmd: Vec<String>, env: Vec<String> },
    CancelSession,
}

/// A [`Request`] as plain values.
pub enum RequestView {
    CreateSession { username: Seq<char> },
    PostAuthMessageResponse { response: Option<Seq<char>> },
    StartSession { cmd: Seq<Seq<char>>, env: Seq<Seq<char>> },
    CancelSession,
}

/// The text inside an optional string.
pub open spec fn text_of(o: Option<String>) -> Option<Seq<char>> {
    match o {
        Some(s) => Some(s@),
        None => None,
    }
}

impl View for Request {
    type V = RequestView;

    open spec fn view(&self) -> RequestView {
        match *self {
            Request::CreateSession { username } => RequestView::CreateSession { username: username@ },
            Request::PostAuthMessageResponse { response } => RequestView::PostAuthMessageResponse {
                response: text_of(response),
            },
            Request::StartSession { cmd, env } => RequestView::StartSession {
                cmd: cmd.deep_view(),
                env: env.deep_view(),
            },
            Request::CancelSession => RequestView::CancelSession,
        }
    }
}

impl DeepView for Request {
    type V = RequestView;

    open spec fn deep_view(&self) -> RequestView {
        self@
    }
}

/// What the session daemon answers.
#[derive(Debug, PartialEq, Eq)]
pub enum Response {
    Success,
    Error { error_type: String, description: String },
    AuthMessage { auth_message_type: AuthMessageType, auth_message: String },
}

/// A [`Response`] as plain values.
pub enum ResponseView {
    Success,
    Error { error_type: Seq<char>, description: Seq<char> },
    AuthMessage { auth_message_type: AuthMessageType, auth_message: Seq<char> },
}

impl View for Response {
    type V = ResponseView;

    open spec fn view(&self) -> ResponseView {
        match *self {
            Response::Success => ResponseView::Success,
            Response::Error { error_type, description } => ResponseView::Error {
                error_type: error_type@,
                description: description@,
            },
            Response::AuthMessage { auth_message_type, auth_message } => ResponseView::AuthMessage {
                auth_message_type,
                auth_message: auth_message@,
            },
        }
    }
}

// ---------------------------------------------------------------------------
// Overwriting secrets
// ---------------------------------------------------------------------------

/// A text of `n` NUL characters.
pub open spec fn nuls(n: nat) -> Seq<char> {
    Seq::new(n, |i: int| '\0')
}

/// A buffer of `n` zero bytes.
pub open spec fn zeros(n: nat) -> Seq<u8> {
    Seq::new(n, |i: int| 0u8)
}

/// A request after its secret was overwritten: the answer to a prompt becomes
/// as many NUL characters as it had bytes; everything else stays.
pub open spec fn zeroed(req: RequestView) -> RequestView {
    match req {
        RequestView::PostAuthMessageResponse { response: Some(secret) } => {
            RequestView::PostAuthMessageResponse {
                response: Some(nuls(encode_utf8(secret).len())),
            }
        },
        other => other,
    }
}

/// Overwrites a text in place with NUL characters, one for each byte it held.
pub fn zero_string(value: &mut String)
    ensures
        final(value)@ == nuls(encode_utf8(old(value)@).len()),
{
    let n = value.as_str().as_bytes().len();
    value.clear();
    let mut i: usize = 0;
    while i < n
        invariant
            i <= n,
            value@ == nuls(i as nat),
        decreases n - i,
    {
        value.push('\0');
        assert(value@ == nuls((i + 1) as nat));
        i += 1;
    }
}

/// Overwrites the secret that a request carries, if it carries one.
pub fn zero_request(req: &mut Request)
    ensures
        final(req)@ == zeroed(old(req)@),
{
    match req {
        Request::PostAuthMessageResponse { response } => {
            match response {
                Some(value) => {
                    zero_string(value);
                },
                None => {},
            }
        },
        _ => {},
    }
}

/// Overwrites a buffer in place with zero bytes.
pub fn wipe(buffer: &mut Vec<u8>)
    ensures
        final(buffer)@ == zeros(old(buffer)@.len()),
{
    let n = buffer.len();
    let mut i: usize = 0;
    while i < n
        invariant
            i <= n,
            n == buffer.len(),
            forall|j: int| 0 <= j < i ==> buffer@[j] == 0,
        decreases n - i,
    {
        buffer.set(i, 0u8);
        i += 1;
    }
    assert(buffer@ =~= zeros(n as nat));
}

/// The bytes of an overwritten text are all zero.
pub proof fn lemma_nuls_are_zero_bytes(n: nat)
    ensures
        encode_utf8(nuls(n)) == zeros(n),
{
    assert(is_ascii_chars(nuls(n)));
    is_ascii_chars_encode_utf8(nuls(n));
    assert(encode_utf8(nuls(n)) =~= zeros(n));
}

/// No secret with a byte other than zero is found in a buffer once that
/// buffer was overwritten.
pub proof fn lemma_overwritten_holds_no_secret(secret: Seq<u8>, n: nat)
    requires
        exists|i: int| 0 <= i < secret.len() && secret[i] != 0,
    ensures
        !occurs(zeros(n), secret),
{
    let i = choose|i: int| 0 <= i < secret.len() && secret[i] != 0;
    assert forall|at: int| !crate::text::occurs_at(zeros(n), secret, at) by {
        if crate::text::occurs_at(zeros(n), secret, at) {
            assert(zeros(n).subrange(at, at + secret.len())[i] == secret[i]);
        }
    }
}

/// After [`zero_request`], the bytes of whatever answer the request still
/// holds do not contain the secret, unless the secret was empty or held
/// nothing but zero bytes.
pub proof fn lemma_zeroed_request_holds_no_secret(secret: Seq<char>)
    requires
        exists|i: int| 0 <= i < encode_utf8(secret).len() && encode_utf8(secret)[i] != 0,
    ensures
        zeroed(RequestView::PostAuthMessageResponse { response: Some(secret) })
            matches RequestView::PostAuthMessageResponse { response: Some(left) } && !occurs(
            encode_utf8(left),
            encode_utf8(secret),
        ),
{
    let n = encode_utf8(secret).len();
    lemma_nuls_are_zero_bytes(n);
    lemma_overwritten_holds_no_secret(encode_utf8(secret), n);
}

// ---------------------------------------------------------------------------
// Framing
// ---------------------------------------------------------------------------

/// The four bytes of `x`, least significant first.
pub open spec fn le_bytes(x: u32) -> Seq<u8> {
    seq![
        (x % 256) as u8,
        ((x / 256) % 256) as u8,
        ((x / 65536) % 256) as u8,
        (x / 16777216) as u8,
    ]
}

/// The four bytes of `x`, most significant first.
pub open spec fn be_bytes(x: u32) -> Seq<u8> {
    seq![
        (x / 16777216) as u8,
        ((x / 65536) % 256) as u8,
        ((x / 256) % 256) as u8,
        (x % 256) as u8,
    ]
}

/// `bytes` is `x` in the byte order of some machine: least or most
/// significant byte first.
pub open spec fn in_machine_order(x: u32, bytes: Seq<u8>) -> bool {
    bytes == le_bytes(x) || bytes == be_bytes(x)
}

/// Calls `u32::to_ne_bytes`: the bytes of `x` in this machine's order, which
/// is one of the two orders.
#[verifier::external_body]
fn length_prefix(x: u32) -> (bytes: [u8; 4])
    ensures
        in_machine_order(x, bytes@),
{
    x.to_ne_bytes()
}

/// Calls `u32::from_ne_bytes`: the number whose bytes in this machine's order
/// are `bytes`.
#[verifier::external_body]
fn prefixed_length(bytes: [u8; 4]) -> (x: u32)
    ensures
        in_machine_order(x, bytes@),
{
    u32::from_ne_bytes(bytes)
}

/// `frame` is `payload` behind its length prefix.
pub open spec fn is_frame_of(frame: Seq<u8>, payload: Seq<u8>) -> bool {
    &&& payload.len() <= u32::MAX
    &&& frame.len() == 4 + payload.len()
    &&& in_machine_order(payload.len() as u32, frame.subrange(0, 4))
    &&& frame.subrange(4, frame.len() as int) == payload
}

/// Puts the length prefix before a payload. A payload of 2^32 bytes or more
/// cannot be framed.
pub fn frame(payload: &Vec<u8>) -> (r: Result<Vec<u8>, AuthError>)
    ensures
        match r {
            Ok(f) => is_frame_of(f@, payload@),
            Err(e) => payload.len() > u32::MAX && e@ == pam_error_of("payload too large"@),
        },
{
    let n = payload.len();
    if n > 0xffff_ffff {
        return Err(AuthError::pam_error("payload too large"));
    }
    let prefix = length_prefix(n as u32);
    let mut out: Vec<u8> = Vec::new();
    out.push(prefix[0]);
    out.push(prefix[1]);
    out.push(prefix[2]);
    out.push(prefix[3]);
    assert(out@ == prefix@);
    let mut i: usize = 0;
    while i < n
        invariant
            i <= n,
            n == payload.len(),
            out@ == prefix@ + payload@.take(i as int),
        decreases n - i,
    {
        out.push(payload[i]);
        assert(payload@.take(i + 1) == payload@.take(i as int).push(payload@[i as int]));
        i += 1;
    }
    assert(payload@.take(n as int) == payload@);
    assert(out@.subrange(0, 4) == prefix@);
    assert(out@.subrange(4, out@.len() as int) == payload@);
    Ok(out)
}

/// The payload length that a length prefix announces.
pub fn frame_length(prefix: [u8; 4]) -> (n: u32)
    ensures
        in_machine_order(n, prefix@),
{
    prefixed_length(prefix)
}

} // verus!

//! The tunnel wire protocol: message kinds, payloads and the binary frame.
//!
//! ```text
//! ┌──────────┬──────────┬───────────┬──────────────────┐
//! │ Version  │  Type    │  Length   │     Payload      │
//! │ (1 byte) │ (1 byte) │ (4 bytes) │  (N bytes)       │
//! └──────────┴──────────┴───────────┴──────────────────┘
//! ```
//!
//! The length is big-endian. Payloads of the authentication and connection
//! messages are JSON documents, which the caller encodes and decodes; the
//! error message carries UTF-8 text, and ping, pong and close carry nothing.

use bytes::Buf;
use bytes::BufMut;
use bytes::BytesMut;
use vstd::prelude::*;
use vstd::string::*;
use vstd::utf8::*;

verus! {

/// Protocol version
pub const PROTOCOL_VERSION: u8 = 1;

/// Maximum payload size (16 MB)
pub const MAX_PAYLOAD_SIZE: u32 = 16 * 1024 * 1024;

/// Default control port
pub const DEFAULT_CONTROL_PORT: u16 = 6200;

/// Default public port (HTTP subdomain routing + dashboard)
pub const DEFAULT_PUBLIC_PORT: u16 = 6210;

/// Heartbeat interval in seconds
pub const HEARTBEAT_INTERVAL_SECS: u64 = 15;

/// Heartbeat timeout in seconds (5 missed heartbeats)
pub const HEARTBEAT_TIMEOUT_SECS: u64 = 90;

/// Stream type marker for proxied yamux streams
pub const STREAM_TYPE_PROXY: u8 = 0x00;

/// Stream type marker for heartbeat yamux streams
pub const STREAM_TYPE_HEARTBEAT: u8 = 0x01;

/// Length of the frame header: version, type and a four-byte length.
pub const HEADER_LEN: usize = 6;

// ─── Message types ───────────────────────────────────────────────

/// The kind of a protocol message, carried in the second header byte.
#[derive(Debug, Clone, Copy, PartialEq, Eq, Structural)]
pub enum MessageType {
    AuthReq,
    AuthRes,
    NewConn,
    Data,
    Ping,
    Pong,
    Close,
    Error,
    AcceptConn,
}

/// The byte that stands for each message kind on the wire.
pub open spec fn type_byte(t: MessageType) -> u8 {
    match t {
        MessageType::AuthReq => 0x01,
        MessageType::AuthRes => 0x02,
        MessageType::NewConn => 0x03,
        MessageType::Data => 0x04,
        MessageType::Ping => 0x05,
        MessageType::Pong => 0x06,
        MessageType::Close => 0x07,
        MessageType::Error => 0x08,
        MessageType::AcceptConn => 0x09,
    }
}

/// The message kind a byte stands for, if any.
pub open spec fn type_from_byte(b: u8) -> Option<MessageType> {
    if b == 0x01 {
        Some(MessageType::AuthReq)
    } else if b == 0x02 {
        Some(MessageType::AuthRes)
    } else if b == 0x03 {
        Some(MessageType::NewConn)
    } else if b == 0x04 {
        Some(MessageType::Data)
    } else if b == 0x05 {
        Some(MessageType::Ping)
    } else if b == 0x06 {
        Some(MessageType::Pong)
    } else if b == 0x07 {
        Some(MessageType::Close)
    } else if b == 0x08 {
        Some(MessageType::Error)
    } else if b == 0x09 {
        Some(MessageType::AcceptConn)
    } else {
        None
    }
}

/// Message kinds whose payload is a JSON document.
pub open spec fn is_json_kind(t: MessageType) -> bool {
    t == MessageType::AuthReq || t == MessageType::AuthRes || t == MessageType::NewConn || t
        == MessageType::AcceptConn
}

/// Errors of the framing layer.
#[derive(Debug, Clone, Copy, PartialEq, Eq, Structural)]
pub enum ProtocolError {
    /// The first header byte is not `PROTOCOL_VERSION`.
    VersionMismatch { got: u8 },
    /// The type byte names no message kind.
    UnknownMessageType { value: u8 },
    /// The payload is longer than `MAX_PAYLOAD_SIZE`.
    PayloadTooLarge { len: u64 },
    /// DATA frames are not messages and are never decoded as one.
    DataMessage,
}

impl MessageType {
    /// The wire byte of this kind.
    pub fn as_byte(self) -> (b: u8)
        ensures
            b == type_byte(self),
            self == MessageType::AuthReq ==> b == 0x01,
            self == MessageType::AuthRes ==> b == 0x02,
            self == MessageType::NewConn ==> b == 0x03,
            self == MessageType::Data ==> b == 0x04,
            self == MessageType::Ping ==> b == 0x05,
            self == MessageType::Pong ==> b == 0x06,
            self == MessageType::Close ==> b == 0x07,
            self == MessageType::Error ==> b == 0x08,
            self == MessageType::AcceptConn ==> b == 0x09,
    {
        match self {
            MessageType::AuthReq => 0x01,
            MessageType::AuthRes => 0x02,
            MessageType::NewConn => 0x03,
            MessageType::Data => 0x04,
            MessageType::Ping => 0x05,
            MessageType::Pong => 0x06,
            MessageType::Close => 0x07,
            MessageType::Error => 0x08,
            MessageType::AcceptConn => 0x09,
        }
    }

    /// The kind a wire byte stands for; bytes 0x01..=0x09 are known.
    pub fn try_from(value: u8) -> (r: Result<MessageType, ProtocolError>)
        ensures
            r matches Ok(t) ==> type_from_byte(value) == Some(t),
            r is Err <==> type_from_byte(value) is None,
            r is Err ==> r == Err::<MessageType, ProtocolError>(
                ProtocolError::UnknownMessageType { value },
            ),
    {
        match value {
            0x01 => Ok(MessageType::AuthReq),
            0x02 => Ok(MessageType::AuthRes),
            0x03 => Ok(MessageType::NewConn),
            0x04 => Ok(MessageType::Data),
            0x05 => Ok(MessageType::Ping),
            0x06 => Ok(MessageType::Pong),
            0x07 => Ok(MessageType::Close),
            0x08 => Ok(MessageType::Error),
            0x09 => Ok(MessageType::AcceptConn),
            _ => Err(ProtocolError::UnknownMessageType { value }),
        }
    }

    /// The payload of this kind is a JSON document.
    pub fn is_json(self) -> (r: bool)
        ensures
            r == is_json_kind(self),
    {
        match self {
            MessageType::AuthReq | MessageType::AuthRes | MessageType::NewConn
            | MessageType::AcceptConn => true,
            _ => false,
        }
    }
}

/// Every kind's byte maps back to the kind, and a byte maps to a kind
/// exactly when it is one of the nine known bytes, whose kind maps back to it.
pub proof fn lemma_type_byte_roundtrip(t: MessageType, b: u8)
    ensures
        type_from_byte(type_byte(t)) == Some(t),
        type_from_byte(b) is Some <==> 0x01 <= b <= 0x09,
        type_from_byte(b) matches Some(u) ==> type_byte(u) == b,
{
}

// ─── Message payloads ────────────────────────────────────────────

/// Authentication request from client
#[derive(Debug, Clone)]
pub struct AuthReq {
    pub client_id: String,
    pub token: String,
    pub version: Option<String>,
}

impl AuthReq {
    /// Check if the client version supports heartbeat and stream type markers.
    /// Legacy clients do not send a version field.
    pub fn supports_heartbeat(&self) -> (r: bool)
        ensures
            r == self.version is Some,
    {
        self.version.is_some()
    }
}

/// Authentication response from server
#[derive(Debug, Clone)]
pub struct AuthRes {
    pub success: bool,
    pub message: String,
    /// The public HTTP port
    pub public_port: Option<u16>,
    /// Assigned subdomain route (e.g. "my-app")
    pub assigned_route: Option<String>,
}

/// Server notifying client of a new incoming connection.
/// The connection id is a UUID, held as its 128-bit value.
#[derive(Debug, Clone)]
pub struct NewConn {
    pub conn_id: u128,
}

/// Client accepting a connection (sent on a new TCP stream).
/// The connection id is a UUID, held as its 128-bit value.
#[derive(Debug, Clone)]
pub struct AcceptConn {
    pub conn_id: u128,
    pub client_id: String,
}

/// A control message.
#[derive(Debug, Clone)]
pub enum Message {
    AuthReq(AuthReq),
    AuthRes(AuthRes),
    NewConn(NewConn),
    AcceptConn(AcceptConn),
    Ping,
    Pong,
    Close,
    Error(String),
}

/// The bytes that carry a text payload: its UTF-8 encoding.
pub open spec fn text_payload(text: Seq<char>) -> Seq<u8> {
    encode_utf8(text)
}

/// What `String::from_utf8_lossy` makes of a byte sequence.
pub uninterp spec fn lossy_utf8(bytes: Seq<u8>) -> Seq<char>;

/// The text carried by a payload: the decoded characters for valid UTF-8,
/// otherwise the lossy reading.
pub open spec fn payload_text(bytes: Seq<u8>) -> Seq<char> {
    if valid_utf8(bytes) {
        decode_utf8(bytes)
    } else {
        lossy_utf8(bytes)
    }
}

/// Reads a byte sequence as text with `String::from_utf8_lossy`, whose
/// documentation says that valid UTF-8 comes back unchanged (invalid
/// sequences become U+FFFD; that part is only named here).
#[verifier::external_body]
fn utf8_lossy(bytes: &[u8]) -> (s: String)
    ensures
        s@ == lossy_utf8(bytes@),
        valid_utf8(bytes@) ==> s@ == decode_utf8(bytes@),
{
    String::from_utf8_lossy(bytes).to_string()
}

/// The kind and the text of a message whose payload is not JSON
/// (ping, pong, close and error); `None` for the JSON kinds.
pub open spec fn plain_view(m: Message) -> Option<(MessageType, Seq<char>)> {
    match m {
        Message::Ping => Some((MessageType::Ping, Seq::empty())),
        Message::Pong => Some((MessageType::Pong, Seq::empty())),
        Message::Close => Some((MessageType::Close, Seq::empty())),
        Message::Error(s) => Some((MessageType::Error, s@)),
        _ => None,
    }
}

/// The kind of a message.
pub open spec fn kind_of(m: Message) -> MessageType {
    match m {
        Message::AuthReq(_) => MessageType::AuthReq,
        Message::AuthRes(_) => MessageType::AuthRes,
        Message::NewConn(_) => MessageType::NewConn,
        Message::AcceptConn(_) => MessageType::AcceptConn,
        Message::Ping => MessageType::Ping,
        Message::Pong => MessageType::Pong,
        Message::Close => MessageType::Close,
        Message::Error(_) => MessageType::Error,
    }
}

/// The payload of a message that is not JSON; `None` for the JSON kinds.
pub open spec fn plain_payload(m: Message) -> Option<Seq<u8>> {
    match m {
        Message::Error(s) => Some(text_payload(s@)),
        Message::Ping | Message::Pong | Message::Close => Some(Seq::empty()),
        _ => None,
    }
}

/// How a payload of the given kind decodes, short of JSON: JSON kinds give
/// `Ok(None)` (the caller parses them), DATA is refused, the others give
/// their kind and text.
pub open spec fn plain_decode(t: MessageType, payload: Seq<u8>) -> Result<
    Option<(MessageType, Seq<char>)>,
    ProtocolError,
> {
    match t {
        MessageType::Data => Err(ProtocolError::DataMessage),
        MessageType::Error => Ok(Some((MessageType::Error, payload_text(payload)))),
        MessageType::Ping => Ok(Some((MessageType::Ping, Seq::empty()))),
        MessageType::Pong => Ok(Some((MessageType::Pong, Seq::empty()))),
        MessageType::Close => Ok(Some((MessageType::Close, Seq::empty()))),
        _ => Ok(None),
    }
}

impl Message {
    /// Get the message type byte
    pub fn msg_type(&self) -> (t: MessageType)
        ensures
            t == kind_of(*self),
            *self is AuthReq ==> t == MessageType::AuthReq,
            *self is AuthRes ==> t == MessageType::AuthRes,
            *self is NewConn ==> t == MessageType::NewConn,
            *self is AcceptConn ==> t == MessageType::AcceptConn,
            *self is Ping ==> t == MessageType::Ping,
            *self is Pong ==> t == MessageType::Pong,
            *self is Close ==> t == MessageType::Close,
            *self is Error ==> t == MessageType::Error,
    {
        proof {
            lemma_message_kind(*self);
        }
        match self {
            Message::AuthReq(_) => MessageType::AuthReq,
            Message::AuthRes(_) => MessageType::AuthRes,
            Message::NewConn(_) => MessageType::NewConn,
            Message::AcceptConn(_) => MessageType::AcceptConn,
            Message::Ping => MessageType::Ping,
            Message::Pong => MessageType::Pong,
            Message::Close => MessageType::Close,
            Message::Error(_) => MessageType::Error,
        }
    }

    /// The payload bytes of a message that is not JSON: the UTF-8 text of an
    /// error, nothing for ping, pong and close. `None` for the JSON kinds,
    /// whose payload the caller serializes.
    pub fn encode_payload(&self) -> (r: Option<Vec<u8>>)
        ensures
            r is Some <==> plain_payload(*self) is Some,
            r matches Some(v) ==> v@ == plain_payload(*self).unwrap(),
    {
        match self {
            Message::Error(msg) => Some(msg.as_str().as_bytes_vec()),
            Message::Ping | Message::Pong | Message::Close => Some(Vec::new()),
            _ => None,
        }
    }

    /// Decode a payload of the given kind: ping, pong, close and error are
    /// decoded here (error text is read as lossy UTF-8); for the JSON kinds
    /// the answer is `Ok(None)` and the caller parses the document; DATA is
    /// refused.
    pub fn decode(msg_type: MessageType, payload: &[u8]) -> (r: Result<Option<Message>, ProtocolError>)
        ensures
            match r {
                Ok(Some(m)) => plain_view(m) is Some && plain_decode(msg_type, payload@) == Ok::<
                    Option<(MessageType, Seq<char>)>,
                    ProtocolError,
                >(plain_view(m)),
                Ok(None) => plain_decode(msg_type, payload@) == Ok::<
                    Option<(MessageType, Seq<char>)>,
                    ProtocolError,
                >(None),
                Err(e) => plain_decode(msg_type, payload@) == Err::<
                    Option<(MessageType, Seq<char>)>,
                    ProtocolError,
                >(e),
            },
    {
        match msg_type {
            MessageType::Error => Ok(Some(Message::Error(utf8_lossy(payload)))),
            MessageType::Ping => Ok(Some(Message::Ping)),
            MessageType::Pong => Ok(Some(Message::Pong)),
            MessageType::Close => Ok(Some(Message::Close)),
            MessageType::Data => Err(ProtocolError::DataMessage),
            _ => Ok(None),
        }
    }
}

/// Every message is framed under its own kind: the kind of a message is the
/// one its variant names, and the frame's type byte is that kind's wire byte
/// (`AuthReq` 0x01, `AuthRes` 0x02, `NewConn` 0x03, `Ping` 0x05, `Pong`
/// 0x06, `Close` 0x07, `Error` 0x08, `AcceptConn` 0x09). In particular a
/// `NewConn` is never framed as an `AcceptConn`, nor the other way round.
pub proof fn lemma_message_kind(m: Message)
    ensures
        m is AuthReq <==> kind_of(m) == MessageType::AuthReq,
        m is AuthRes <==> kind_of(m) == MessageType::AuthRes,
        m is NewConn <==> kind_of(m) == MessageType::NewConn,
        m is AcceptConn <==> kind_of(m) == MessageType::AcceptConn,
        m is Ping <==> kind_of(m) == MessageType::Ping,
        m is Pong <==> kind_of(m) == MessageType::Pong,
        m is Close <==> kind_of(m) == MessageType::Close,
        m is Error <==> kind_of(m) == MessageType::Error,
        kind_of(m) != MessageType::Data,
        m is AuthReq ==> type_byte(kind_of(m)) == 0x01,
        m is AuthRes ==> type_byte(kind_of(m)) == 0x02,
        m is NewConn ==> type_byte(kind_of(m)) == 0x03,
        m is Ping ==> type_byte(kind_of(m)) == 0x05,
        m is Pong ==> type_byte(kind_of(m)) == 0x06,
        m is Close ==> type_byte(kind_of(m)) == 0x07,
        m is Error ==> type_byte(kind_of(m)) == 0x08,
        m is AcceptConn ==> type_byte(kind_of(m)) == 0x09,
{
}

/// A message that is not JSON decodes, from its own payload, to its own kind
/// and text.
pub proof fn lemma_plain_message_roundtrip(m: Message)
    requires
        plain_payload(m) is Some,
    ensures
        plain_view(m) is Some,
        plain_decode(kind_of(m), plain_payload(m).unwrap()) == Ok::<
            Option<(MessageType, Seq<char>)>,
            ProtocolError,
        >(plain_view(m)),
{
    if let Message::Error(s) = m {
        encode_utf8_valid_utf8(s@);
        encode_utf8_decode_utf8(s@);
    }
}

// ─── Frames ──────────────────────────────────────────────────────

/// The four big-endian bytes of a 32-bit number.
pub open spec fn u32_be(n: u32) -> Seq<u8> {
    seq![
        (n / 0x1000000) as u8,
        ((n / 0x10000) % 0x100) as u8,
        ((n / 0x100) % 0x100) as u8,
        (n % 0x100) as u8,
    ]
}

/// The number that four big-endian bytes stand for.
pub open spec fn be_value(b: Seq<u8>) -> int {
    b[0] * 0x1000000 + b[1] * 0x10000 + b[2] * 0x100 + b[3]
}

/// A whole frame: version, kind byte, big-endian payload length, payload.
pub open spec fn frame_bytes(t: MessageType, payload: Seq<u8>) -> Seq<u8> {
    seq![PROTOCOL_VERSION, type_byte(t)] + u32_be(payload.len() as u32) + payload
}

/// A decoded frame header.
#[derive(Debug, Clone, Copy, PartialEq, Eq, Structural)]
pub struct FrameHeader {
    pub msg_type: MessageType,
    pub payload_len: u32,
}

/// What a six-byte header decodes to: the version is checked first, then the
/// kind byte, then the length against `MAX_PAYLOAD_SIZE`.
pub open spec fn header_result(h: Seq<u8>) -> Result<FrameHeader, ProtocolError> {
    if h[0] != PROTOCOL_VERSION {
        Err(ProtocolError::VersionMismatch { got: h[0] })
    } else {
        match type_from_byte(h[1]) {
            None => Err(ProtocolError::UnknownMessageType { value: h[1] }),
            Some(t) => {
                let len = be_value(h.subrange(2, 6));
                if len > MAX_PAYLOAD_SIZE {
                    Err(ProtocolError::PayloadTooLarge { len: len as u64 })
                } else {
                    Ok(FrameHeader { msg_type: t, payload_len: len as u32 })
                }
            },
        }
    }
}

#[verifier::external_type_specification]
#[verifier::external_body]
pub struct ExBytesMut(BytesMut);

/// The bytes held in a `BytesMut`, in order.
pub uninterp spec fn bytes_mut_contents(b: BytesMut) -> Seq<u8>;

/// `BytesMut::with_capacity`: an empty buffer.
#[verifier::external_body]
fn bytes_with_capacity(capacity: usize) -> (b: BytesMut)
    ensures
        bytes_mut_contents(b) == Seq::<u8>::empty(),
{
    BytesMut::with_capacity(capacity)
}

/// `BufMut::put_u8` on a `BytesMut`: appends one byte (the buffer grows; it
/// panics only if its length would overflow).
#[verifier::external_body]
fn bytes_put_u8(b: &mut BytesMut, n: u8)
    requires
        bytes_mut_contents(*old(b)).len() + 1 <= isize::MAX,
    ensures
        bytes_mut_contents(*final(b)) == bytes_mut_contents(*old(b)).push(n),
{
    b.put_u8(n);
}

/// `BufMut::put_u32` on a `BytesMut`: appends the number in big-endian byte order.
#[verifier::external_body]
fn bytes_put_u32(b: &mut BytesMut, n: u32)
    requires
        bytes_mut_contents(*old(b)).len() + 4 <= isize::MAX,
    ensures
        bytes_mut_contents(*final(b)) == bytes_mut_contents(*old(b)) + u32_be(n),
{
    b.put_u32(n);
}

/// `BufMut::put_slice` on a `BytesMut`: appends the slice.
#[verifier::external_body]
fn bytes_put_slice(b: &mut BytesMut, src: &[u8])
    requires
        bytes_mut_contents(*old(b)).len() + src@.len() <= isize::MAX,
    ensures
        bytes_mut_contents(*final(b)) == bytes_mut_contents(*old(b)) + src@,
{
    b.put_slice(src);
}

/// `Vec::<u8>::from(BytesMut)`: the same bytes as a vector.
#[verifier::external_body]
fn bytes_into_vec(b: BytesMut) -> (v: Vec<u8>)
    ensures
        v@ == bytes_mut_contents(b),
{
    Vec::from(b)
}

/// `Buf::get_u8` on the slice that starts at `pos`: the byte there.
#[verifier::external_body]
fn buf_get_u8(bytes: &[u8], pos: usize) -> (r: u8)
    requires
        pos < bytes@.len(),
    ensures
        r == bytes@[pos as int],
{
    let mut b = &bytes[pos..];
    b.get_u8()
}

/// `Buf::get_u32` on the slice that starts at `pos`: the big-endian number
/// in the four bytes there.
#[verifier::external_body]
fn buf_get_u32(bytes: &[u8], pos: usize) -> (r: u32)
    requires
        pos + 4 <= bytes@.len(),
    ensures
        r as int == be_value(bytes@.subrange(pos as int, pos + 4)),
{
    let mut b = &bytes[pos..];
    b.get_u32()
}

/// Frame a payload of the given kind: refused when the payload is longer
/// than `MAX_PAYLOAD_SIZE`, otherwise the header followed by the payload.
pub fn encode_frame(msg_type: MessageType, payload: &[u8]) -> (r: Result<Vec<u8>, ProtocolError>)
    ensures
        payload@.len() <= MAX_PAYLOAD_SIZE ==> (r matches Ok(v) && v@ == frame_bytes(
            msg_type,
            payload@,
        )),
        payload@.len() > MAX_PAYLOAD_SIZE ==> r == Err::<Vec<u8>, ProtocolError>(
            ProtocolError::PayloadTooLarge { len: payload@.len() as u64 },
        ),
{
    if payload.len() > MAX_PAYLOAD_SIZE as usize {
        return Err(ProtocolError::PayloadTooLarge { len: payload.len() as u64 });
    }
    let payload_len = payload.len() as u32;
    let mut buf = bytes_with_capacity(HEADER_LEN + payload.len());
    bytes_put_u8(&mut buf, PROTOCOL_VERSION);
    bytes_put_u8(&mut buf, msg_type.as_byte());
    bytes_put_u32(&mut buf, payload_len);
    bytes_put_slice(&mut buf, payload);
    let v = bytes_into_vec(buf);
    assert(v@ =~= frame_bytes(msg_type, payload@));
    Ok(v)
}

/// Decode a frame header: a wrong version, an unknown kind byte or an
/// oversized length is refused, in that order.
pub fn parse_header(header: &[u8; 6]) -> (r: Result<FrameHeader, ProtocolError>)
    ensures
        r == header_result(header@),
{
    let bytes = header.as_slice();
    let version = buf_get_u8(bytes, 0);
    let msg_type_byte = buf_get_u8(bytes, 1);
    let payload_len = buf_get_u32(bytes, 2);
    if version != PROTOCOL_VERSION {
        return Err(ProtocolError::VersionMismatch { got: version });
    }
    let msg_type = MessageType::try_from(msg_type_byte)?;
    if payload_len > MAX_PAYLOAD_SIZE {
        return Err(ProtocolError::PayloadTooLarge { len: payload_len as u64 });
    }
    Ok(FrameHeader { msg_type, payload_len })
}

/// Big-endian bytes read back as the number they were made from.
pub proof fn lemma_be_roundtrip(n: u32)
    ensures
        be_value(u32_be(n)) == n,
{
    let a = n / 0x1000000;
    let b = (n / 0x10000) % 0x100;
    let c = (n / 0x100) % 0x100;
    let d = n % 0x100;
    assert(a * 0x1000000 + b * 0x10000 + c * 0x100 + d == n) by (nonlinear_arith)
        requires
            a == n / 0x1000000,
            b == (n / 0x10000) % 0x100,
            c == (n / 0x100) % 0x100,
            d == n % 0x100,
            0 <= n < 0x100000000,
    ;
}

/// What a frame's header decodes to is the kind and length it was written
/// with, and the payload follows the header unchanged.
pub proof fn lemma_frame_roundtrip(t: MessageType, payload: Seq<u8>)
    requires
        payload.len() <= MAX_PAYLOAD_SIZE,
    ensures
        header_result(frame_bytes(t, payload).take(HEADER_LEN as int)) == Ok::<
            FrameHeader,
            ProtocolError,
        >(FrameHeader { msg_type: t, payload_len: payload.len() as u32 }),
        frame_bytes(t, payload).skip(HEADER_LEN as int) == payload,
{
    let f = frame_bytes(t, payload);
    lemma_be_roundtrip(payload.len() as u32);
    assert(f.take(6).subrange(2, 6) =~= u32_be(payload.len() as u32));
    assert(f.skip(6) =~= payload);
}

} // verus!

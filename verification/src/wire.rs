//! Length-prefixed wire protocol for chat messages.
//!
//! Wire format:
//!   [4-byte big-endian u32 payload length][UTF-8 JSON payload]
//!
//! Payload JSON schema:
//!   {"type":"chat|system|ping|pong","name":"...","text":"..."}
//!
//! The JSON of a payload is written and read by [`crate::payload`].
use vstd::prelude::*;
use vstd::utf8::*;

use crate::error::{wire_error, ChatError, ErrorView};
use crate::io::{io_result, Outcome};
use crate::io;
use crate::json;
use crate::payload;
use crate::payload::payload_of;
use crate::text;

verus! {

/// Maximum payload size: 16 KB.
pub const MAX_PAYLOAD_BYTES: usize = 16 * 1024;

/// Wire-level message type.
#[derive(Debug, Clone, Copy, PartialEq, Eq, Structural)]
pub enum MessageType {
    /// Regular chat message.
    Chat,
    /// System / meta message.
    System,
    /// Liveness ping.
    Ping,
    /// Liveness pong.
    Pong,
}

/// Wire-level message exchanged between peers and hub.
#[derive(Debug)]
pub struct WireMessage {
    pub kind: MessageType,
    pub name: String,
    pub text: String,
}

/// A [`WireMessage`] with its texts as characters.
#[verifier::ext_equal]
pub struct WireView {
    pub kind: MessageType,
    pub name: Seq<char>,
    pub text: Seq<char>,
}

impl View for WireMessage {
    type V = WireView;

    open spec fn view(&self) -> WireView {
        WireView { kind: self.kind, name: self.name@, text: self.text@ }
    }
}

impl Clone for WireMessage {
    fn clone(&self) -> (r: Self)
        ensures
            r@ == self@,
    {
        WireMessage { kind: self.kind, name: self.name.clone(), text: self.text.clone() }
    }
}

impl WireMessage {
    /// Create a chat message.
    pub fn chat(name: &str, text: &str) -> (m: Self)
        ensures
            m@ == (WireView { kind: MessageType::Chat, name: name@, text: text@ }),
    {
        WireMessage { kind: MessageType::Chat, name: name.to_owned(), text: text.to_owned() }
    }

    /// Create a system message.
    pub fn system(text: &str) -> (m: Self)
        ensures
            m@ == (WireView { kind: MessageType::System, name: Seq::empty(), text: text@ }),
    {
        WireMessage { kind: MessageType::System, name: String::new(), text: text.to_owned() }
    }

    /// Create a ping.
    pub fn ping() -> (m: Self)
        ensures
            m@ == (WireView { kind: MessageType::Ping, name: Seq::empty(), text: Seq::empty() }),
    {
        WireMessage { kind: MessageType::Ping, name: String::new(), text: String::new() }
    }

    /// Create a pong.
    pub fn pong() -> (m: Self)
        ensures
            m@ == (WireView { kind: MessageType::Pong, name: Seq::empty(), text: Seq::empty() }),
    {
        WireMessage { kind: MessageType::Pong, name: String::new(), text: String::new() }
    }
}

// ---------------------------------------------------------------------------
// Frames
// ---------------------------------------------------------------------------

/// The four bytes of a number, most significant first.
pub open spec fn big_endian(n: nat) -> Seq<u8> {
    seq![
        (n / 0x1000000 % 256) as u8,
        (n / 0x10000 % 256) as u8,
        (n / 0x100 % 256) as u8,
        (n % 256) as u8,
    ]
}

/// The number that the first four bytes stand for.
pub open spec fn header_value(data: Seq<u8>) -> nat {
    (data[0] * 0x1000000 + data[1] * 0x10000 + data[2] * 0x100 + data[3]) as nat
}

/// A payload with its length in front.
pub open spec fn frame(payload: Seq<u8>) -> Seq<u8> {
    big_endian(payload.len()) + payload
}

/// What is wrong with the length in a header, if anything.
pub open spec fn length_fault(len: nat) -> Option<ErrorView> {
    if len == 0 {
        Some(ErrorView::Wire("zero-length payload"@))
    } else if len > MAX_PAYLOAD_BYTES {
        Some(ErrorView::OversizedMessage { size: len as usize, limit: MAX_PAYLOAD_BYTES })
    } else {
        None
    }
}

/// The payload of the frame at the front of some bytes.
pub open spec fn unframe(data: Seq<u8>) -> Result<Seq<u8>, ErrorView> {
    if data.len() < 4 {
        Err(ErrorView::Wire("payload too short for header"@))
    } else if length_fault(header_value(data)) is Some {
        Err(length_fault(header_value(data)).unwrap())
    } else if data.len() < 4 + header_value(data) {
        Err(ErrorView::Wire("truncated payload"@))
    } else {
        Ok(data.subrange(4, 4 + header_value(data) as int))
    }
}

/// The view of a result that holds bytes.
pub open spec fn bytes_result(r: Result<Vec<u8>, ChatError>) -> Result<Seq<u8>, ErrorView> {
    match r {
        Ok(v) => Ok(v@),
        Err(e) => Err(e@),
    }
}

/// Checks the length that a header announces.
pub fn payload_len(header: [u8; 4]) -> (r: Result<usize, ChatError>)
    ensures
        match length_fault(header_value(header@)) {
            None => r == Ok::<usize, ChatError>(header_value(header@) as usize),
            Some(fault) => r matches Err(e) && e@ == fault,
        },
        header_value(header@) <= u32::MAX,
{
    let len: usize = (header[0] as usize) * 0x1000000 + (header[1] as usize) * 0x10000 + (
    header[2] as usize) * 0x100 + (header[3] as usize);
    if len == 0 {
        return Err(wire_error("zero-length payload"));
    }
    if len > MAX_PAYLOAD_BYTES {
        return Err(ChatError::OversizedMessage { size: len, limit: MAX_PAYLOAD_BYTES });
    }
    Ok(len)
}

/// A payload with its length in front, unless it is too long.
pub open spec fn framed(payload: Seq<u8>) -> Result<Seq<u8>, ErrorView> {
    if payload.len() > MAX_PAYLOAD_BYTES {
        Err(
            ErrorView::OversizedMessage { size: payload.len() as usize, limit: MAX_PAYLOAD_BYTES },
        )
    } else {
        Ok(frame(payload))
    }
}

/// Puts the length in front of a payload. Returns an error if the payload exceeds
/// `MAX_PAYLOAD_BYTES`.
pub fn frame_payload(payload: &[u8]) -> (r: Result<Vec<u8>, ChatError>)
    ensures
        bytes_result(r) == framed(payload@),
{
    let len: usize = payload.len();
    if len > MAX_PAYLOAD_BYTES {
        return Err(ChatError::OversizedMessage { size: len, limit: MAX_PAYLOAD_BYTES });
    }
    let mut out: Vec<u8> = Vec::new();
    out.push((len / 0x1000000 % 256) as u8);
    out.push((len / 0x10000 % 256) as u8);
    out.push((len / 0x100 % 256) as u8);
    out.push((len % 256) as u8);
    assert(out@ =~= big_endian(payload@.len()));
    out.extend_from_slice(payload);
    assert(out@ =~= frame(payload@));
    Ok(out)
}

/// Takes the payload out of the frame at the front of some bytes.
pub fn take_payload(data: &[u8]) -> (r: Result<Vec<u8>, ChatError>)
    ensures
        bytes_result(r) == unframe(data@),
{
    if data.len() < 4 {
        return Err(wire_error("payload too short for header"));
    }
    let header: [u8; 4] = [data[0], data[1], data[2], data[3]];
    assert(header_value(header@) == header_value(data@));
    let len: usize = match payload_len(header) {
        Ok(n) => n,
        Err(e) => return Err(e),
    };
    if data.len() - 4 < len {
        return Err(wire_error("truncated payload"));
    }
    let mut payload: Vec<u8> = Vec::new();
    payload.extend_from_slice(&data[4..4 + len]);
    assert(payload@ =~= data@.subrange(4, 4 + len as int));
    Ok(payload)
}

// ---------------------------------------------------------------------------
// Messages
// ---------------------------------------------------------------------------

/// The error for a payload that is not a message.
pub open spec fn decode_fault(reason: Seq<char>) -> ErrorView {
    ErrorView::Wire("json decode failed: "@ + reason)
}

/// The message in a payload, or why there is none.
pub open spec fn message_of(payload: Seq<u8>) -> Result<WireView, ErrorView> {
    match payload::message_read(payload) {
        Ok(m) => Ok(m),
        Err(reason) => Err(decode_fault(reason)),
    }
}

/// The view of a result that holds a message.
pub open spec fn message_result(r: Result<WireMessage, ChatError>) -> Result<
    WireView,
    ErrorView,
> {
    match r {
        Ok(m) => Ok(m@),
        Err(e) => Err(e@),
    }
}

/// Whether some bytes begin with the frame of a message.
pub open spec fn carries(data: Seq<u8>, m: WireView) -> bool {
    &&& 0 < payload_of(m).len() <= MAX_PAYLOAD_BYTES
    &&& data.len() >= frame(payload_of(m)).len()
    &&& data.take(frame(payload_of(m)).len() as int) == frame(payload_of(m))
}

/// Whether some bytes are the beginning of the frame of a message, and not all of it.
pub open spec fn is_cut_short(data: Seq<u8>, m: WireView) -> bool {
    &&& 0 < payload_of(m).len() <= MAX_PAYLOAD_BYTES
    &&& data.len() < frame(payload_of(m)).len()
    &&& data == frame(payload_of(m)).take(data.len() as int)
}

/// Encode a `WireMessage` into length-prefixed bytes.
///
/// Returns the 4-byte header + JSON payload.
/// Returns an error if the JSON payload exceeds `MAX_PAYLOAD_BYTES`.
pub fn encode_message(msg: &WireMessage) -> (r: Result<Vec<u8>, ChatError>)
    ensures
        bytes_result(r) == framed(payload_of(msg@)),
        r matches Ok(f) ==> carries(f@, msg@),
{
    let written = payload::write_message(msg);
    let r = frame_payload(written.as_str().as_bytes());
    proof {
        let f = frame(payload_of(msg@));
        assert(f.take(f.len() as int) =~= f);
    }
    r
}

/// Decode a length-prefixed message from raw bytes.
///
/// Expects the full frame (header + payload); what follows it is not looked at. What
/// [`encode_message`] wrote is read back, and no proper beginning of it is.
pub fn decode_message(data: &[u8]) -> (r: Result<WireMessage, ChatError>)
    ensures
        message_result(r) == match unframe(data@) {
            Err(e) => Err(e),
            Ok(payload) => message_of(payload),
        },
        forall|m: WireView| #[trigger] carries(data@, m) ==> message_result(r) == Ok::<
            WireView,
            ErrorView,
        >(m),
        forall|m: WireView| #[trigger]
            is_cut_short(data@, m) ==> (r matches Err(e) && e@ is Wire),
{
    let payload = match take_payload(data) {
        Ok(p) => p,
        Err(e) => {
            proof {
                lemma_carried(data@);
            }
            return Err(e);
        },
    };
    proof {
        lemma_carried(data@);
        assert forall|m: WireView| #[trigger] carries(data@, m) implies payload@ == payload_of(
            m,
        ) by {}
    }
    match payload::read_message(payload.as_slice()) {
        Ok(m) => Ok(m),
        Err(reason) => Err(
            ChatError::Wire(text::concat2("json decode failed: ", reason.as_str())),
        ),
    }
}

proof fn lemma_carried(data: Seq<u8>)
    ensures
        forall|m: WireView| #[trigger]
            carries(data, m) ==> unframe(data) == Ok::<Seq<u8>, ErrorView>(payload_of(m)),
        forall|m: WireView| #[trigger]
            is_cut_short(data, m) ==> (unframe(data) matches Err(ErrorView::Wire(_))),
{
    assert forall|m: WireView| #[trigger] carries(data, m) implies unframe(data) == Ok::<
        Seq<u8>,
        ErrorView,
    >(payload_of(m)) by {
        let f = frame(payload_of(m));
        let rest = data.skip(f.len() as int);
        assert(data =~= f + rest);
        frame_round_trip(payload_of(m), rest);
    }
    assert forall|m: WireView| #[trigger] is_cut_short(data, m) implies (unframe(
        data,
    ) matches Err(ErrorView::Wire(_))) by {
        frame_prefix_refused(payload_of(m), data.len() as int);
    }
}

// ---------------------------------------------------------------------------
// Reading and writing
// ---------------------------------------------------------------------------

/// The first half of reading a frame: the header was read, or reading it failed.
/// The length returned is how many bytes to read next.
pub fn read_header(read: Result<[u8; 4], String>) -> (r: Result<usize, ChatError>)
    ensures
        match read {
            Err(reason) => r matches Err(e) && e@ == ErrorView::Wire(
                "header read failed: "@ + reason@,
            ),
            Ok(header) => match length_fault(header_value(header@)) {
                None => r == Ok::<usize, ChatError>(header_value(header@) as usize),
                Some(fault) => r matches Err(e) && e@ == fault,
            },
        },
{
    match read {
        Err(reason) => Err(ChatError::Wire(text::concat2("header read failed: ", reason.as_str()))),
        Ok(header) => payload_len(header),
    }
}

/// The frame of a payload that was read, if the payload is UTF-8 and JSON.
pub open spec fn checked(header: Seq<u8>, payload: Seq<u8>, is_json: bool) -> Result<
    Seq<u8>,
    ErrorView,
> {
    if !valid_utf8(payload) {
        Err(ErrorView::Wire("payload is not valid UTF-8"@))
    } else if !is_json {
        Err(ErrorView::Wire("payload is not valid JSON"@))
    } else {
        Ok(header + payload)
    }
}

/// Puts a payload that was read behind its header, if it is UTF-8 and JSON.
pub fn checked_frame(header: [u8; 4], payload: &Vec<u8>, is_json: bool) -> (r: Result<
    Vec<u8>,
    ChatError,
>)
    ensures
        bytes_result(r) == checked(header@, payload@, is_json),
{
    match text::utf8_text(payload.as_slice()) {
        None => return Err(wire_error("payload is not valid UTF-8")),
        Some(_) => {},
    }
    if !is_json {
        return Err(wire_error("payload is not valid JSON"));
    }
    let mut out: Vec<u8> = Vec::new();
    out.push(header[0]);
    out.push(header[1]);
    out.push(header[2]);
    out.push(header[3]);
    assert(out@ =~= header@);
    out.extend_from_slice(payload.as_slice());
    assert(out@ =~= header@ + payload@);
    Ok(out)
}

/// What reading a payload gives, once its header is accepted.
pub open spec fn frame_read(header: Seq<u8>, read: Result<Vec<u8>, String>) -> Result<
    Seq<u8>,
    ErrorView,
> {
    match read {
        Err(reason) => Err(ErrorView::Wire("payload read failed: "@ + reason@)),
        Ok(payload) => checked(header, payload@, json::json_fault(payload@) is None),
    }
}

/// The second half of reading a frame: the payload that the header announces was
/// read, or reading it failed. Returns the whole frame, header included. Returns an
/// error on invalid UTF-8 or malformed JSON.
pub fn read_frame(header: [u8; 4], read: Result<Vec<u8>, String>) -> (r: Result<
    Vec<u8>,
    ChatError,
>)
    ensures
        bytes_result(r) == frame_read(header@, read),
        forall|m: WireView|
            header@ + (read->Ok_0)@ == #[trigger] frame(payload_of(m)) && read is Ok
                ==> bytes_result(r) == Ok::<Seq<u8>, ErrorView>(frame(payload_of(m))),
{
    let payload = match read {
        Err(reason) => {
            return Err(ChatError::Wire(text::concat2("payload read failed: ", reason.as_str())));
        },
        Ok(payload) => payload,
    };
    let is_json = json::find_fault(payload.as_slice()).is_none();
    proof {
        assert forall|m: WireView|
            header@ + payload@ == #[trigger] frame(payload_of(m)) implies is_json && payload@
            == payload_of(m) && valid_utf8(payload@) by {
            let f = frame(payload_of(m));
            assert(f.skip(4) =~= payload_of(m));
            assert((header@ + payload@).skip(4) =~= payload@);
            let written = json::object_text(payload::message_fields(m));
            assert(payload@ == encode_utf8(written));
            encode_utf8_valid_utf8(written);
        }
    }
    checked_frame(header, &payload, is_json)
}

/// Read and decode a complete message.
pub fn read_message(header: [u8; 4], read: Result<Vec<u8>, String>) -> (r: Result<
    WireMessage,
    ChatError,
>)
    ensures
        message_result(r) == match frame_read(header@, read) {
            Err(e) => Err(e),
            Ok(f) => match unframe(f) {
                Err(e) => Err(e),
                Ok(payload) => message_of(payload),
            },
        },
{
    match read_frame(header, read) {
        Ok(f) => decode_message(f.as_slice()),
        Err(e) => Err(e),
    }
}

/// What came of waiting for the next message of a peer.
#[derive(Debug)]
pub enum FrameRead {
    /// No frame arrived in time.
    TimedOut,
    /// No frame could be read.
    Broken(ChatError),
    /// A frame arrived whose payload is not a message.
    Malformed(ChatError),
    /// A message arrived.
    Message(WireMessage),
}

/// What came of reading a frame, by its header and its payload: it could not be read,
/// or it holds no message, or it holds one.
pub fn received(header: [u8; 4], read: Result<Vec<u8>, String>) -> (r: FrameRead)
    ensures
        match frame_read(header@, read) {
            Err(fault) => r matches FrameRead::Broken(e) && e@ == fault,
            Ok(f) => match unframe(f) {
                Err(fault) => r matches FrameRead::Malformed(e) && e@ == fault,
                Ok(payload) => match message_of(payload) {
                    Err(fault) => r matches FrameRead::Malformed(e) && e@ == fault,
                    Ok(message) => r matches FrameRead::Message(m) && m@ == message,
                },
            },
        },
        forall|m: WireView|
            header@ + (read->Ok_0)@ == #[trigger] frame(payload_of(m)) && read is Ok && carries(
                frame(payload_of(m)),
                m,
            ) ==> (r matches FrameRead::Message(x) && x@ == m),
{
    match read_frame(header, read) {
        Err(e) => FrameRead::Broken(e),
        Ok(f) => match decode_message(f.as_slice()) {
            Err(e) => FrameRead::Malformed(e),
            Ok(m) => FrameRead::Message(m),
        },
    }
}

/// Write a single encoded frame, by the outcomes of writing and of flushing it.
/// Flushing is only tried, and looked at, where writing succeeded.
pub fn write_frame(written: Outcome<()>, flushed: Outcome<()>) -> (r: Result<(), ChatError>)
    ensures
        match io::io_fault(written, "write timed out"@, "write failed: "@) {
            Some(fault) => r matches Err(e) && e@ == fault,
            None => match io::io_fault(flushed, "flush timed out"@, "flush failed: "@) {
                Some(fault) => r matches Err(e) && e@ == fault,
                None => r is Ok,
            },
        },
{
    match io_result(written, "write timed out", "write failed: ") {
        Err(e) => Err(e),
        Ok(()) => io_result(flushed, "flush timed out", "flush failed: "),
    }
}

// ---------------------------------------------------------------------------
// Laws
// ---------------------------------------------------------------------------

/// A frame's header announces the length of its payload.
pub proof fn frame_header(payload: Seq<u8>)
    requires
        payload.len() <= u32::MAX,
    ensures
        header_value(frame(payload)) == payload.len(),
        frame(payload).len() == payload.len() + 4,
{
    let n = payload.len();
    let f = frame(payload);
    assert(f[0] == (n / 0x1000000 % 256) as u8);
    assert(f[1] == (n / 0x10000 % 256) as u8);
    assert(f[2] == (n / 0x100 % 256) as u8);
    assert(f[3] == (n % 256) as u8);
    assert(n == (n / 0x1000000) * 0x1000000 + (n / 0x10000 % 256) * 0x10000 + (n / 0x100 % 256)
        * 0x100 + n % 256);
}

/// What was framed is read back, whatever follows it on the stream.
pub proof fn frame_round_trip(payload: Seq<u8>, rest: Seq<u8>)
    requires
        0 < payload.len() <= MAX_PAYLOAD_BYTES,
    ensures
        unframe(frame(payload) + rest) == Ok::<Seq<u8>, ErrorView>(payload),
        (frame(payload) + rest).skip(frame(payload).len() as int) == rest,
{
    frame_header(payload);
    let data = frame(payload) + rest;
    assert(header_value(data) == payload.len());
    assert(data.subrange(4, 4 + payload.len() as int) =~= payload);
    assert(data.skip(frame(payload).len() as int) =~= rest);
}

/// No prefix of a frame is taken for a message.
pub proof fn frame_prefix_refused(payload: Seq<u8>, n: int)
    requires
        0 < payload.len() <= MAX_PAYLOAD_BYTES,
        0 <= n < frame(payload).len(),
    ensures
        unframe(frame(payload).take(n)) matches Err(ErrorView::Wire(_)),
{
    frame_header(payload);
    let data = frame(payload).take(n);
    if n >= 4 {
        assert(header_value(data) == header_value(frame(payload)));
    }
}

/// Whatever arrives, a payload that is accepted is not empty and within the limit.
pub proof fn accepted_payload_size(data: Seq<u8>)
    requires
        unframe(data) is Ok,
    ensures
        0 < unframe(data)->Ok_0.len() <= MAX_PAYLOAD_BYTES,
{
}

/// A header holds the length in four bytes, the most significant one first.
pub proof fn header_is_big_endian(n: nat, data: Seq<u8>)
    requires
        n <= u32::MAX,
        data.len() >= 4,
    ensures
        big_endian(n).len() == 4,
        n == big_endian(n)[0] * 16777216 + big_endian(n)[1] * 65536 + big_endian(n)[2] * 256
            + big_endian(n)[3],
        header_value(data) == data[0] * 16777216 + data[1] * 65536 + data[2] * 256 + data[3],
{
    assert(n == (n / 0x1000000) * 0x1000000 + (n / 0x10000 % 256) * 0x10000 + (n / 0x100 % 256)
        * 0x100 + n % 256);
}

/// A frame is its payload, unchanged, behind a header of four bytes. A payload of more than
/// 16384 bytes gets none; a shorter one does.
pub proof fn payload_is_framed_unchanged(payload: Seq<u8>)
    requires
        payload.len() <= usize::MAX,
    ensures
        frame(payload).skip(4) == payload,
        frame(payload).take(4) == big_endian(payload.len()),
        payload.len() <= 16384 ==> framed(payload) == Ok::<Seq<u8>, ErrorView>(frame(payload)),
        payload.len() > 16384 ==> (framed(payload) matches Err(
            ErrorView::OversizedMessage { size, limit },
        ) && size == payload.len() && limit == 16384),
{
    assert(frame(payload).skip(4) =~= payload);
    assert(frame(payload).take(4) =~= big_endian(payload.len()));
}

/// Bytes hold a frame exactly if there are four of them, which announce a length between
/// one and 16384, and at least so many behind them: these are the payload. Otherwise the
/// first of these that fails is the reason.
pub proof fn bytes_are_unframed(data: Seq<u8>)
    ensures
        data.len() < 4 ==> unframe(data) == Err::<Seq<u8>, ErrorView>(
            ErrorView::Wire("payload too short for header"@),
        ),
        data.len() >= 4 ==> {
            let n = data[0] * 16777216 + data[1] * 65536 + data[2] * 256 + data[3];
            &&& n == 0 ==> unframe(data) == Err::<Seq<u8>, ErrorView>(
                ErrorView::Wire("zero-length payload"@),
            )
            &&& n > 16384 ==> unframe(data) == Err::<Seq<u8>, ErrorView>(
                ErrorView::OversizedMessage { size: n as usize, limit: 16384 },
            )
            &&& 0 < n <= 16384 && data.len() < 4 + n ==> unframe(data) == Err::<
                Seq<u8>,
                ErrorView,
            >(ErrorView::Wire("truncated payload"@))
            &&& 0 < n <= 16384 && data.len() >= 4 + n ==> unframe(data) == Ok::<Seq<u8>, ErrorView>(
                data.subrange(4, 4 + n),
            )
        },
{
}

/// A length is in order between one and 16384.
pub proof fn lengths_are_limited(len: nat)
    ensures
        0 < len <= 16384 <==> length_fault(len) is None,
        len == 0 ==> length_fault(len) == Some(ErrorView::Wire("zero-length payload"@)),
        len > 16384 ==> length_fault(len) == Some(
            ErrorView::OversizedMessage { size: len as usize, limit: 16384 },
        ),
{
}

/// A payload that was read is put behind its header as it is, if it is text, and JSON. If
/// it is not, or could not be read, that is the reason.
pub proof fn read_payload_is_checked(
    header: Seq<u8>,
    payload: Vec<u8>,
    reason: String,
)
    ensures
        frame_read(header, Err(reason)) == Err::<Seq<u8>, ErrorView>(
            ErrorView::Wire("payload read failed: "@ + reason@),
        ),
        !valid_utf8(payload@) ==> frame_read(header, Ok(payload)) == Err::<Seq<u8>, ErrorView>(
            ErrorView::Wire("payload is not valid UTF-8"@),
        ),
        valid_utf8(payload@) && json::json_fault(payload@) is Some ==> frame_read(
            header,
            Ok(payload),
        ) == Err::<Seq<u8>, ErrorView>(ErrorView::Wire("payload is not valid JSON"@)),
        valid_utf8(payload@) && json::json_fault(payload@) is None ==> frame_read(
            header,
            Ok(payload),
        ) == Ok::<Seq<u8>, ErrorView>(header + payload@),
        valid_utf8(payload@) ==> checked(header, payload@, true) == Ok::<Seq<u8>, ErrorView>(
            header + payload@,
        ),
        valid_utf8(payload@) ==> checked(header, payload@, false) is Err,
        !valid_utf8(payload@) ==> checked(header, payload@, true) is Err,
{
}

/// A payload is a message exactly if its JSON reads as one, and then it is that one;
/// otherwise what the reader says is passed on.
pub proof fn payload_is_read_as_json(payload: Seq<u8>)
    ensures
        match payload::message_read(payload) {
            Ok(m) => message_of(payload) == Ok::<WireView, ErrorView>(m),
            Err(reason) => message_of(payload) == Err::<WireView, ErrorView>(
                ErrorView::Wire("json decode failed: "@ + reason),
            ),
        },
{
}

/// What is seen of a message is its sort, its name and its text, and of a result the value
/// or the error, whichever it holds.
pub proof fn results_are_seen_whole(m: WireMessage, bytes: Vec<u8>, e: ChatError)
    ensures
        m@ == (WireView { kind: m.kind, name: m.name@, text: m.text@ }),
        message_result(Ok(m)) == Ok::<WireView, ErrorView>(m@),
        message_result(Err(e)) == Err::<WireView, ErrorView>(e@),
        bytes_result(Ok(bytes)) == Ok::<Seq<u8>, ErrorView>(bytes@),
        bytes_result(Err(e)) == Err::<Seq<u8>, ErrorView>(e@),
{
}

/// The frame of a message that is not too long carries it, whatever follows; and any part
/// of the frame, from its front and short of its end, is cut short.
pub proof fn frame_carries_its_message(m: WireView, rest: Seq<u8>, n: int)
    requires
        0 < payload_of(m).len() <= 16384,
        0 <= n < payload_of(m).len() + 4,
    ensures
        carries(frame(payload_of(m)) + rest, m),
        is_cut_short(frame(payload_of(m)).take(n), m),
        !carries(frame(payload_of(m)).take(n), m),
{
    let f = frame(payload_of(m));
    assert((f + rest).take(f.len() as int) =~= f);
    assert(f.take(n).len() == n);
}

} // verus!

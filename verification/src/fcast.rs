//! The FCast control protocol: framing, opcodes, and the message types that
//! travel in frames.
//!
//! A frame is a 4-byte little-endian length, a 1-byte opcode, and an optional
//! JSON body. The length counts the opcode byte plus the body, so a frame
//! without a body has length 1. No frame is longer than 32 KiB.

use std::collections::HashMap;

use vstd::prelude::*;

use crate::text;

verus! {

/// TCP port of the control server.
pub const DEFAULT_PORT: u16 = 46899;

/// Upper bound on a frame's length field.
pub const MAX_PACKET_SIZE: usize = 32 * 1024;

/// Version of the protocol spoken here.
pub const PROTOCOL_VERSION: u32 = 2;

/// Every opcode of the protocol. The codes up to 13 are FCast's own; the play
/// queue and image wallpapers are private extensions beyond them.
#[derive(Debug, Clone, Copy, PartialEq, Eq, Structural)]
pub enum Opcode {
    /// Carries nothing and asks for nothing.
    NoOp,
    Play,
    Pause,
    Resume,
    Stop,
    Seek,
    PlaybackUpdate,
    VolumeUpdate,
    SetVolume,
    PlaybackError,
    SetSpeed,
    Version,
    Ping,
    Pong,
    /// sender -> receiver: ask for the current queue.
    RequestQueue,
    /// receiver -> sender: the whole queue and the position in it.
    QueueState,
    /// sender -> receiver: move to the next queue item, if any.
    QueueJumpForward,
    /// sender -> receiver: move to the previous queue item, if any.
    QueueJumpBackward,
    /// sender -> receiver: empty the queue.
    ClearQueue,
    /// sender -> receiver: move to an arbitrary queue index, if in range.
    QueueJumpToIndex,
    /// sender -> receiver: tag or untag an uploaded image as a wallpaper.
    SetImageWallpaper,
    /// receiver -> sender: the wallpaper tag that was just set.
    ImageWallpaperUpdate,
}

impl Opcode {
    /// The byte that stands for this opcode on the wire.
    pub open spec fn code(self) -> u8 {
        match self {
            Opcode::NoOp => 0,
            Opcode::Play => 1,
            Opcode::Pause => 2,
            Opcode::Resume => 3,
            Opcode::Stop => 4,
            Opcode::Seek => 5,
            Opcode::PlaybackUpdate => 6,
            Opcode::VolumeUpdate => 7,
            Opcode::SetVolume => 8,
            Opcode::PlaybackError => 9,
            Opcode::SetSpeed => 10,
            Opcode::Version => 11,
            Opcode::Ping => 12,
            Opcode::Pong => 13,
            Opcode::RequestQueue => 14,
            Opcode::QueueState => 15,
            Opcode::QueueJumpForward => 16,
            Opcode::QueueJumpBackward => 17,
            Opcode::ClearQueue => 18,
            Opcode::QueueJumpToIndex => 19,
            Opcode::SetImageWallpaper => 20,
            Opcode::ImageWallpaperUpdate => 21,
        }
    }

    /// The wire byte of this opcode.
    pub fn to_u8(self) -> (v: u8)
        ensures
            v == self.code(),
    {
        match self {
            Opcode::NoOp => 0,
            Opcode::Play => 1,
            Opcode::Pause => 2,
            Opcode::Resume => 3,
            Opcode::Stop => 4,
            Opcode::Seek => 5,
            Opcode::PlaybackUpdate => 6,
            Opcode::VolumeUpdate => 7,
            Opcode::SetVolume => 8,
            Opcode::PlaybackError => 9,
            Opcode::SetSpeed => 10,
            Opcode::Version => 11,
            Opcode::Ping => 12,
            Opcode::Pong => 13,
            Opcode::RequestQueue => 14,
            Opcode::QueueState => 15,
            Opcode::QueueJumpForward => 16,
            Opcode::QueueJumpBackward => 17,
            Opcode::ClearQueue => 18,
            Opcode::QueueJumpToIndex => 19,
            Opcode::SetImageWallpaper => 20,
            Opcode::ImageWallpaperUpdate => 21,
        }
    }

    /// The opcode that the byte `v` stands for; `None` exactly for a byte
    /// that is no opcode's.
    pub fn from_u8(v: u8) -> (r: Option<Opcode>)
        ensures
            match r {
                Some(op) => op.code() == v,
                None => forall|op: Opcode| #[trigger] op.code() != v,
            },
    {
        match v {
            0 => Some(Opcode::NoOp),
            1 => Some(Opcode::Play),
            2 => Some(Opcode::Pause),
            3 => Some(Opcode::Resume),
            4 => Some(Opcode::Stop),
            5 => Some(Opcode::Seek),
            6 => Some(Opcode::PlaybackUpdate),
            7 => Some(Opcode::VolumeUpdate),
            8 => Some(Opcode::SetVolume),
            9 => Some(Opcode::PlaybackError),
            10 => Some(Opcode::SetSpeed),
            11 => Some(Opcode::Version),
            12 => Some(Opcode::Ping),
            13 => Some(Opcode::Pong),
            14 => Some(Opcode::RequestQueue),
            15 => Some(Opcode::QueueState),
            16 => Some(Opcode::QueueJumpForward),
            17 => Some(Opcode::QueueJumpBackward),
            18 => Some(Opcode::ClearQueue),
            19 => Some(Opcode::QueueJumpToIndex),
            20 => Some(Opcode::SetImageWallpaper),
            21 => Some(Opcode::ImageWallpaperUpdate),
            _ => None,
        }
    }
}

/// Two opcodes with one wire byte are one opcode.
pub proof fn lemma_opcode_codes_are_distinct(a: Opcode, b: Opcode)
    ensures
        a.code() == b.code() ==> a == b,
{
}

// ---------------------------------------------------------------------------
// Frames
// ---------------------------------------------------------------------------

/// A decoded frame: an opcode and its still-encoded JSON body.
#[derive(Debug, Clone)]
pub struct Frame {
    pub opcode: Opcode,
    pub body: Vec<u8>,
}

/// Why bytes are no frame, or why a frame cannot be written.
#[derive(Debug, Clone, Copy, PartialEq, Eq, Structural)]
pub enum FrameError {
    /// The length field is zero or above `MAX_PACKET_SIZE`.
    InvalidLength(usize),
    /// The stream ended inside the frame.
    UnexpectedEnd,
    /// The opcode byte stands for no opcode.
    UnknownOpcode(u8),
    /// The body does not fit into one frame.
    TooLarge,
}

impl FrameError {
    /// The text of the error.
    pub open spec fn text(self) -> Seq<char> {
        match self {
            FrameError::InvalidLength(len) => "invalid FCast frame length "@ + text::decimal(
                len as nat,
            ),
            FrameError::UnexpectedEnd => "unexpected end of stream inside a frame"@,
            FrameError::UnknownOpcode(op) => "unknown opcode "@ + text::decimal(op as nat),
            FrameError::TooLarge => "frame too large"@,
        }
    }

    /// What went wrong, in words.
    pub fn message(self) -> (r: String)
        ensures
            r@ == self.text(),
    {
        match self {
            FrameError::InvalidLength(len) => text::joined(
                "invalid FCast frame length ",
                text::decimal_text(len as u128).as_str(),
            ),
            FrameError::UnexpectedEnd => "unexpected end of stream inside a frame".to_string(),
            FrameError::UnknownOpcode(op) => text::joined(
                "unknown opcode ",
                text::decimal_text(op as u128).as_str(),
            ),
            FrameError::TooLarge => "frame too large".to_string(),
        }
    }
}

/// `n` as four little-endian bytes.
pub open spec fn le_bytes(n: nat) -> Seq<u8> {
    seq![
        (n % 256) as u8,
        (n / 256 % 256) as u8,
        (n / 65536 % 256) as u8,
        (n / 16777216 % 256) as u8,
    ]
}

/// The number that four little-endian bytes stand for.
pub open spec fn le_value(b: Seq<u8>) -> nat {
    (b[0] + 256 * b[1] + 65536 * b[2] + 16777216 * b[3]) as nat
}

/// Whether `len` may stand in a frame's length field.
pub open spec fn valid_length(len: nat) -> bool {
    1 <= len <= MAX_PACKET_SIZE
}

/// The bytes of the frame with this opcode and body.
pub open spec fn frame_bytes(opcode: Opcode, body: Seq<u8>) -> Seq<u8> {
    le_bytes(1 + body.len()) + seq![opcode.code()] + body
}

/// What reading one frame from a stream gives, where the stream holds the
/// bytes `stream` and then ends: the opcode, the body and the number of bytes
/// taken; nothing, where it ends before any byte of a frame; or an error.
pub open spec fn frame_read(stream: Seq<u8>) -> Result<
    Option<(u8, Seq<u8>, nat)>,
    FrameError,
> {
    let len = le_value(stream);
    if stream.len() == 0 {
        Ok(None)
    } else if stream.len() < 4 {
        Err(FrameError::UnexpectedEnd)
    } else if !valid_length(len) {
        Err(FrameError::InvalidLength(len as usize))
    } else if stream.len() < 4 + len {
        Err(FrameError::UnexpectedEnd)
    } else if forall|op: Opcode| #[trigger] op.code() != stream[4] {
        Err(FrameError::UnknownOpcode(stream[4]))
    } else {
        Ok(Some((stream[4], stream.subrange(5, 4 + len as int), 4 + len)))
    }
}

proof fn lemma_le_round_trip(n: nat)
    requires
        n < 0x1_0000_0000,
    ensures
        le_value(le_bytes(n)) == n,
{
    assert(n % 256 + 256 * (n / 256 % 256) + 65536 * (n / 65536 % 256) + 16777216 * (n / 16777216
        % 256) == n);
}

/// The length of a frame's payload, from the four bytes that announce it.
pub fn frame_length(header: &[u8]) -> (r: Result<usize, FrameError>)
    requires
        header@.len() == 4,
    ensures
        match r {
            Ok(len) => len == le_value(header@) && valid_length(len as nat),
            Err(e) => !valid_length(le_value(header@)) && e == FrameError::InvalidLength(
                le_value(header@) as usize,
            ),
        },
{
    let len: usize = (header[0] as u32 + 256 * (header[1] as u32) + 65536 * (header[2] as u32)
        + 16777216 * (header[3] as u32)) as usize;
    if len == 0 || len > MAX_PACKET_SIZE {
        Err(FrameError::InvalidLength(len))
    } else {
        Ok(len)
    }
}

/// The frame whose payload (opcode byte and body) is `payload`.
pub fn decode_payload(payload: &[u8]) -> (r: Result<Frame, FrameError>)
    requires
        payload@.len() >= 1,
    ensures
        match r {
            Ok(f) => f.opcode.code() == payload@[0] && f.body@ == payload@.skip(1),
            Err(e) => e == FrameError::UnknownOpcode(payload@[0]) && forall|op: Opcode|
                #[trigger] op.code() != payload@[0],
        },
{
    match Opcode::from_u8(payload[0]) {
        None => Err(FrameError::UnknownOpcode(payload[0])),
        Some(opcode) => {
            let rest: &[u8] = vstd::slice::slice_subrange(payload, 1, payload.len());
            let body: Vec<u8> = vstd::slice::slice_to_vec(rest);
            assert(body@ =~= payload@.skip(1));
            Ok(Frame { opcode, body })
        },
    }
}

/// How many bytes to read on, where `got` was read of a frame so far: the rest
/// of the length field, then the rest of the payload; none where the length is
/// no frame's.
pub open spec fn bytes_missing(got: Seq<u8>) -> nat {
    let len = le_value(got);
    if got.len() < 4 {
        (4 - got.len()) as nat
    } else if !valid_length(len) || got.len() >= 4 + len {
        0
    } else {
        (4 + len - got.len()) as nat
    }
}

/// How many bytes to read on, where `got` was read of a frame so far.
pub fn missing(got: &[u8]) -> (n: usize)
    ensures
        n == bytes_missing(got@),
{
    if got.len() < 4 {
        return 4 - got.len();
    }
    let header: &[u8] = vstd::slice::slice_subrange(got, 0, 4);
    match frame_length(header) {
        Err(_) => 0,
        Ok(len) => if got.len() - 4 >= len {
            0
        } else {
            len - (got.len() - 4)
        },
    }
}

/// Reads one frame from the front of `stream`, which holds everything up to
/// the stream's end, and says how many bytes it took.
pub fn read_frame(stream: &[u8]) -> (r: Result<Option<(Frame, usize)>, FrameError>)
    ensures
        match r {
            Ok(Some((f, used))) => frame_read(stream@) == Ok::<
                Option<(u8, Seq<u8>, nat)>,
                FrameError,
            >(Some((f.opcode.code(), f.body@, used as nat))),
            Ok(None) => frame_read(stream@) == Ok::<Option<(u8, Seq<u8>, nat)>, FrameError>(None),
            Err(e) => frame_read(stream@) == Err::<Option<(u8, Seq<u8>, nat)>, FrameError>(e),
        },
{
    if stream.len() == 0 {
        return Ok(None);
    }
    if stream.len() < 4 {
        return Err(FrameError::UnexpectedEnd);
    }
    let header: &[u8] = vstd::slice::slice_subrange(stream, 0, 4);
    let len: usize = match frame_length(header) {
        Ok(len) => len,
        Err(e) => {
            return Err(e);
        },
    };
    if stream.len() - 4 < len {
        return Err(FrameError::UnexpectedEnd);
    }
    let payload: &[u8] = vstd::slice::slice_subrange(stream, 4, 4 + len);
    match decode_payload(payload) {
        Ok(frame) => {
            assert(payload@.skip(1) =~= stream@.subrange(5, 4 + len as int));
            Ok(Some((frame, 4 + len)))
        },
        Err(e) => Err(e),
    }
}

/// The bytes of one frame; refused where the body does not fit.
pub fn write_frame(opcode: Opcode, body: &[u8]) -> (r: Result<Vec<u8>, FrameError>)
    ensures
        r is Ok <==> body@.len() < 32768,
        match r {
            Ok(bytes) => valid_length(1 + body@.len()) && bytes@ == frame_bytes(opcode, body@),
            Err(e) => !valid_length(1 + body@.len()) && e == FrameError::TooLarge,
        },
{
    if body.len() >= MAX_PACKET_SIZE {
        return Err(FrameError::TooLarge);
    }
    let len: usize = 1 + body.len();
    let mut out: Vec<u8> = Vec::new();
    out.push((len % 256) as u8);
    out.push((len / 256 % 256) as u8);
    out.push(0u8);
    out.push(0u8);
    out.push(opcode.to_u8());
    out.extend_from_slice(body);
    assert(out@ =~= frame_bytes(opcode, body@));
    Ok(out)
}

/// The bytes of a frame without a body.
pub fn write_empty(opcode: Opcode) -> (bytes: Vec<u8>)
    ensures
        bytes@ == frame_bytes(opcode, Seq::empty()),
{
    let mut out: Vec<u8> = Vec::new();
    out.push(1u8);
    out.push(0u8);
    out.push(0u8);
    out.push(0u8);
    out.push(opcode.to_u8());
    assert(out@ =~= frame_bytes(opcode, Seq::empty()));
    out
}

/// Reading gives back what writing wrote, whatever follows it on the stream,
/// and takes exactly the frame's own bytes.
pub proof fn lemma_read_gives_back_what_was_written(opcode: Opcode, body: Seq<u8>, rest: Seq<u8>)
    requires
        valid_length(1 + body.len()),
    ensures
        frame_read(frame_bytes(opcode, body) + rest) == Ok::<
            Option<(u8, Seq<u8>, nat)>,
            FrameError,
        >(Some((opcode.code(), body, frame_bytes(opcode, body).len()))),
{
    let stream = frame_bytes(opcode, body) + rest;
    let len = 1 + body.len();
    lemma_le_round_trip(len);
    assert(stream.take(4) =~= le_bytes(len));
    assert(le_value(stream) == len);
    assert(stream[4] == opcode.code());
    assert(stream.subrange(5, 4 + len as int) =~= body);
}

/// A frame cut short is never read as a frame: before its first byte the stream
/// has ended cleanly, and after it in the middle of a frame.
pub proof fn lemma_a_cut_frame_is_not_read(opcode: Opcode, body: Seq<u8>, n: int)
    requires
        valid_length(1 + body.len()),
        0 <= n < frame_bytes(opcode, body).len(),
    ensures
        frame_read(frame_bytes(opcode, body).take(n)) == if n == 0 {
            Ok::<Option<(u8, Seq<u8>, nat)>, FrameError>(None)
        } else {
            Err::<Option<(u8, Seq<u8>, nat)>, FrameError>(FrameError::UnexpectedEnd)
        },
{
    let len = 1 + body.len();
    lemma_le_round_trip(len);
    let whole = frame_bytes(opcode, body);
    assert(whole.take(4) =~= le_bytes(len));
    if n >= 4 {
        assert(le_value(whole.take(n)) == len);
    }
}

/// Reading as much as is missing is reading enough: what a frame is does not
/// depend on what follows it, and while something is missing there is no frame.
pub proof fn lemma_nothing_missing_is_enough(got: Seq<u8>, rest: Seq<u8>)
    ensures
        bytes_missing(got) == 0 ==> frame_read(got + rest) == frame_read(got),
        bytes_missing(got) > 0 ==> frame_read(got) == if got.len() == 0 {
            Ok::<Option<(u8, Seq<u8>, nat)>, FrameError>(None)
        } else {
            Err::<Option<(u8, Seq<u8>, nat)>, FrameError>(FrameError::UnexpectedEnd)
        },
{
    if bytes_missing(got) == 0 {
        let len = le_value(got);
        assert(le_value(got + rest) == len);
        if valid_length(len) {
            assert((got + rest).subrange(5, 4 + len as int) =~= got.subrange(5, 4 + len as int));
        }
    }
}

/// No written frame is longer than the protocol allows: 32 KiB and the four
/// bytes of the length field.
pub proof fn lemma_frames_are_bounded(opcode: Opcode, body: Seq<u8>)
    requires
        valid_length(1 + body.len()),
    ensures
        frame_bytes(opcode, body).len() <= 4 + MAX_PACKET_SIZE,
{
}

// ---------------------------------------------------------------------------
// Messages
// ---------------------------------------------------------------------------

/// A number of the protocol that is not whole: a time or a length in seconds,
/// a volume, a speed. It is carried by its IEEE 754 bit pattern and handed on
/// unchanged; nothing in this crate computes with it.
#[derive(Debug, Clone, Copy, PartialEq, Eq, Structural)]
pub struct Real {
    pub bits: u64,
}

/// What a `Play` should be handed to.
#[derive(Debug, Clone, Copy, PartialEq, Eq, Structural)]
pub enum PlayTarget {
    /// The media player: a file, a stream, or a source it can resolve.
    Media,
    /// The browser engine: a web page.
    Webpage,
}

/// sender -> receiver: start playback. `container` is a MIME type, and also
/// says whether the URL is media or a web page (see `explicit_target`).
#[derive(Debug)]
pub struct PlayMessage {
    pub container: Option<String>,
    pub url: Option<String>,
    pub content: Option<String>,
    pub time: Option<Real>,
    pub volume: Option<Real>,
    pub speed: Option<Real>,
    pub headers: Option<HashMap<String, String>>,
}

/// What a `PlayMessage` says, with its strings as texts.
#[verifier::ext_equal]
pub struct PlayView {
    pub container: Option<Seq<char>>,
    pub url: Option<Seq<char>>,
    pub content: Option<Seq<char>>,
    pub time: Option<Real>,
    pub volume: Option<Real>,
    pub speed: Option<Real>,
    pub headers: Option<Map<String, String>>,
}

impl View for PlayMessage {
    type V = PlayView;

    open spec fn view(&self) -> PlayView {
        PlayView {
            container: text::opt_text(self.container),
            url: text::opt_text(self.url),
            content: text::opt_text(self.content),
            time: self.time,
            volume: self.volume,
            speed: self.speed,
            headers: match self.headers {
                Some(h) => Some(h@),
                None => None,
            },
        }
    }
}

impl Clone for PlayMessage {
    fn clone(&self) -> (r: PlayMessage)
        ensures
            r@ == self@,
    {
        PlayMessage {
            container: self.container.clone(),
            url: self.url.clone(),
            content: self.content.clone(),
            time: self.time,
            volume: self.volume,
            speed: self.speed,
            headers: match &self.headers {
                Some(h) => Some(h.clone()),
                None => None,
            },
        }
    }
}

impl Default for PlayMessage {
    fn default() -> (r: PlayMessage)
        ensures
            r@ == (PlayView {
                container: None,
                url: None,
                content: None,
                time: None,
                volume: None,
                speed: None,
                headers: None,
            }),
    {
        PlayMessage {
            container: None,
            url: None,
            content: None,
            time: None,
            volume: None,
            speed: None,
            headers: None,
        }
    }
}

/// The media type of a MIME type: what stands in front of its parameters,
/// without surrounding white space, in lower case.
pub open spec fn media_type(mime: Seq<char>) -> Seq<char> {
    text::lowered(text::trimmed(text::until(mime, seq![';'])))
}

/// Whether a media type means "render this URL as a web page".
pub open spec fn is_webpage_type(media: Seq<char>) -> bool {
    media == "text/html"@ || media == "application/xhtml+xml"@
}

/// The target that a `container` asks for: none where there is no container
/// or its media type is empty, the browser for a web MIME type, and the media
/// player for anything else.
pub open spec fn container_target(container: Option<Seq<char>>) -> Option<PlayTarget> {
    match container {
        None => None,
        Some(mime) => if media_type(mime).len() == 0 {
            None
        } else if is_webpage_type(media_type(mime)) {
            Some(PlayTarget::Webpage)
        } else {
            Some(PlayTarget::Media)
        },
    }
}

/// The media type of a MIME type, in lower case.
pub fn media_type_of(mime: &str) -> (r: String)
    ensures
        r@ == media_type(mime@),
{
    text::lower_text(text::trim_text(text::text_before(mime, ';').as_str()).as_str())
}

impl PlayMessage {
    /// The target that the sender asked for through `container`, or `None`
    /// when it did not say and the receiver decides for itself.
    pub fn explicit_target(&self) -> (r: Option<PlayTarget>)
        ensures
            r == container_target(self@.container),
            self@.container is None ==> r is None,
            self@.container matches Some(mime) ==> {
                let media = media_type(mime);
                &&& r is None <==> media.len() == 0
                &&& r == Some(PlayTarget::Webpage) <==> media == "text/html"@ || media
                    == "application/xhtml+xml"@
            },
    {
        match &self.container {
            None => None,
            Some(mime) => {
                let media: String = media_type_of(mime.as_str());
                proof {
                    reveal_strlit("");
                    reveal_strlit("text/html");
                    reveal_strlit("application/xhtml+xml");
                    assert(media@.len() == 0 ==> media@ =~= ""@);
                }
                if text::same_text(media.as_str(), "") {
                    None
                } else if text::same_text(media.as_str(), "text/html") || text::same_text(
                    media.as_str(),
                    "application/xhtml+xml",
                ) {
                    Some(PlayTarget::Webpage)
                } else {
                    Some(PlayTarget::Media)
                }
            },
        }
    }
}

/// A MIME type routes the same in any letter case.
pub proof fn lemma_target_ignores_case(mime: Seq<char>)
    ensures
        container_target(Some(text::lowered(mime))) == container_target(Some(mime)),
{
    let stops = seq![';'];
    assert forall|c: char| #[trigger] stops.contains(text::lower(c)) <==> stops.contains(c) by {
        assert(stops.contains(text::lower(c)) ==> stops[0] == text::lower(c));
        assert(stops.contains(c) ==> stops[0] == c);
        assert(stops[0] == ';');
    }
    text::lemma_until_keeps_case(mime, stops);
    text::lemma_trimmed_keeps_case(text::until(mime, stops));
    text::lemma_lowered_twice(text::trimmed(text::until(mime, stops)));
}

/// The parameters behind a MIME type do not change its target.
pub proof fn lemma_target_ignores_parameters(mime: Seq<char>, parameters: Seq<char>)
    ensures
        container_target(Some(mime + seq![';'] + parameters)) == container_target(Some(mime)),
{
    assert(seq![';'][0] == ';');
    text::lemma_until_ignores_the_rest(mime, ';', parameters, seq![';']);
}

/// sender -> receiver: go to a time, in seconds.
#[derive(Debug, Clone, Copy)]
pub struct SeekMessage {
    pub time: Real,
}

/// sender -> receiver: the volume, where 1 is full.
#[derive(Debug, Clone, Copy)]
pub struct SetVolumeMessage {
    pub volume: Real,
}

/// sender -> receiver: the playback speed, where 1 is normal.
#[derive(Debug, Clone, Copy)]
pub struct SetSpeedMessage {
    pub speed: Real,
}

/// Either side: the protocol version it speaks.
#[derive(Debug, Clone, Copy)]
pub struct VersionMessage {
    pub version: u32,
}

/// What the receiver is doing.
#[derive(Debug, Clone, Copy, PartialEq, Eq, Structural)]
pub enum PlaybackState {
    Idle,
    Playing,
    Paused,
}

impl PlaybackState {
    /// The number that stands for this state on the wire.
    pub open spec fn code(self) -> u8 {
        match self {
            PlaybackState::Idle => 0,
            PlaybackState::Playing => 1,
            PlaybackState::Paused => 2,
        }
    }

    /// The wire number of this state.
    pub fn to_u8(self) -> (v: u8)
        ensures
            v == self.code(),
    {
        match self {
            PlaybackState::Idle => 0,
            PlaybackState::Playing => 1,
            PlaybackState::Paused => 2,
        }
    }

    /// The state that the number `v` stands for; `None` exactly for a number
    /// that is no state's.
    pub fn from_u8(v: u8) -> (r: Option<PlaybackState>)
        ensures
            match r {
                Some(state) => state.code() == v,
                None => forall|state: PlaybackState| #[trigger] state.code() != v,
            },
    {
        match v {
            0 => Some(PlaybackState::Idle),
            1 => Some(PlaybackState::Playing),
            2 => Some(PlaybackState::Paused),
            _ => None,
        }
    }
}

/// Two states with one wire number are one state.
pub proof fn lemma_state_codes_are_distinct(a: PlaybackState, b: PlaybackState)
    ensures
        a.code() == b.code() ==> a == b,
{
}

/// receiver -> sender: what is playing, and where in it.
#[derive(Debug, Clone, Copy, PartialEq, Eq, Structural)]
pub struct PlaybackUpdateMessage {
    pub generation_time: u64,
    pub state: PlaybackState,
    pub time: Option<Real>,
    pub duration: Option<Real>,
    pub speed: Option<Real>,
}

/// receiver -> sender: what went wrong.
#[derive(Debug, Clone)]
pub struct PlaybackErrorMessage {
    pub message: String,
}

/// One item of the play queue, as shown to a sender. The title and the length
/// are absent until they have been looked up, and for ever where that fails.
#[derive(Debug, Clone)]
pub struct QueueItemMessage {
    pub url: String,
    pub container: Option<String>,
    pub title: Option<String>,
    pub duration_secs: Option<Real>,
}

/// receiver -> sender: the whole play queue and the index of its current item.
#[derive(Debug, Clone)]
pub struct QueueStateMessage {
    pub generation_time: u64,
    pub items: Vec<QueueItemMessage>,
    /// `None` when the queue is empty or nothing has played from it yet.
    pub current_index: Option<usize>,
}

/// sender -> receiver: the queue index to jump to.
#[derive(Debug, Clone, Copy)]
pub struct QueueJumpToIndexMessage {
    pub index: usize,
}

/// sender -> receiver: tag or untag an uploaded image as a wallpaper.
#[derive(Debug, Clone)]
pub struct SetImageWallpaperMessage {
    pub id: String,
    pub wallpaper: bool,
}

/// receiver -> sender: the wallpaper tag that was just set.
#[derive(Debug, Clone)]
pub struct ImageWallpaperUpdateMessage {
    pub generation_time: u64,
    pub id: String,
    pub wallpaper: bool,
}

// ---------------------------------------------------------------------------
// Laws
// ---------------------------------------------------------------------------

/// Which byte stands for which opcode: FCast's own up to 13, the play queue
/// from 14, and wallpapers from 20.
pub proof fn lemma_the_wire_bytes_of_opcodes(op: Opcode)
    ensures
        op.code() == 0 <==> op == Opcode::NoOp,
        op.code() == 1 <==> op == Opcode::Play,
        op.code() == 2 <==> op == Opcode::Pause,
        op.code() == 3 <==> op == Opcode::Resume,
        op.code() == 4 <==> op == Opcode::Stop,
        op.code() == 5 <==> op == Opcode::Seek,
        op.code() == 6 <==> op == Opcode::PlaybackUpdate,
        op.code() == 7 <==> op == Opcode::VolumeUpdate,
        op.code() == 8 <==> op == Opcode::SetVolume,
        op.code() == 9 <==> op == Opcode::PlaybackError,
        op.code() == 10 <==> op == Opcode::SetSpeed,
        op.code() == 11 <==> op == Opcode::Version,
        op.code() == 12 <==> op == Opcode::Ping,
        op.code() == 13 <==> op == Opcode::Pong,
        op.code() == 14 <==> op == Opcode::RequestQueue,
        op.code() == 15 <==> op == Opcode::QueueState,
        op.code() == 16 <==> op == Opcode::QueueJumpForward,
        op.code() == 17 <==> op == Opcode::QueueJumpBackward,
        op.code() == 18 <==> op == Opcode::ClearQueue,
        op.code() == 19 <==> op == Opcode::QueueJumpToIndex,
        op.code() == 20 <==> op == Opcode::SetImageWallpaper,
        op.code() == 21 <==> op == Opcode::ImageWallpaperUpdate,
        op.code() <= 21,
{
}

/// Which number stands for which state.
pub proof fn lemma_the_wire_numbers_of_states(state: PlaybackState)
    ensures
        state.code() == 0 <==> state == PlaybackState::Idle,
        state.code() == 1 <==> state == PlaybackState::Playing,
        state.code() == 2 <==> state == PlaybackState::Paused,
        state.code() <= 2,
{
}

/// The protocol's port, version and longest frame.
pub proof fn lemma_the_numbers_of_the_protocol(len: nat)
    ensures
        DEFAULT_PORT == 46899,
        PROTOCOL_VERSION == 2,
        valid_length(len) <==> 1 <= len <= 32768,
{
}

/// A frame is the length of what follows, its lowest byte first, then the
/// opcode's byte, then the body as it is.
pub proof fn lemma_the_bytes_of_a_frame(opcode: Opcode, body: Seq<u8>, i: int)
    requires
        body.len() < 32768,
    ensures
        frame_bytes(opcode, body).len() == 5 + body.len(),
        frame_bytes(opcode, body)[0] + 256 * frame_bytes(opcode, body)[1] == 1 + body.len(),
        frame_bytes(opcode, body)[2] == 0,
        frame_bytes(opcode, body)[3] == 0,
        frame_bytes(opcode, body)[4] == opcode.code(),
        0 <= i < body.len() ==> frame_bytes(opcode, body)[5 + i] == body[i],
{
}

/// What a stream that holds a length field is read as: the length is the first
/// byte and 256 times the second and so on; a length of zero or above 32768 is
/// refused by that length, a stream that ends early is refused as cut, and a
/// byte above 21 as no opcode; else the frame is the byte and the body that
/// follow.
pub proof fn lemma_how_a_stream_is_read(stream: Seq<u8>, n: nat)
    requires
        stream.len() >= 4,
        n == stream[0] + 256 * stream[1] + 65536 * stream[2] + 16777216 * stream[3],
    ensures
        n == 0 || n > 32768 ==> frame_read(stream) == Err::<
            Option<(u8, Seq<u8>, nat)>,
            FrameError,
        >(FrameError::InvalidLength(n as usize)),
        1 <= n <= 32768 && stream.len() < 4 + n ==> frame_read(stream) == Err::<
            Option<(u8, Seq<u8>, nat)>,
            FrameError,
        >(FrameError::UnexpectedEnd),
        1 <= n <= 32768 && stream.len() >= 4 + n && stream[4] > 21 ==> frame_read(stream) == Err::<
            Option<(u8, Seq<u8>, nat)>,
            FrameError,
        >(FrameError::UnknownOpcode(stream[4])),
        1 <= n <= 32768 && stream.len() >= 4 + n && stream[4] <= 21 ==> frame_read(stream) == Ok::<
            Option<(u8, Seq<u8>, nat)>,
            FrameError,
        >(Some((stream[4], stream.skip(5).take(n - 1), 4 + n))),
{
    if 1 <= n <= 32768 && stream.len() >= 4 + n {
        if stream[4] <= 21 {
            lemma_every_byte_up_to_21_is_an_opcode(stream[4]);
        }
        assert(stream.skip(5).take(n - 1) =~= stream.subrange(5, 4 + n as int));
    }
}

proof fn lemma_every_byte_up_to_21_is_an_opcode(b: u8)
    requires
        b <= 21,
    ensures
        exists|op: Opcode| #[trigger] op.code() == b,
{
    let low = if b == 0 {
        Opcode::NoOp
    } else if b == 1 {
        Opcode::Play
    } else if b == 2 {
        Opcode::Pause
    } else if b == 3 {
        Opcode::Resume
    } else if b == 4 {
        Opcode::Stop
    } else if b == 5 {
        Opcode::Seek
    } else if b == 6 {
        Opcode::PlaybackUpdate
    } else if b == 7 {
        Opcode::VolumeUpdate
    } else if b == 8 {
        Opcode::SetVolume
    } else if b == 9 {
        Opcode::PlaybackError
    } else {
        Opcode::SetSpeed
    };
    let high = if b == 11 {
        Opcode::Version
    } else if b == 12 {
        Opcode::Ping
    } else if b == 13 {
        Opcode::Pong
    } else if b == 14 {
        Opcode::RequestQueue
    } else if b == 15 {
        Opcode::QueueState
    } else if b == 16 {
        Opcode::QueueJumpForward
    } else if b == 17 {
        Opcode::QueueJumpBackward
    } else if b == 18 {
        Opcode::ClearQueue
    } else if b == 19 {
        Opcode::QueueJumpToIndex
    } else if b == 20 {
        Opcode::SetImageWallpaper
    } else {
        Opcode::ImageWallpaperUpdate
    };
    assert((if b <= 10 {
        low
    } else {
        high
    }).code() == b);
}

/// Of a frame that has come in as far as `n` bytes, exactly what is missing is
/// asked for: first the rest of the four bytes of its length, then the rest of
/// the frame, and never a byte of the next one.
pub proof fn lemma_only_the_rest_of_the_frame_is_read(opcode: Opcode, body: Seq<u8>, n: int)
    requires
        body.len() < 32768,
        0 <= n <= 5 + body.len(),
    ensures
        bytes_missing(frame_bytes(opcode, body).take(n)) == if n < 4 {
            4 - n
        } else {
            5 + body.len() - n
        },
{
    let len = 1 + body.len();
    lemma_le_round_trip(len);
    let whole = frame_bytes(opcode, body);
    assert(whole.take(4) =~= le_bytes(len));
    if n >= 4 {
        assert(le_value(whole.take(n)) == len);
    }
}

/// What is said of a frame that cannot be read or written.
pub proof fn lemma_what_is_said_of_frames(len: usize, byte: u8)
    ensures
        FrameError::InvalidLength(len).text() == "invalid FCast frame length "@ + text::decimal(
            len as nat,
        ),
        FrameError::UnexpectedEnd.text() == "unexpected end of stream inside a frame"@,
        FrameError::UnknownOpcode(byte).text() == "unknown opcode "@ + text::decimal(byte as nat),
        FrameError::TooLarge.text() == "frame too large"@,
{
}

/// Nothing of a message is left out of account: what is said of it here is said
/// of each of its fields.
pub proof fn lemma_a_message_is_all_its_fields(m: PlayMessage)
    ensures
        m@.time == m.time,
        m@.volume == m.volume,
        m@.speed == m.speed,
        m.container matches Some(s) ==> m@.container == Some(s@),
        m.container is None ==> m@.container is None,
        m.url matches Some(s) ==> m@.url == Some(s@),
        m.url is None ==> m@.url is None,
        m.content matches Some(s) ==> m@.content == Some(s@),
        m.content is None ==> m@.content is None,
        m.headers matches Some(h) ==> m@.headers == Some(h@),
        m.headers is None ==> m@.headers is None,
{
}

/// The media type of a MIME type is its letters in small, without the white
/// space around them and without parameters, whatever those are.
pub proof fn lemma_what_the_media_type_is(
    before: Seq<char>,
    media: Seq<char>,
    behind: Seq<char>,
    parameters: Seq<char>,
)
    requires
        forall|i: int| 0 <= i < before.len() ==> text::is_space(#[trigger] before[i]),
        forall|i: int| 0 <= i < behind.len() ==> text::is_space(#[trigger] behind[i]),
        forall|i: int| 0 <= i < media.len() ==> #[trigger] media[i] != ';',
        media.len() > 0 ==> !text::is_space(media[0]) && !text::is_space(media.last()),
    ensures
        media_type(before + media + behind) == text::lowered(media),
        media_type(before + media + behind + seq![';'] + parameters) == text::lowered(media),
{
    let mime = before + media + behind;
    let stops = seq![';'];
    assert(stops[0] == ';');
    assert forall|i: int| 0 <= i < mime.len() implies !stops.contains(#[trigger] mime[i]) by {
        if i < before.len() {
            assert(mime[i] == before[i]);
            assert(text::is_space(before[i]));
        } else if i < before.len() + media.len() {
            assert(mime[i] == media[i - before.len()]);
        } else {
            assert(mime[i] == behind[i - before.len() - media.len()]);
            assert(text::is_space(behind[i - before.len() - media.len()]));
        }
    }
    text::lemma_where_a_text_is_cut(mime, ';', parameters, stops);
    text::lemma_what_trimming_takes_away(before, media, behind);
}

/// What a container asks for. Where it has a media type, that is the browser
/// for `text/html` and `application/xhtml+xml`, and for these two alone, and
/// the media player for everything else, images, video and sound among it.
/// Without one it asks for nothing.
pub proof fn lemma_what_a_container_asks_for(mime: Seq<char>, media: Seq<char>)
    requires
        media == media_type(mime),
    ensures
        container_target(None) is None,
        container_target(Some(mime)) is None <==> media.len() == 0,
        container_target(Some(mime)) == Some(PlayTarget::Webpage) <==> (media == "text/html"@
            || media == "application/xhtml+xml"@),
        media.len() > 0 && media != "text/html"@ && media != "application/xhtml+xml"@
            ==> container_target(Some(mime)) == Some(PlayTarget::Media),
        media.len() >= 6 && media.take(6) == "image/"@ ==> container_target(Some(mime)) == Some(
            PlayTarget::Media,
        ),
        media.len() >= 6 && media.take(6) == "video/"@ ==> container_target(Some(mime)) == Some(
            PlayTarget::Media,
        ),
        media.len() >= 6 && media.take(6) == "audio/"@ ==> container_target(Some(mime)) == Some(
            PlayTarget::Media,
        ),
{
    reveal_strlit("text/html");
    reveal_strlit("application/xhtml+xml");
    reveal_strlit("image/");
    reveal_strlit("video/");
    reveal_strlit("audio/");
    if media.len() >= 6 {
        assert(media.take(6)[0] == media[0]);
        assert(media.take(6)[1] == media[1]);
    }
    assert("image/"@[0] == 'i' && "video/"@[0] == 'v' && "audio/"@[0] == 'a' && "audio/"@[1]
        == 'u');
    assert("text/html"@[0] == 't' && "application/xhtml+xml"@[0] == 'a'
        && "application/xhtml+xml"@[1] == 'p');
}

/// A stream that ends before any byte holds no frame, and one that ends inside
/// the four bytes of a length is cut; until these are there they are asked for,
/// and nothing more is asked for behind a length that is refused.
pub proof fn lemma_how_the_front_of_a_stream_is_read(stream: Seq<u8>, n: nat)
    ensures
        stream.len() == 0 ==> frame_read(stream) == Ok::<
            Option<(u8, Seq<u8>, nat)>,
            FrameError,
        >(None),
        0 < stream.len() < 4 ==> frame_read(stream) == Err::<
            Option<(u8, Seq<u8>, nat)>,
            FrameError,
        >(FrameError::UnexpectedEnd),
        stream.len() < 4 ==> bytes_missing(stream) == 4 - stream.len(),
        stream.len() >= 4 && n == stream[0] + 256 * stream[1] + 65536 * stream[2] + 16777216
            * stream[3] && (n == 0 || n > 32768 || stream.len() >= 4 + n) ==> bytes_missing(stream)
            == 0,
{
}

} // verus!

//! The client's side of the speech sidecar's protocol.
//!
//! Control messages are newline-delimited JSON. Audio is length-prefixed: an `audio` header
//! line, followed at once by exactly as many bytes of little-endian binary32 samples as it
//! says. After a `speak` request the sidecar sends audio and then `done`.
//!
//! [`Synthesis`] takes what happens to the connection one event at a time and says what to do
//! next. When a barge-in asks to stop, it sends a `cancel` once and stops forwarding audio, but
//! still drains to the terminating `done`, so the connection stays in sync for the next turn.

use crate::binary32::Binary32;
use crate::error::SynthError;
use crate::json;
use crate::json::Json;
use crate::text::decimal_of;
use serde_json::Value;
use vstd::prelude::*;

verus! {

/// An `audio` header claiming more than this is rejected: 30 s of 24 kHz mono samples.
pub const MAX_PCM_BYTES: usize = 2_880_000;

/// The sample rate of a sidecar that does not name one.
pub const DEFAULT_SAMPLE_RATE: u64 = 24_000;

// ---------------------------------------------------------------------------
// Error texts
// ---------------------------------------------------------------------------

/// What `Debug` shows of a text: in double quotes, with escapes.
pub uninterp spec fn quoted(text: Seq<char>) -> Seq<char>;

/// `Debug` of `str`, by `format!`: a fixed mapping of the text.
#[verifier::external_body]
fn quote(text: &str) -> (shown: String)
    ensures
        shown@ == quoted(text@),
{
    format!("{:?}", text)
}

/// The complaint about a line that is no JSON.
pub open spec fn bad_line(lead: Seq<char>, line: Seq<char>, why: Seq<char>) -> Seq<char> {
    lead + quoted(line) + ": "@ + why
}

fn complain(lead: &str, line: &str, why: &str) -> (text: String)
    ensures
        text@ == bad_line(lead@, line@, why@),
{
    let mut text = String::new();
    text.append(lead);
    text.append(quote(line).as_str());
    text.append(": ");
    text.append(why);
    assert(Seq::<char>::empty() + lead@ == lead@);
    text
}

// ---------------------------------------------------------------------------
// Samples
// ---------------------------------------------------------------------------

/// The number whose little-endian bytes stand at `at`.
pub open spec fn le_word(bytes: Seq<u8>, at: int) -> u32 {
    (bytes[at] + 0x100 * bytes[at + 1] + 0x1_0000 * bytes[at + 2] + 0x100_0000 * bytes[at
        + 3]) as u32
}

/// The samples that little-endian bytes hold; a partial one at the end is ignored.
pub open spec fn pcm_of(bytes: Seq<u8>) -> Seq<Binary32> {
    Seq::new(bytes.len() / 4, |i: int| Binary32 { bits: le_word(bytes, 4 * i) })
}

/// Decode little-endian binary32 bytes into samples.
pub fn decode_pcm(bytes: &[u8]) -> (samples: Vec<Binary32>)
    ensures
        samples@ == pcm_of(bytes@),
{
    let n: usize = bytes.len() / 4;
    let mut samples: Vec<Binary32> = Vec::new();
    let mut i: usize = 0;
    while i < n
        invariant
            n == bytes.len() / 4,
            i <= n,
            samples@ == pcm_of(bytes@).take(i as int),
        decreases n - i,
    {
        let at: usize = 4 * i;
        let bits: u32 = bytes[at] as u32 + 0x100 * (bytes[at + 1] as u32) + 0x1_0000 * (bytes[at
            + 2] as u32) + 0x100_0000 * (bytes[at + 3] as u32);
        samples.push(Binary32 { bits });
        i += 1;
        assert(pcm_of(bytes@).take(i as int) =~= pcm_of(bytes@).take(i - 1).push(
            pcm_of(bytes@)[i - 1],
        ));
    }
    assert(pcm_of(bytes@).take(n as int) =~= pcm_of(bytes@));
    samples
}

/// The bytes that hold samples.
pub open spec fn le_bytes(word: u32) -> Seq<u8> {
    seq![
        (word % 0x100) as u8,
        (word / 0x100 % 0x100) as u8,
        (word / 0x1_0000 % 0x100) as u8,
        (word / 0x100_0000) as u8,
    ]
}

/// The bytes of several samples, one after the other.
pub open spec fn bytes_of(samples: Seq<Binary32>) -> Seq<u8> {
    Seq::new(4 * samples.len(), |k: int| le_bytes(samples[k / 4].bits)[k % 4])
}

/// Samples survive the wire: decoding the bytes of samples gives them back, and up to three
/// stray bytes behind them change nothing.
pub proof fn law_pcm_round_trip(samples: Seq<Binary32>, stray: Seq<u8>)
    requires
        stray.len() < 4,
    ensures
        pcm_of(bytes_of(samples) + stray) == samples,
{
    let bytes = bytes_of(samples) + stray;
    assert(bytes.len() / 4 == samples.len());
    assert forall|i: int| 0 <= i < samples.len() implies pcm_of(bytes)[i] == samples[i] by {
        let word = samples[i].bits;
        assert((4 * i) / 4 == i && (4 * i + 1) / 4 == i && (4 * i + 2) / 4 == i && (4 * i + 3) / 4
            == i);
        assert((4 * i) % 4 == 0 && (4 * i + 1) % 4 == 1 && (4 * i + 2) % 4 == 2 && (4 * i + 3) % 4
            == 3);
        assert(bytes[4 * i] == le_bytes(word)[0]);
        assert(bytes[4 * i + 1] == le_bytes(word)[1]);
        assert(bytes[4 * i + 2] == le_bytes(word)[2]);
        assert(bytes[4 * i + 3] == le_bytes(word)[3]);
        assert(word == word % 0x100 + 0x100 * (word / 0x100 % 0x100) + 0x1_0000 * (word / 0x1_0000
            % 0x100) + 0x100_0000 * (word / 0x100_0000));
    }
    assert(pcm_of(bytes) =~= samples);
}

// ---------------------------------------------------------------------------
// Requests
// ---------------------------------------------------------------------------

/// The request to speak `text` as turn `turn`.
pub open spec fn speak_json(turn: u64, text: Seq<char>) -> Json {
    Json::Object(
        Map::empty().insert("type"@, Json::Text("speak"@)).insert(
            "turn"@,
            Json::Unsigned(turn),
        ).insert("text"@, Json::Text(text)),
    )
}

/// The request to stop speaking turn `turn`.
pub open spec fn cancel_json(turn: u64) -> Json {
    Json::Object(
        Map::empty().insert("type"@, Json::Text("cancel"@)).insert("turn"@, Json::Unsigned(turn)),
    )
}

/// A message on the wire: its JSON text and a newline.
pub open spec fn wire_line(message: Json) -> Seq<u8> {
    json::json_bytes(message).push(0x0a)
}

fn to_line(message: &Value) -> (line: Vec<u8>)
    ensures
        line@ == wire_line(json::json_view(*message)),
{
    match json::to_bytes(message) {
        Ok(bytes) => {
            let mut line = bytes;
            line.push(0x0a);
            line
        },
        Err(_) => Vec::new(),
    }
}

fn speak_line(turn: u64, text: &str) -> (line: Vec<u8>)
    ensures
        line@ == wire_line(speak_json(turn, text@)),
{
    let mut message = json::empty_object();
    json::set_member(&mut message, "type", json::from_text("speak"));
    json::set_member(&mut message, "turn", json::from_count(turn));
    json::set_member(&mut message, "text", json::from_text(text));
    to_line(&message)
}

fn cancel_line(turn: u64) -> (line: Vec<u8>)
    ensures
        line@ == wire_line(cancel_json(turn)),
{
    let mut message = json::empty_object();
    json::set_member(&mut message, "type", json::from_text("cancel"));
    json::set_member(&mut message, "turn", json::from_count(turn));
    to_line(&message)
}

// ---------------------------------------------------------------------------
// Connecting
// ---------------------------------------------------------------------------

/// What a failure to synthesize is, as a mathematical value.
#[verifier::ext_equal]
pub enum SynthErrorView {
    Unreachable(Seq<char>),
    Protocol(Seq<char>),
    Cancelled,
}

impl View for SynthError {
    type V = SynthErrorView;

    open spec fn view(&self) -> SynthErrorView {
        match *self {
            SynthError::Unreachable(why) => SynthErrorView::Unreachable(why@),
            SynthError::Protocol(why) => SynthErrorView::Protocol(why@),
            SynthError::Cancelled => SynthErrorView::Cancelled,
        }
    }
}

/// What the sidecar's first message comes to: the sample rate, if it is `ready`.
pub open spec fn greeting_of(line: Seq<char>, message: Json) -> Result<u32, SynthErrorView> {
    if message.member("type"@).text() == Some("ready"@) {
        Ok(
            match message.member("sample_rate"@).count() {
                Some(rate) => rate as u32,
                None => DEFAULT_SAMPLE_RATE as u32,
            },
        )
    } else {
        Err(SynthErrorView::Protocol("expected ready, got "@ + quoted(line)))
    }
}

/// What the sidecar's first line comes to.
pub open spec fn ready_of(line: Seq<char>) -> Result<u32, SynthErrorView> {
    match json::json_of(crate::text::trimmed(line)) {
        Ok(message) => greeting_of(line, message),
        Err(why) => Err(SynthErrorView::Protocol(bad_line("bad ready line "@, line, why))),
    }
}

/// A result of synthesis as a mathematical value.
pub open spec fn result_view<T>(result: Result<T, SynthError>) -> Result<T, SynthErrorView> {
    match result {
        Ok(value) => Ok(value),
        Err(error) => Err(error@),
    }
}

/// The sidecar's first message, as received in `line`: the sample rate, if it is `ready`.
pub fn greet(line: &str, message: &Value) -> (rate: Result<u32, SynthError>)
    ensures
        result_view(rate) == greeting_of(line@, json::json_view(*message)),
{
    let ready = match json::as_text(json::member(message, "type")) {
        Some(kind) => <str as PartialEq>::eq(kind, "ready"),
        None => false,
    };
    if !ready {
        let mut text = String::new();
        text.append("expected ready, got ");
        text.append(quote(line).as_str());
        assert(text@ == "expected ready, got "@ + quoted(line@));
        return Err(SynthError::Protocol(text));
    }
    match json::as_count(json::member(message, "sample_rate")) {
        Some(rate) => Ok(rate as u32),
        None => Ok(DEFAULT_SAMPLE_RATE as u32),
    }
}

/// Read the sidecar's first line: the sample rate, once the model is loaded and warm.
pub fn ready(line: &str) -> (rate: Result<u32, SynthError>)
    ensures
        result_view(rate) == ready_of(line@),
{
    match json::parse(line.trim()) {
        Ok(message) => greet(line, &message),
        Err(error) => {
            let why = json::error_text(&error);
            Err(SynthError::Protocol(complain("bad ready line ", line, why.as_str())))
        },
    }
}

// ---------------------------------------------------------------------------
// Speaking
// ---------------------------------------------------------------------------

/// What happens to the connection.
#[derive(Debug)]
pub enum SynthEvent {
    /// A line came.
    Line(String),
    /// No line came in time.
    LineTimeout,
    /// The sidecar closed the connection.
    Closed,
    /// Reading a line failed, with these words.
    LineFailed(String),
    /// The bytes asked for came.
    Audio(Vec<u8>),
    /// They did not come in time; these are the words of the failure.
    AudioTimeout(String),
    /// Reading them failed, with these words.
    AudioFailed(String),
}

/// What is to be done about it.
#[derive(Debug)]
pub enum SynthAction {
    /// Read the next line.
    ReadLine,
    /// Read exactly this many bytes.
    ReadAudio(usize),
    /// Hand the samples on, then read the next line.
    Play(Vec<Binary32>),
    /// Send these bytes, then read the next line.
    Send(Vec<u8>),
    /// Stop reading; this is the outcome.
    Finish(Result<(), SynthError>),
}

#[verifier::ext_equal]
pub enum SynthEventView {
    Line(Seq<char>),
    LineTimeout,
    Closed,
    LineFailed(Seq<char>),
    Audio(Seq<u8>),
    AudioTimeout(Seq<char>),
    AudioFailed(Seq<char>),
}

#[verifier::ext_equal]
pub enum SynthActionView {
    ReadLine,
    ReadAudio(int),
    Play(Seq<Binary32>),
    Send(Seq<u8>),
    Finish(Result<(), SynthErrorView>),
}

impl View for SynthEvent {
    type V = SynthEventView;

    open spec fn view(&self) -> SynthEventView {
        match *self {
            SynthEvent::Line(line) => SynthEventView::Line(line@),
            SynthEvent::LineTimeout => SynthEventView::LineTimeout,
            SynthEvent::Closed => SynthEventView::Closed,
            SynthEvent::LineFailed(why) => SynthEventView::LineFailed(why@),
            SynthEvent::Audio(bytes) => SynthEventView::Audio(bytes@),
            SynthEvent::AudioTimeout(why) => SynthEventView::AudioTimeout(why@),
            SynthEvent::AudioFailed(why) => SynthEventView::AudioFailed(why@),
        }
    }
}

impl View for SynthAction {
    type V = SynthActionView;

    open spec fn view(&self) -> SynthActionView {
        match *self {
            SynthAction::ReadLine => SynthActionView::ReadLine,
            SynthAction::ReadAudio(n) => SynthActionView::ReadAudio(n as int),
            SynthAction::Play(samples) => SynthActionView::Play(samples@),
            SynthAction::Send(bytes) => SynthActionView::Send(bytes@),
            SynthAction::Finish(result) => SynthActionView::Finish(result_view(result)),
        }
    }
}

/// A synthesis' state.
pub struct SynthesisState {
    /// The turn id on the wire.
    pub id: u64,
    /// Has `cancel` been sent?
    pub cancelled: bool,
}

/// The outcome of a failure.
pub open spec fn fails(error: SynthErrorView) -> SynthActionView {
    SynthActionView::Finish(Err(error))
}

/// The length that an `audio` header claims, as a machine size.
pub open spec fn claimed(message: Json) -> usize {
    match message.member("bytes"@).count() {
        Some(n) => n as usize,
        None => 0,
    }
}

/// What a message asks for.
pub open spec fn message_action(message: Json) -> SynthActionView {
    match message.member("type"@).text() {
        Some(kind) => if kind == "audio"@ {
            let n = claimed(message);
            if n > MAX_PCM_BYTES {
                fails(
                    SynthErrorView::Protocol(
                        "audio chunk too large: "@ + crate::text::decimal(n as nat),
                    ),
                )
            } else {
                SynthActionView::ReadAudio(n as int)
            }
        } else if kind == "done"@ {
            SynthActionView::Finish(Ok(()))
        } else if kind == "error"@ {
            fails(
                SynthErrorView::Protocol(
                    match message.member("message"@).text() {
                        Some(why) => why,
                        None => "tts error"@,
                    },
                ),
            )
        } else {
            SynthActionView::ReadLine
        },
        None => SynthActionView::ReadLine,
    }
}

impl SynthesisState {
    /// What the event asks for; `cancel` tells whether a barge-in asks to stop.
    pub open spec fn step(self, event: SynthEventView, cancel: bool) -> (
        SynthesisState,
        SynthActionView,
    ) {
        match event {
            SynthEventView::Line(line) => (
                self,
                match json::json_of(crate::text::trimmed(line)) {
                    Ok(message) => message_action(message),
                    Err(why) => fails(
                        SynthErrorView::Protocol(bad_line("bad line "@, line, why)),
                    ),
                },
            ),
            SynthEventView::LineTimeout => (
                self,
                if cancel {
                    SynthActionView::Finish(Ok(()))
                } else {
                    fails(SynthErrorView::Unreachable("tts read timed out"@))
                },
            ),
            SynthEventView::Closed => (
                self,
                fails(SynthErrorView::Unreachable("sidecar closed connection"@)),
            ),
            SynthEventView::LineFailed(why) => (self, fails(SynthErrorView::Protocol(why))),
            SynthEventView::AudioTimeout(why) => (
                self,
                if cancel {
                    SynthActionView::Finish(Ok(()))
                } else {
                    fails(SynthErrorView::Protocol(why))
                },
            ),
            SynthEventView::AudioFailed(why) => (self, fails(SynthErrorView::Protocol(why))),
            SynthEventView::Audio(bytes) => if self.cancelled {
                (self, SynthActionView::ReadLine)
            } else if cancel {
                (
                    SynthesisState { cancelled: true, ..self },
                    SynthActionView::Send(wire_line(cancel_json(self.id))),
                )
            } else {
                (self, SynthActionView::Play(pcm_of(bytes)))
            },
        }
    }
}

/// One request to speak, while it is being answered.
#[derive(Debug)]
pub struct Synthesis {
    id: u64,
    cancelled: bool,
}

impl View for Synthesis {
    type V = SynthesisState;

    closed spec fn view(&self) -> SynthesisState {
        SynthesisState { id: self.id, cancelled: self.cancelled }
    }
}

impl Synthesis {
    /// Take in what happened to the connection; returns what to do about it. `cancel` tells
    /// whether a barge-in asks to stop.
    pub fn on(&mut self, event: SynthEvent, cancel: bool) -> (action: SynthAction)
        ensures
            final(self)@ == old(self)@.step(event@, cancel).0,
            action@ == old(self)@.step(event@, cancel).1,
    {
        match event {
            SynthEvent::Line(line) => match json::parse(line.as_str().trim()) {
                Ok(message) => obey(&message),
                Err(error) => {
                    let why = json::error_text(&error);
                    let text = complain("bad line ", line.as_str(), why.as_str());
                    SynthAction::Finish(Err(SynthError::Protocol(text)))
                },
            },
            // A timeout while cancelled is a clean bail; otherwise the sidecar is hung.
            SynthEvent::LineTimeout => if cancel {
                SynthAction::Finish(Ok(()))
            } else {
                SynthAction::Finish(
                    Err(SynthError::Unreachable("tts read timed out".to_string())),
                )
            },
            SynthEvent::Closed => SynthAction::Finish(
                Err(SynthError::Unreachable("sidecar closed connection".to_string())),
            ),
            SynthEvent::LineFailed(why) => SynthAction::Finish(Err(SynthError::Protocol(why))),
            SynthEvent::AudioTimeout(why) => if cancel {
                SynthAction::Finish(Ok(()))
            } else {
                SynthAction::Finish(Err(SynthError::Protocol(why)))
            },
            SynthEvent::AudioFailed(why) => SynthAction::Finish(Err(SynthError::Protocol(why))),
            SynthEvent::Audio(bytes) => {
                if self.cancelled {
                    SynthAction::ReadLine  // draining after the cancel
                } else if cancel {
                    self.cancelled = true;
                    SynthAction::Send(cancel_line(self.id))
                } else {
                    SynthAction::Play(decode_pcm(bytes.as_slice()))
                }
            },
        }
    }
}

/// What a message of the sidecar asks for.
pub fn obey(message: &Value) -> (action: SynthAction)
    ensures
        action@ == message_action(json::json_view(*message)),
{
    let kind = match json::as_text(json::member(message, "type")) {
        Some(kind) => kind,
        None => return SynthAction::ReadLine,
    };
    if <str as PartialEq>::eq(kind, "audio") {
        let n: usize = match json::as_count(json::member(message, "bytes")) {
            Some(n) => n as usize,
            None => 0,
        };
        if n > MAX_PCM_BYTES {
            let mut text = String::new();
            text.append("audio chunk too large: ");
            text.append(decimal_of(n as u64).as_str());
            assert(text@ == "audio chunk too large: "@ + crate::text::decimal(n as nat));
            return SynthAction::Finish(Err(SynthError::Protocol(text)));
        }
        SynthAction::ReadAudio(n)
    } else if <str as PartialEq>::eq(kind, "done") {
        SynthAction::Finish(Ok(()))
    } else if <str as PartialEq>::eq(kind, "error") {
        let why = match json::as_text(json::member(message, "message")) {
            Some(why) => why.to_string(),
            None => "tts error".to_string(),
        };
        SynthAction::Finish(Err(SynthError::Protocol(why)))
    } else {
        SynthAction::ReadLine
    }
}

/// The client of a speech sidecar: its sample rate and the id of the latest request.
#[derive(Debug)]
pub struct SidecarTts {
    sample_rate: u32,
    next_id: u64,
}

impl SidecarTts {
    /// The sidecar's sample rate.
    pub closed spec fn rate(&self) -> u32 {
        self.sample_rate
    }

    /// How many requests there have been.
    pub closed spec fn requests(&self) -> u64 {
        self.next_id
    }

    /// A client of the sidecar that sent `line` first.
    pub fn connect(line: &str) -> (tts: Result<Self, SynthError>)
        ensures
            match (tts, ready_of(line@)) {
                (Ok(tts), Ok(rate)) => tts.rate() == rate && tts.requests() == 0,
                (Err(error), Err(why)) => error@ == why,
                _ => false,
            },
    {
        match ready(line) {
            Ok(sample_rate) => Ok(SidecarTts { sample_rate, next_id: 0 }),
            Err(error) => Err(error),
        }
    }

    /// Native sample rate of the synthesized samples.
    pub fn sample_rate(&self) -> (rate: u32)
        ensures
            rate == self.rate(),
    {
        self.sample_rate
    }

    /// Is there an id left for another request?
    pub fn can_speak(&self) -> (answer: bool)
        ensures
            answer == (self.requests() < u64::MAX),
    {
        self.next_id < u64::MAX
    }

    /// Begin a request to speak `text`: the bytes to send, and what then reads the answer.
    pub fn speak(&mut self, text: &str) -> (request: (Vec<u8>, Synthesis))
        requires
            old(self).requests() < u64::MAX,
        ensures
            final(self).requests() == old(self).requests() + 1,
            final(self).rate() == old(self).rate(),
            request.0@ == wire_line(speak_json(final(self).requests(), text@)),
            request.1@ == (SynthesisState { id: final(self).requests(), cancelled: false }),
    {
        self.next_id += 1;
        let id: u64 = self.next_id;
        (speak_line(id, text), Synthesis { id, cancelled: false })
    }
}

// ---------------------------------------------------------------------------
// Laws
// ---------------------------------------------------------------------------

/// What a synthesis does in a run of events, with whether a stop was asked for at each.
pub open spec fn synthesis_after(
    state: SynthesisState,
    events: Seq<(SynthEventView, bool)>,
) -> SynthesisState
    decreases events.len(),
{
    if events.len() == 0 {
        state
    } else {
        synthesis_after(state, events.drop_last()).step(events.last().0, events.last().1).0
    }
}

/// Once `cancel` has been sent, no more audio is handed on and no second `cancel` is sent,
/// whatever the sidecar still sends.
pub proof fn law_cancelled_stays_silent(
    state: SynthesisState,
    events: Seq<(SynthEventView, bool)>,
    event: SynthEventView,
    cancel: bool,
)
    requires
        state.cancelled,
    ensures
        synthesis_after(state, events).cancelled,
        !(synthesis_after(state, events).step(event, cancel).1 is Play),
        !(synthesis_after(state, events).step(event, cancel).1 is Send),
    decreases events.len(),
{
    if events.len() > 0 {
        law_cancelled_stays_silent(
            state,
            events.drop_last(),
            events.last().0,
            events.last().1,
        );
    }
}

/// A stop asked for is obeyed at the next audio: nothing of it is handed on, and one `cancel`
/// for this very request is sent.
pub proof fn law_cancel_is_sent(state: SynthesisState, bytes: Seq<u8>)
    requires
        !state.cancelled,
    ensures
        state.step(SynthEventView::Audio(bytes), true) == (
            SynthesisState { cancelled: true, ..state },
            SynthActionView::Send(wire_line(cancel_json(state.id))),
        ),
{
}

/// The connection stays in sync: the bytes that a header announces are asked for, all of
/// them and nothing else, also after a cancellation, and never more than the limit.
pub proof fn law_audio_is_framed(state: SynthesisState, line: Seq<char>, cancel: bool)
    ensures
        state.step(SynthEventView::Line(line), cancel).1 == (SynthesisState {
            cancelled: false,
            ..state
        }).step(SynthEventView::Line(line), cancel).1,
        state.step(SynthEventView::Line(line), cancel).1 matches SynthActionView::ReadAudio(n)
            ==> 0 <= n <= MAX_PCM_BYTES && (json::json_of(
            crate::text::trimmed(line),
        ) matches Ok(message) && n == claimed(message)),
{
}

/// Samples come four bytes each, the lowest byte first.
pub proof fn law_samples_are_little_endian(b0: u8, b1: u8, b2: u8, b3: u8, rest: Seq<u8>)
    ensures
        pcm_of(seq![b0, b1, b2, b3] + rest) == seq![
            Binary32 { bits: (b0 + 256 * b1 + 65_536 * b2 + 16_777_216 * b3) as u32 },
        ] + pcm_of(rest),
        pcm_of(Seq::<u8>::empty()).len() == 0,
{
    let all = seq![b0, b1, b2, b3] + rest;
    let first = seq![Binary32 { bits: (b0 + 256 * b1 + 65_536 * b2 + 16_777_216 * b3) as u32 }];
    assert(all.len() / 4 == 1 + rest.len() / 4);
    assert forall|i: int| 0 < i < all.len() / 4 implies pcm_of(all)[i] == #[trigger] pcm_of(rest)[i
        - 1] by {
        assert(all[4 * i] == rest[4 * (i - 1)]);
        assert(all[4 * i + 1] == rest[4 * (i - 1) + 1]);
        assert(all[4 * i + 2] == rest[4 * (i - 1) + 2]);
        assert(all[4 * i + 3] == rest[4 * (i - 1) + 3]);
    }
    assert forall|i: int| 0 <= i < all.len() / 4 implies pcm_of(all)[i] == (first + pcm_of(
        rest,
    ))[i] by {
        if i > 0 {
            assert(pcm_of(all)[i] == pcm_of(rest)[i - 1]);
        }
    }
    assert(pcm_of(all) =~= first + pcm_of(rest));
}

/// A request to speak says just that, what, and as which turn; one to cancel says which turn.
pub proof fn law_requests_say_what_they_are_for(turn: u64, text: Seq<char>)
    ensures
        speak_json(turn, text).member("type"@) == Json::Text("speak"@),
        speak_json(turn, text).member("turn"@) == Json::Unsigned(turn),
        speak_json(turn, text).member("text"@) == Json::Text(text),
        speak_json(turn, text) matches Json::Object(members) && members.dom() =~= set![
            "type"@,
            "turn"@,
            "text"@,
        ],
        cancel_json(turn).member("type"@) == Json::Text("cancel"@),
        cancel_json(turn).member("turn"@) == Json::Unsigned(turn),
        cancel_json(turn) matches Json::Object(members) && members.dom() =~= set![
            "type"@,
            "turn"@,
        ],
{
    reveal_strlit("type");
    reveal_strlit("turn");
    reveal_strlit("text");
    let a = "type"@;
    let b = "turn"@;
    let c = "text"@;
    assert(a[1] == 'y' && b[1] == 'u' && c[1] == 'e');
}

/// A message on the wire is its JSON and one line feed behind it.
pub proof fn law_messages_are_lines(message: Json)
    ensures
        wire_line(message).len() == json::json_bytes(message).len() + 1,
        wire_line(message).last() == 0x0a,
        wire_line(message).drop_last() == json::json_bytes(message),
{
    assert(wire_line(message).drop_last() =~= json::json_bytes(message));
}

/// A sidecar that says it is ready is taken at its word: its rate, or 24 kHz if it names none.
/// Anything else is no greeting.
pub proof fn law_greeting(line: Seq<char>, message: Json)
    ensures
        message.member("type"@) == Json::Text("ready"@) && (message.member(
            "sample_rate"@,
        ) matches Json::Unsigned(rate) && rate <= u32::MAX) ==> greeting_of(line, message) == Ok::<
            u32,
            SynthErrorView,
        >(message.member("sample_rate"@)->Unsigned_0 as u32),
        message.member("type"@) == Json::Text("ready"@) && !(message.member(
            "sample_rate"@,
        ) is Unsigned) ==> greeting_of(line, message) == Ok::<u32, SynthErrorView>(24_000u32),
        message.member("type"@) != Json::Text("ready"@) ==> (greeting_of(line, message) matches Err(
            SynthErrorView::Protocol(why),
        ) && why == "expected ready, got "@ + quoted(line)),
        json::json_of(crate::text::trimmed(line)) matches Ok(said) ==> ready_of(line)
            == greeting_of(line, said),
        json::json_of(crate::text::trimmed(line)) matches Err(why) ==> ready_of(line) == Err::<
            u32,
            SynthErrorView,
        >(SynthErrorView::Protocol("bad ready line "@ + quoted(line) + ": "@ + why)),
{
}

/// What the sidecar may say, and what follows: the audio it announces is read, up to the limit,
/// `done` ends the request, `error` ends it with its words, and all else is passed over.
pub proof fn law_messages_are_obeyed(message: Json, n: u64)
    requires
        n <= usize::MAX,
    ensures
        ({
            let kind = message.member("type"@);
            let action = message_action(message);
            &&& kind == Json::Text("audio"@) && message.member("bytes"@) == Json::Unsigned(n) && n
                <= 2_880_000 ==> action == SynthActionView::ReadAudio(n as int)
            &&& kind == Json::Text("audio"@) && message.member("bytes"@) == Json::Unsigned(n) && n
                > 2_880_000 ==> action == SynthActionView::Finish(
                Err(
                    SynthErrorView::Protocol(
                        "audio chunk too large: "@ + crate::text::decimal(n as nat),
                    ),
                ),
            )
            &&& kind == Json::Text("audio"@) && !(message.member("bytes"@) is Unsigned) ==> action
                == SynthActionView::ReadAudio(0)
            &&& kind == Json::Text("done"@) ==> action == SynthActionView::Finish(Ok(()))
            &&& kind == Json::Text("error"@) ==> (message.member("message"@) matches Json::Text(why)
                ==> action == SynthActionView::Finish(Err(SynthErrorView::Protocol(why))))
            &&& kind == Json::Text("error"@) && !(message.member("message"@) is Text) ==> action
                == SynthActionView::Finish(Err(SynthErrorView::Protocol("tts error"@)))
            &&& kind != Json::Text("audio"@) && kind != Json::Text("done"@) && kind != Json::Text(
                "error"@,
            ) ==> action == SynthActionView::ReadLine
        }),
{
    reveal_strlit("audio");
    reveal_strlit("done");
    reveal_strlit("error");
    assert("audio"@[0] == 'a' && "done"@[0] == 'd' && "error"@[0] == 'e');
}

/// What happens to the connection and what follows: a line is obeyed whether a stop is asked
/// for or not, silence is a clean end only when one is, and any other failure ends the request
/// with its words. Only audio can change the state.
pub proof fn law_connection_events(
    state: SynthesisState,
    line: Seq<char>,
    why: Seq<char>,
    cancel: bool,
)
    ensures
        state.step(SynthEventView::Line(line), cancel).0 == state,
        json::json_of(crate::text::trimmed(line)) matches Ok(message) ==> state.step(
            SynthEventView::Line(line),
            cancel,
        ).1 == message_action(message),
        json::json_of(crate::text::trimmed(line)) matches Err(bad) ==> state.step(
            SynthEventView::Line(line),
            cancel,
        ).1 == SynthActionView::Finish(
            Err(SynthErrorView::Protocol("bad line "@ + quoted(line) + ": "@ + bad)),
        ),
        state.step(SynthEventView::LineTimeout, true) == (
            state,
            SynthActionView::Finish(Ok::<(), SynthErrorView>(())),
        ),
        state.step(SynthEventView::AudioTimeout(why), true) == (
            state,
            SynthActionView::Finish(Ok::<(), SynthErrorView>(())),
        ),
        state.step(SynthEventView::LineTimeout, false) == (
            state,
            SynthActionView::Finish(Err(SynthErrorView::Unreachable("tts read timed out"@))),
        ),
        state.step(SynthEventView::AudioTimeout(why), false) == (
            state,
            SynthActionView::Finish(Err(SynthErrorView::Protocol(why))),
        ),
        state.step(SynthEventView::Closed, cancel) == (
            state,
            SynthActionView::Finish(
                Err(SynthErrorView::Unreachable("sidecar closed connection"@)),
            ),
        ),
        state.step(SynthEventView::LineFailed(why), cancel) == (
            state,
            SynthActionView::Finish(Err(SynthErrorView::Protocol(why))),
        ),
        state.step(SynthEventView::AudioFailed(why), cancel) == (
            state,
            SynthActionView::Finish(Err(SynthErrorView::Protocol(why))),
        ),
{
}

/// Audio is played while no stop is asked for, and drained in silence once `cancel` was sent,
/// whether or not the stop is still asked for.
pub proof fn law_audio_is_played_or_drained(state: SynthesisState, bytes: Seq<u8>, cancel: bool)
    ensures
        !state.cancelled && !cancel ==> state.step(SynthEventView::Audio(bytes), cancel) == (
            state,
            SynthActionView::Play(pcm_of(bytes)),
        ),
        state.cancelled ==> state.step(SynthEventView::Audio(bytes), cancel) == (
            state,
            SynthActionView::ReadLine,
        ),
{
}

} // verus!

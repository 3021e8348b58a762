//! The WebSocket session's logic: the messages sent to the frontend, the
//! per-message pipeline (LLM → parse → TTS → multimodal_sync), conversation
//! history, heartbeat, incoming frames, and the registry of connected clients.
//!
//! Status sequence of one user message:
//! `thinking` → `speaking` → `multimodal_sync` → `ready`;
//! when the LLM call fails: `error` → 1 s pause → `ready`.

use vstd::prelude::*;
use crate::llm::{error_text, LLMError};
use crate::parser::{parse_llm_response, ParsedResponse};
use crate::text::{joined, same_text};
use crate::tts::{TTSResult, WavDuration};

verus! {

/// Number of slots reserved in each per-client channel.
pub const CHANNEL_CAPACITY: usize = 64;

/// Seconds between heartbeat pings.
pub const HEARTBEAT_INTERVAL_SECS: u64 = 30;

/// Seconds to wait for a pong before a connection counts as dead.
pub const HEARTBEAT_TIMEOUT_SECS: u64 = 60;

/// Maximum number of (user, assistant) message pairs kept in conversation
/// history; the history keeps at most `2 * MAX_HISTORY` entries.
pub const MAX_HISTORY: usize = 20;

/// Maximum number of entries kept in conversation history.
pub const HISTORY_LIMIT: usize = 2 * MAX_HISTORY;

/// Seconds the error status stays up before `ready` follows.
pub const ERROR_PAUSE_SECS: u64 = 1;

/// The sample rate reported when there is no audio.
pub const NO_AUDIO_SAMPLE_RATE: u32 = 32_000;

/// Messages sent to connected WebSocket clients.
pub enum WSMessage {
    /// A multimodal response packet containing text, motion, expression and
    /// optionally base-64 encoded WAV audio.
    MultimodalSync {
        motion_id: String,
        expression_id: String,
        text: String,
        has_audio: bool,
        audio_data: Option<String>,
        sample_rate: u32,
        duration: WavDuration,
        timestamp: u64,
    },
    /// A lifecycle status update: `thinking`, `speaking`, `ready` or `error`.
    Status { status: String, message: Option<String>, timestamp: u64 },
}

/// `msg` is the status `name`, with `message` as its text, stamped `now`.
pub open spec fn is_status(msg: WSMessage, name: Seq<char>, message: Option<Seq<char>>, now: u64) -> bool {
    match msg {
        WSMessage::Status { status, message: m, timestamp } => {
            &&& status@ == name
            &&& timestamp == now
            &&& match (m, message) {
                (Some(a), Some(b)) => a@ == b,
                (None, None) => true,
                _ => false,
            }
        },
        _ => false,
    }
}

/// `msg` is the multimodal packet for `parsed` with the synthesis result
/// `audio`: without audio it reports no data, 32 kHz and a zero duration.
pub open spec fn is_sync_for(msg: WSMessage, parsed: ParsedResponse, audio: Option<TTSResult>, now: u64) -> bool {
    match msg {
        WSMessage::MultimodalSync {
            motion_id,
            expression_id,
            text,
            has_audio,
            audio_data,
            sample_rate,
            duration,
            timestamp,
        } => {
            &&& motion_id@ == parsed.motion_id@
            &&& expression_id@ == parsed.expression_id@
            &&& text@ == parsed.clean_text@
            &&& timestamp == now
            &&& has_audio == audio is Some
            &&& match audio {
                Some(r) => audio_data == Some(r.audio_data) && sample_rate == r.sample_rate
                    && duration == r.duration,
                None => audio_data is None && sample_rate == NO_AUDIO_SAMPLE_RATE && duration
                    == (WavDuration { numerator: 0, denominator: 1 }),
            }
        },
        _ => false,
    }
}

/// A status message.
pub fn status_message(status: &str, message: Option<String>, timestamp: u64) -> (msg: WSMessage)
    ensures
        msg == (WSMessage::Status { status: msg->status, message, timestamp }),
        msg->status@ == status@,
{
    WSMessage::Status { status: status.to_owned(), message, timestamp }
}

/// A multimodal packet from its parts.
pub fn multimodal_message(
    motion_id: &str,
    expression_id: &str,
    text: &str,
    has_audio: bool,
    audio_data: Option<String>,
    sample_rate: u32,
    duration: WavDuration,
    timestamp: u64,
) -> (msg: WSMessage)
    ensures
        msg matches WSMessage::MultimodalSync {
            motion_id: m,
            expression_id: e,
            text: t,
            has_audio: h,
            audio_data: a,
            sample_rate: s,
            duration: d,
            timestamp: ts,
        } && m@ == motion_id@ && e@ == expression_id@ && t@ == text@ && h == has_audio && a
            == audio_data && s == sample_rate && d == duration && ts == timestamp,
{
    WSMessage::MultimodalSync {
        motion_id: motion_id.to_owned(),
        expression_id: expression_id.to_owned(),
        text: text.to_owned(),
        has_audio,
        audio_data,
        sample_rate,
        duration,
        timestamp,
    }
}

/// The multimodal packet for a parsed reply and its synthesis result.
pub fn sync_message(parsed: &ParsedResponse, audio: Option<TTSResult>, timestamp: u64) -> (msg: WSMessage)
    ensures
        is_sync_for(msg, *parsed, audio, timestamp),
{
    let has_audio = audio.is_some();
    match audio {
        Some(r) => multimodal_message(
            parsed.motion_id.as_str(),
            parsed.expression_id.as_str(),
            parsed.clean_text.as_str(),
            has_audio,
            Some(r.audio_data),
            r.sample_rate,
            r.duration,
            timestamp,
        ),
        None => multimodal_message(
            parsed.motion_id.as_str(),
            parsed.expression_id.as_str(),
            parsed.clean_text.as_str(),
            has_audio,
            None,
            NO_AUDIO_SAMPLE_RATE,
            WavDuration { numerator: 0, denominator: 1 },
            timestamp,
        ),
    }
}

/// The packet's text is the reply with all its tags stripped, whether or not
/// audio was synthesized: never the raw reply.
pub proof fn law_sync_text_is_clean(msg: WSMessage, parsed: ParsedResponse, audio: Option<TTSResult>, now: u64, raw: Seq<char>)
    requires
        is_sync_for(msg, parsed, audio, now),
        parsed.parses(raw),
    ensures
        msg matches WSMessage::MultimodalSync { text, motion_id, expression_id, timestamp, .. } && text@
            == crate::parser::strip_tags(raw) && motion_id@ == crate::parser::chosen_motion(raw) && expression_id@
            == crate::parser::chosen_expression(raw) && timestamp == now,
        forall|msg2: WSMessage, audio2: Option<TTSResult>|
            #[trigger] is_sync_for(msg2, parsed, audio2, now) ==> (msg2 matches WSMessage::MultimodalSync {
                text: t2,
                ..
            } && (msg matches WSMessage::MultimodalSync { text, .. } && t2@ == text@)),
{
}

/// In every packet that [`sync_message`] builds, `has_audio` tells whether
/// audio data is present.
pub proof fn law_has_audio_iff_data(msg: WSMessage, parsed: ParsedResponse, audio: Option<TTSResult>, now: u64)
    requires
        is_sync_for(msg, parsed, audio, now),
    ensures
        msg matches WSMessage::MultimodalSync { has_audio, audio_data, .. } && has_audio == audio_data is Some,
{
}

// ---------------------------------------------------------------------------
// Conversation history
// ---------------------------------------------------------------------------

/// The history as (role, content) texts.
pub open spec fn history_view(h: Seq<(String, String)>) -> Seq<(Seq<char>, Seq<char>)> {
    h.map_values(|e: (String, String)| (e.0@, e.1@))
}

/// The newest `HISTORY_LIMIT` entries of `h`.
pub open spec fn trimmed(h: Seq<(Seq<char>, Seq<char>)>) -> Seq<(Seq<char>, Seq<char>)> {
    if h.len() > HISTORY_LIMIT {
        h.skip(h.len() - HISTORY_LIMIT)
    } else {
        h
    }
}

/// Appends an entry without trimming.
fn remember(history: &mut Vec<(String, String)>, role: &str, content: &str)
    ensures
        history_view(final(history)@) == history_view(old(history)@).push((role@, content@)),
{
    history.push((role.to_owned(), content.to_owned()));
    assert(history_view(history@) =~= history_view(old(history)@).push((role@, content@)));
}

/// Drops the oldest entries until at most `HISTORY_LIMIT` remain.
fn trim_history(history: &mut Vec<(String, String)>)
    ensures
        history_view(final(history)@) == trimmed(history_view(old(history)@)),
{
    let ghost h0 = history_view(history@);
    let ghost n0 = history@.len();
    while history.len() > HISTORY_LIMIT
        invariant
            history@.len() >= HISTORY_LIMIT || history@.len() == n0,
            n0 >= history@.len(),
            history_view(history@) == h0.skip(n0 - history@.len()),
            h0.len() == n0,
        decreases history.len(),
    {
        let ghost before = history@;
        history.remove(0);
        assert(history@ =~= before.subrange(1, before.len() as int));
        assert(history_view(history@) =~= history_view(before).skip(1));
        assert(history_view(history@) =~= h0.skip(n0 - history@.len()));
    }
    assert(h0.skip(0) =~= h0);
}

/// Trimming keeps at most `MAX_HISTORY` user/assistant pairs (`HISTORY_LIMIT`
/// entries) and always keeps the newest ones.
pub proof fn law_trim_keeps_newest(h: Seq<(Seq<char>, Seq<char>)>)
    ensures
        trimmed(h).len() <= HISTORY_LIMIT,
        h.len() <= HISTORY_LIMIT ==> trimmed(h) == h,
        forall|i: int|
            0 <= i < trimmed(h).len() ==> #[trigger] trimmed(h)[trimmed(h).len() - 1 - i] == h[h.len() - 1 - i],
{
}

// ---------------------------------------------------------------------------
// The per-message pipeline
// ---------------------------------------------------------------------------

/// Where a turn stands.
#[derive(PartialEq, Eq, Debug, Clone, Copy)]
pub enum TurnPhase {
    /// `thinking` is being sent.
    Thinking,
    /// Waiting for the LLM's reply.
    AwaitingReply,
    /// `speaking` is being sent.
    Speaking,
    /// Waiting for speech synthesis.
    AwaitingAudio,
    /// The multimodal packet is being sent.
    Syncing,
    /// `ready` is being sent after a reply.
    Readying,
    /// `error` is being sent.
    ReportingError,
    /// Pausing so the frontend can show the error.
    Pausing,
    /// `ready` is being sent after an error.
    FinalReady,
    /// The turn is over.
    Finished,
}

/// What the session should do next.
pub enum TurnAction {
    /// Send this message to the client, then report whether it was delivered.
    Send(WSMessage),
    /// Call the LLM with the user's message and the history, then report its reply.
    CallLlm,
    /// Synthesize speech for this parsed reply, then report the result.
    Synthesize(ParsedResponse),
    /// Sleep this many seconds, then report.
    Pause(u64),
    /// The turn is over.
    Stop,
}

/// The steps a phase has left at most before the turn is over.
pub open spec fn steps_left(p: TurnPhase) -> nat {
    match p {
        TurnPhase::Thinking => 6,
        TurnPhase::AwaitingReply => 5,
        TurnPhase::Speaking => 4,
        TurnPhase::AwaitingAudio => 3,
        TurnPhase::Syncing => 2,
        TurnPhase::Readying => 1,
        TurnPhase::ReportingError => 3,
        TurnPhase::Pausing => 2,
        TurnPhase::FinalReady => 1,
        TurnPhase::Finished => 0,
    }
}

/// The phase after a send was attempted (`delivered` tells whether it reached
/// the client).  An undelivered `thinking`, `speaking` or packet ends the turn.
pub open spec fn after_send(p: TurnPhase, delivered: bool) -> TurnPhase {
    match p {
        TurnPhase::Thinking => if delivered { TurnPhase::AwaitingReply } else { TurnPhase::Finished },
        TurnPhase::Speaking => if delivered { TurnPhase::AwaitingAudio } else { TurnPhase::Finished },
        TurnPhase::Syncing => if delivered { TurnPhase::Readying } else { TurnPhase::Finished },
        TurnPhase::ReportingError => TurnPhase::Pausing,
        _ => TurnPhase::Finished,
    }
}

/// `a` is what the turn does on entering phase `p` after a send: call the LLM,
/// synthesize the parsed reply, send `ready`, pause after an error, or stop.
pub open spec fn sent_action(p: TurnPhase, reply: Option<ParsedResponse>, now: u64, a: TurnAction) -> bool {
    match p {
        TurnPhase::AwaitingReply => a is CallLlm,
        TurnPhase::AwaitingAudio => a matches TurnAction::Synthesize(r) && reply == Some(r),
        TurnPhase::Readying => a matches TurnAction::Send(m) && is_status(m, "ready"@, None, now),
        TurnPhase::Pausing => a == TurnAction::Pause(ERROR_PAUSE_SECS),
        _ => a is Stop,
    }
}

/// Phases that wait for a send's outcome.
pub open spec fn is_sending(p: TurnPhase) -> bool {
    p == TurnPhase::Thinking || p == TurnPhase::Speaking || p == TurnPhase::Syncing || p
        == TurnPhase::Readying || p == TurnPhase::ReportingError || p == TurnPhase::FinalReady
}

/// One user message being answered.
pub struct Turn {
    phase: TurnPhase,
    content: String,
    parsed: Option<ParsedResponse>,
}

fn copy_parsed(p: &ParsedResponse) -> (c: ParsedResponse)
    ensures
        c == *p,
{
    ParsedResponse {
        motion_id: p.motion_id.clone(),
        expression_id: p.expression_id.clone(),
        clean_text: p.clean_text.clone(),
        raw_text: p.raw_text.clone(),
    }
}

impl Turn {
    /// The turn's phase.
    pub closed spec fn phase(&self) -> TurnPhase {
        self.phase
    }

    /// The user's message.
    pub closed spec fn content(&self) -> Seq<char> {
        self.content@
    }

    /// The parsed reply, once there is one.
    pub closed spec fn reply(&self) -> Option<ParsedResponse> {
        self.parsed
    }

    /// From `speaking` on, a successful turn holds its parsed reply.
    pub closed spec fn wf(&self) -> bool {
        (self.phase == TurnPhase::Speaking || self.phase == TurnPhase::AwaitingAudio || self.phase
            == TurnPhase::Syncing || self.phase == TurnPhase::Readying) ==> self.parsed is Some
    }

    /// Begin answering `content`: first `thinking` is sent.
    pub fn start(content: String, now: u64) -> (r: (Turn, TurnAction))
        ensures
            r.0.wf(),
            r.0.phase() == TurnPhase::Thinking,
            r.0.content() == content@,
            r.0.reply() is None,
            r.1 matches TurnAction::Send(m) && is_status(m, "thinking"@, None, now),
    {
        let msg = status_message("thinking", None, now);
        (Turn { phase: TurnPhase::Thinking, content, parsed: None }, TurnAction::Send(msg))
    }

    /// The phase's message was sent, or could not be.
    pub fn on_sent(&mut self, delivered: bool, history: &mut Vec<(String, String)>, now: u64) -> (a: TurnAction)
        requires
            old(self).wf(),
            is_sending(old(self).phase()),
        ensures
            final(self).wf(),
            final(self).phase() == after_send(old(self).phase(), delivered),
            final(self).content() == old(self).content(),
            final(self).reply() == old(self).reply(),
            final(history)@ == old(history)@,
            sent_action(final(self).phase(), old(self).reply(), now, a),
    {
        match self.phase {
            TurnPhase::Thinking => {
                if delivered {
                    self.phase = TurnPhase::AwaitingReply;
                    TurnAction::CallLlm
                } else {
                    self.phase = TurnPhase::Finished;
                    TurnAction::Stop
                }
            },
            TurnPhase::Speaking => {
                if delivered {
                    match &self.parsed {
                        Some(p) => {
                            let copy = copy_parsed(p);
                            self.phase = TurnPhase::AwaitingAudio;
                            TurnAction::Synthesize(copy)
                        },
                        None => {
                            self.phase = TurnPhase::Finished;
                            TurnAction::Stop
                        },
                    }
                } else {
                    self.phase = TurnPhase::Finished;
                    TurnAction::Stop
                }
            },
            TurnPhase::Syncing => {
                if delivered {
                    self.phase = TurnPhase::Readying;
                    TurnAction::Send(status_message("ready", None, now))
                } else {
                    self.phase = TurnPhase::Finished;
                    TurnAction::Stop
                }
            },
            TurnPhase::ReportingError => {
                self.phase = TurnPhase::Pausing;
                TurnAction::Pause(ERROR_PAUSE_SECS)
            },
            _ => {
                self.phase = TurnPhase::Finished;
                TurnAction::Stop
            },
        }
    }

    /// The LLM answered (or failed).  The user's message is added to the
    /// history; a reply is parsed, its clean text is added after it, and
    /// `speaking` is sent; a failure sends `error` with the failure's text.
    /// Either way the history is then trimmed.
    pub fn on_reply(&mut self, reply: Result<String, LLMError>, history: &mut Vec<(String, String)>, now: u64) -> (a: TurnAction)
        requires
            old(self).wf(),
            old(self).phase() == TurnPhase::AwaitingReply,
        ensures
            final(self).wf(),
            final(self).content() == old(self).content(),
            match reply {
                Ok(text) => {
                    &&& final(self).phase() == TurnPhase::Speaking
                    &&& final(self).reply() matches Some(p) && p.parses(text@)
                    &&& history_view(final(history)@) == trimmed(
                        history_view(old(history)@).push(("user"@, old(self).content())).push(
                            ("assistant"@, crate::parser::strip_tags(text@)),
                        ),
                    )
                    &&& a matches TurnAction::Send(m) && is_status(m, "speaking"@, None, now)
                },
                Err(e) => {
                    &&& final(self).phase() == TurnPhase::ReportingError
                    &&& final(self).reply() == old(self).reply()
                    &&& history_view(final(history)@) == trimmed(
                        history_view(old(history)@).push(("user"@, old(self).content())),
                    )
                    &&& a matches TurnAction::Send(m) && is_status(m, "error"@, Some(error_text(e)), now)
                },
            },
    {
        match reply {
            Ok(text) => {
                let parsed = parse_llm_response(text.as_str());
                remember(history, "user", self.content.as_str());
                remember(history, "assistant", parsed.clean_text.as_str());
                trim_history(history);
                self.parsed = Some(parsed);
                self.phase = TurnPhase::Speaking;
                TurnAction::Send(status_message("speaking", None, now))
            },
            Err(e) => {
                remember(history, "user", self.content.as_str());
                trim_history(history);
                self.phase = TurnPhase::ReportingError;
                TurnAction::Send(status_message("error", Some(e.describe()), now))
            },
        }
    }

    /// Speech synthesis finished, with audio or without: the multimodal packet is sent.
    pub fn on_audio(&mut self, audio: Option<TTSResult>, now: u64) -> (a: TurnAction)
        requires
            old(self).wf(),
            old(self).phase() == TurnPhase::AwaitingAudio,
        ensures
            final(self).wf(),
            old(self).reply() is Some,
            final(self).phase() == TurnPhase::Syncing,
            final(self).content() == old(self).content(),
            final(self).reply() == old(self).reply(),
            a matches TurnAction::Send(m) && is_sync_for(m, old(self).reply()->0, audio, now),
    {
        self.phase = TurnPhase::Syncing;
        match &self.parsed {
            Some(p) => TurnAction::Send(sync_message(p, audio, now)),
            None => TurnAction::Stop,
        }
    }

    /// The pause after an error is over: `ready` is sent.
    pub fn on_paused(&mut self, now: u64) -> (a: TurnAction)
        requires
            old(self).wf(),
            old(self).phase() == TurnPhase::Pausing,
        ensures
            final(self).wf(),
            final(self).phase() == TurnPhase::FinalReady,
            final(self).content() == old(self).content(),
            final(self).reply() == old(self).reply(),
            a matches TurnAction::Send(m) && is_status(m, "ready"@, None, now),
    {
        self.phase = TurnPhase::FinalReady;
        TurnAction::Send(status_message("ready", None, now))
    }
}

/// Once the error status has been sent, whether or not it reached the client,
/// the turn pauses for `ERROR_PAUSE_SECS` seconds and does nothing else; after
/// the pause `ready` is sent, and the turn ends after that send.
pub proof fn law_error_is_followed_by_pause(delivered: bool, reply: Option<ParsedResponse>, now: u64, a: TurnAction)
    ensures
        after_send(TurnPhase::ReportingError, delivered) == TurnPhase::Pausing,
        sent_action(after_send(TurnPhase::ReportingError, delivered), reply, now, a) <==> a == TurnAction::Pause(
            1,
        ),
        !is_sending(TurnPhase::Pausing),
        is_sending(TurnPhase::FinalReady),
        after_send(TurnPhase::FinalReady, delivered) == TurnPhase::Finished,
        sent_action(TurnPhase::Finished, reply, now, a) <==> a is Stop,
{
}

/// A delivered `thinking` calls the LLM, a delivered `speaking` synthesizes
/// the parsed reply and a delivered packet sends `ready`; an undelivered one
/// of these ends the turn.
pub proof fn law_reply_path(delivered: bool, reply: Option<ParsedResponse>, now: u64, a: TurnAction)
    ensures
        sent_action(after_send(TurnPhase::Thinking, delivered), reply, now, a) <==> if delivered {
            a is CallLlm
        } else {
            a is Stop
        },
        sent_action(after_send(TurnPhase::Speaking, delivered), reply, now, a) <==> if delivered {
            a matches TurnAction::Synthesize(r) && reply == Some(r)
        } else {
            a is Stop
        },
        sent_action(after_send(TurnPhase::Syncing, delivered), reply, now, a) <==> if delivered {
            a matches TurnAction::Send(m) && (m matches WSMessage::Status { status, message, timestamp } && status@
                == "ready"@ && message is None && timestamp == now)
        } else {
            a is Stop
        },
        after_send(TurnPhase::Readying, delivered) == TurnPhase::Finished,
{
}

/// Every step of a turn brings it closer to its end: a turn takes at most six
/// steps after `thinking` is sent.
pub proof fn law_turn_ends(p: TurnPhase, delivered: bool)
    ensures
        is_sending(p) ==> steps_left(after_send(p, delivered)) < steps_left(p),
        steps_left(TurnPhase::Speaking) < steps_left(TurnPhase::AwaitingReply),
        steps_left(TurnPhase::ReportingError) < steps_left(TurnPhase::AwaitingReply),
        steps_left(TurnPhase::Syncing) < steps_left(TurnPhase::AwaitingAudio),
        steps_left(TurnPhase::FinalReady) < steps_left(TurnPhase::Pausing),
        steps_left(p) <= 6,
        steps_left(p) == 0 <==> p == TurnPhase::Finished,
{
}

// ---------------------------------------------------------------------------
// Incoming frames
// ---------------------------------------------------------------------------

/// Incoming JSON message from the frontend.
pub struct ClientMessage {
    /// Always `"message"` in the current protocol.
    pub msg_type: String,
    /// Raw text typed by the user.
    pub content: String,
    /// Client-generated timestamp (optional).
    pub timestamp: Option<u64>,
}

/// What to do with a text frame.
pub enum FrameVerdict {
    /// Answer this user message.
    Process(String),
    /// A message of another type: it is ignored.
    Ignore,
    /// The frame was not a valid message: send this reply.
    Reply(WSMessage),
}

/// Decide on a text frame, given what decoding it as a [`ClientMessage`]
/// gave (the decoder's error text on failure).
pub fn judge_text_frame(decoded: Result<ClientMessage, String>, now: u64) -> (v: FrameVerdict)
    ensures
        match decoded {
            Ok(m) => if m.msg_type@ == "message"@ {
                v matches FrameVerdict::Process(c) && c == m.content
            } else {
                v is Ignore
            },
            Err(e) => v matches FrameVerdict::Reply(r) && is_status(r, "error"@, Some("invalid JSON: "@ + e@), now),
        },
{
    match decoded {
        Ok(m) => {
            if same_text(m.msg_type.as_str(), "message") {
                FrameVerdict::Process(m.content)
            } else {
                FrameVerdict::Ignore
            }
        },
        Err(e) => FrameVerdict::Reply(status_message("error", Some(joined("invalid JSON: ", e.as_str())), now)),
    }
}

// ---------------------------------------------------------------------------
// Heartbeat
// ---------------------------------------------------------------------------

/// What a heartbeat tick calls for.
#[derive(PartialEq, Eq, Debug, Clone, Copy)]
pub enum HeartbeatAction {
    /// Send a ping.
    Ping,
    /// Nothing arrived since the last ping: close the connection.
    Close,
}

/// What a tick calls for, and the liveness after it, given the liveness before it.
pub open spec fn tick_outcome(alive: bool) -> (HeartbeatAction, bool) {
    if alive {
        (HeartbeatAction::Ping, false)
    } else {
        (HeartbeatAction::Close, false)
    }
}

/// Whether anything arrived from the client since the last ping.
pub struct Heartbeat {
    alive: bool,
}

impl View for Heartbeat {
    type V = bool;

    closed spec fn view(&self) -> bool {
        self.alive
    }
}

impl Heartbeat {
    /// A new connection counts as alive.
    pub fn new() -> (h: Self)
        ensures
            h@,
    {
        Heartbeat { alive: true }
    }

    /// Any incoming frame (text, binary, ping, pong) shows the client is alive.
    pub fn on_frame(&mut self)
        ensures
            final(self)@,
    {
        self.alive = true;
    }

    /// A tick: close a connection that sent nothing since the last ping;
    /// otherwise ping it and wait for an answer.
    pub fn on_tick(&mut self) -> (a: HeartbeatAction)
        ensures
            (a, final(self)@) == tick_outcome(old(self)@),
    {
        if self.alive {
            self.alive = false;
            HeartbeatAction::Ping
        } else {
            HeartbeatAction::Close
        }
    }
}

/// Two ticks with no frame between them close the connection; a tick that
/// follows a frame pings.
pub proof fn law_silence_closes(alive: bool)
    ensures
        tick_outcome(tick_outcome(alive).1).0 == HeartbeatAction::Close,
        tick_outcome(true).0 == HeartbeatAction::Ping,
{
}

// ---------------------------------------------------------------------------
// Connected clients
// ---------------------------------------------------------------------------

/// The connected clients, each under an id that no other client has had.
pub struct ClientRegistry<S> {
    clients: Vec<(u64, S)>,
    next_id: u64,
}

impl<S> ClientRegistry<S> {
    /// The clients, in the order they joined, with their ids.
    pub closed spec fn clients(&self) -> Seq<(u64, S)> {
        self.clients@
    }

    /// The id the next client gets.
    pub closed spec fn next_id(&self) -> u64 {
        self.next_id
    }

    /// Ids increase in joining order and are all below the next id.
    pub closed spec fn wf(&self) -> bool {
        &&& forall|i: int, j: int|
            0 <= i < j < self.clients@.len() ==> (#[trigger] self.clients@[i]).0 < (#[trigger] self.clients@[j]).0
        &&& forall|i: int| 0 <= i < self.clients@.len() ==> (#[trigger] self.clients@[i]).0 < self.next_id
    }

    /// An empty registry.
    pub fn new() -> (r: Self)
        ensures
            r.wf(),
            r.clients() == Seq::<(u64, S)>::empty(),
            r.next_id() == 0,
    {
        ClientRegistry { clients: Vec::new(), next_id: 0 }
    }

    /// Whether another client can be given a fresh id.
    pub fn can_add(&self) -> (r: bool)
        ensures
            r == (self.next_id() < u64::MAX),
    {
        self.next_id < u64::MAX
    }

    /// Register a client; returns its id.
    pub fn add(&mut self, client: S) -> (id: u64)
        requires
            old(self).wf(),
            old(self).next_id() < u64::MAX,
        ensures
            final(self).wf(),
            id == old(self).next_id(),
            final(self).next_id() == id + 1,
            final(self).clients() == old(self).clients().push((id, client)),
            forall|i: int| 0 <= i < old(self).clients().len() ==> (#[trigger] old(self).clients()[i]).0 != id,
    {
        let id = self.next_id;
        self.clients.push((id, client));
        self.next_id = id + 1;
        id
    }

    /// Unregister the client with this id; returns whether it was registered.
    /// The others keep their order.
    pub fn remove(&mut self, id: u64) -> (removed: bool)
        requires
            old(self).wf(),
        ensures
            final(self).wf(),
            final(self).next_id() == old(self).next_id(),
            removed == exists|i: int| 0 <= i < old(self).clients().len() && (#[trigger] old(self).clients()[i]).0 == id,
            removed ==> exists|i: int|
                0 <= i < old(self).clients().len() && (#[trigger] old(self).clients()[i]).0 == id
                    && final(self).clients() == old(self).clients().remove(i),
            !removed ==> final(self).clients() == old(self).clients(),
    {
        let mut i: usize = 0;
        while i < self.clients.len()
            invariant
                i <= self.clients@.len(),
                self.clients@ == old(self).clients@,
                self.next_id == old(self).next_id,
                old(self).wf(),
                forall|j: int| 0 <= j < i ==> (#[trigger] self.clients@[j]).0 != id,
            decreases self.clients.len() - i,
        {
            if self.clients[i].0 == id {
                let ghost before = self.clients@;
                let _gone = self.clients.remove(i);
                proof {
                    assert(before[i as int].0 == id);
                    assert(old(self).clients()[i as int].0 == id);
                    assert forall|a: int, b: int| 0 <= a < b < self.clients@.len() implies (#[trigger] self.clients@[a]).0
                        < (#[trigger] self.clients@[b]).0 by {
                        let a2 = if a < i { a } else { a + 1 };
                        let b2 = if b < i { b } else { b + 1 };
                        assert(self.clients@[a] == before[a2]);
                        assert(self.clients@[b] == before[b2]);
                    }
                    assert forall|a: int| 0 <= a < self.clients@.len() implies (#[trigger] self.clients@[a]).0 < self.next_id by {
                        let a2 = if a < i { a } else { a + 1 };
                        assert(self.clients@[a] == before[a2]);
                    }
                }
                return true;
            }
            i += 1;
        }
        false
    }

    /// The number of registered clients.
    pub fn len(&self) -> (n: usize)
        ensures
            n == self.clients().len(),
    {
        self.clients.len()
    }

    /// The `i`-th client, in joining order.
    pub fn client(&self, i: usize) -> (c: &S)
        requires
            i < self.clients().len(),
        ensures
            *c == self.clients()[i as int].1,
    {
        &self.clients[i].1
    }
}

/// Registered clients have distinct ids.
pub proof fn law_ids_are_distinct<S>(r: ClientRegistry<S>, i: int, j: int)
    requires
        r.wf(),
        0 <= i < r.clients().len(),
        0 <= j < r.clients().len(),
        i != j,
    ensures
        r.clients()[i].0 != r.clients()[j].0,
{
    if i < j {
        assert(r.clients()[i].0 < r.clients()[j].0);
    } else {
        assert(r.clients()[j].0 < r.clients()[i].0);
    }
}

} // verus!

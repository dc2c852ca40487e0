//! The per-input MIDI 1.0 byte parser.
//!
//! A [`MidiParser`] takes one byte at a time and answers with a finished
//! message, with nothing (it is still collecting), or with a protocol fault.
//! What it does is fixed by a small mathematical state machine,
//! [`ParserModel::step`]; the executable parser is proved to follow it.

use crate::buffer::{
    data_bytes, data_new, data_push, data_slice, message_bytes, message_extend,
    message_from_slice, message_slice, status_bytes, status_new, status_push, status_slice,
};
use crate::clock::{clock_ticks, millis_as_ticks, ticks_from_millis};
use vstd::pervasive::unreached;
use vstd::prelude::*;

verus! {

/// Longest silence between two bytes of one message, in milliseconds.
///
/// A byte takes about a third of a millisecond on the wire, so a whole
/// message is through in under one. The limit is generous enough for slow
/// senders and still bounds how long half a message can sit in the parser.
pub const MIDI_BYTE_TIMEOUT_MS: u64 = 300;

// ---------------------------------------------------------------------------
// Byte classes
// ---------------------------------------------------------------------------

/// A byte with the top bit set opens a message; any other byte is data.
pub open spec fn is_status_byte(byte: u8) -> bool {
    byte >= 0x80
}

/// The real-time range: single-byte messages that may arrive anywhere.
pub open spec fn is_realtime_byte(byte: u8) -> bool {
    byte >= 0xF8
}

/// The two values of the real-time range that MIDI leaves undefined.
pub open spec fn is_undefined_realtime(byte: u8) -> bool {
    byte == 0xF9 || byte == 0xFD
}

/// Status values that MIDI leaves undefined.
pub open spec fn is_undefined_status(byte: u8) -> bool {
    byte == 0xF4 || byte == 0xF5 || (0xF9 <= byte && byte <= 0xFD)
}

/// Status of a channel voice message.
pub open spec fn is_voice_status(byte: u8) -> bool {
    0x80 <= byte && byte <= 0xEF
}

/// Status of a system common message that the parser forwards.
pub open spec fn is_system_common_status(byte: u8) -> bool {
    byte == 0xF1 || byte == 0xF2 || byte == 0xF3 || byte == 0xF6
}

/// A status byte that starts a message the parser will hand out.
pub open spec fn is_message_status(byte: u8) -> bool {
    is_voice_status(byte) || is_system_common_status(byte)
}

/// How many data bytes follow a status byte: one after program change,
/// channel pressure, quarter frame and song select, none after tune request,
/// two after everything else.
pub open spec fn expected_data_len(status: u8) -> nat {
    if (0xC0 <= status && status <= 0xDF) || status == 0xF1 || status == 0xF3 {
        1
    } else if status == 0xF6 {
        0
    } else {
        2
    }
}

// ---------------------------------------------------------------------------
// Messages
// ---------------------------------------------------------------------------

/// What can go wrong while bytes are assembled into messages.
#[derive(Debug, Clone, Copy, PartialEq, Eq, Structural)]
pub enum MidiMessageError {
    /// The staged status byte belongs to no message class.
    UnknownStatus,
    /// A status byte arrived while another one was still staged.
    DuplicateStatus,
    /// A data byte arrived while the data buffer was full.
    UnexpectedDataByte,
    /// An undefined status byte (0xF4, 0xF5, 0xF9 to 0xFD) arrived.
    InvalidStatusByte,
}

/// A parsed message with the bytes it was built from.
///
/// `RunningStatus` carries data bytes only; the other three start with their
/// status byte.
#[derive(Debug)]
pub enum MidiMessage {
    SystemRealtime(heapless::Vec<u8, 3>),
    RunningStatus(heapless::Vec<u8, 3>),
    Voice(heapless::Vec<u8, 3>),
    SystemCommon(heapless::Vec<u8, 3>),
}

/// A message as a mathematical value: its class and its bytes.
pub enum MessageView {
    SystemRealtime(Seq<u8>),
    RunningStatus(Seq<u8>),
    Voice(Seq<u8>),
    SystemCommon(Seq<u8>),
}

impl MessageView {
    /// How many data bytes a running-status message has that follows this
    /// message, if it had `before` ahead of it: a voice message sets the
    /// number to what its status byte calls for, any other message leaves it.
    pub open spec fn running_length(self, before: nat) -> nat {
        match self {
            MessageView::Voice(b) => expected_data_len(b[0]),
            _ => before,
        }
    }

    /// The message has the shape messages have, and if it is running status
    /// it has `running` data bytes.
    pub open spec fn fits(self, running: nat) -> bool {
        self.well_formed() && (self is RunningStatus ==> self.bytes().len() == running)
    }

    /// The bytes the message carries, in wire order.
    pub open spec fn bytes(self) -> Seq<u8> {
        match self {
            MessageView::SystemRealtime(b) => b,
            MessageView::RunningStatus(b) => b,
            MessageView::Voice(b) => b,
            MessageView::SystemCommon(b) => b,
        }
    }

    /// Every byte after the first `from` is a data byte.
    pub open spec fn data_from(bytes: Seq<u8>, from: int) -> bool {
        forall|i: int| from <= i < bytes.len() ==> !is_status_byte(#[trigger] bytes[i])
    }

    /// The shape every message on the wire has: a status byte of the right
    /// class followed by exactly the data bytes that status calls for, or,
    /// for running status, one or two data bytes and no status byte. How
    /// many data bytes a running-status message has depends on the voice
    /// message before it; see [`MessageView::running_length`].
    pub open spec fn well_formed(self) -> bool {
        match self {
            MessageView::SystemRealtime(b) => b.len() == 1 && is_realtime_byte(b[0])
                && !is_undefined_realtime(b[0]),
            MessageView::RunningStatus(b) => 1 <= b.len() <= 2 && Self::data_from(b, 0),
            MessageView::Voice(b) => b.len() >= 1 && is_voice_status(b[0]) && b.len() == 1
                + expected_data_len(b[0]) && Self::data_from(b, 1),
            MessageView::SystemCommon(b) => b.len() >= 1 && is_system_common_status(b[0])
                && b.len() == 1 + expected_data_len(b[0]) && Self::data_from(b, 1),
        }
    }
}

impl View for MidiMessage {
    type V = MessageView;

    open spec fn view(&self) -> MessageView {
        match *self {
            MidiMessage::SystemRealtime(b) => MessageView::SystemRealtime(message_bytes(b)),
            MidiMessage::RunningStatus(b) => MessageView::RunningStatus(message_bytes(b)),
            MidiMessage::Voice(b) => MessageView::Voice(message_bytes(b)),
            MidiMessage::SystemCommon(b) => MessageView::SystemCommon(message_bytes(b)),
        }
    }
}

/// The message that a staged status byte (none or one) and the staged data
/// bytes make: running status without a status byte, otherwise the class the
/// status byte falls in.
pub open spec fn classify(status: Seq<u8>, data: Seq<u8>) -> Result<
    MessageView,
    MidiMessageError,
> {
    let bytes = status + data;
    if status.len() == 0 {
        Ok(MessageView::RunningStatus(bytes))
    } else if is_realtime_byte(status[0]) {
        Ok(MessageView::SystemRealtime(bytes))
    } else if is_voice_status(status[0]) {
        Ok(MessageView::Voice(bytes))
    } else if is_system_common_status(status[0]) {
        Ok(MessageView::SystemCommon(bytes))
    } else {
        Err(MidiMessageError::UnknownStatus)
    }
}

/// The result of building a message, with the message taken by its view.
pub open spec fn built_view(r: Result<MidiMessage, MidiMessageError>) -> Result<
    MessageView,
    MidiMessageError,
> {
    match r {
        Ok(m) => Ok(m@),
        Err(e) => Err(e),
    }
}

impl MidiMessage {
    /// Builds the message for the staged status and data bytes.
    pub fn from_status_and_data(
        status_byte: &heapless::Vec<u8, 1>,
        data_bytes: &heapless::Vec<u8, 2>,
    ) -> (r: Result<Self, MidiMessageError>)
        ensures
            built_view(r) == classify(status_bytes(*status_byte), self::data_bytes(*data_bytes)),
    {
        let status = status_slice(status_byte);
        let tail = data_slice(data_bytes);
        let mut data = match message_from_slice(status) {
            Ok(v) => v,
            Err(_) => unreached(),
        };
        match message_extend(&mut data, tail) {
            Ok(()) => {},
            Err(_) => unreached(),
        }
        if status.len() == 0 {
            Ok(MidiMessage::RunningStatus(data))
        } else {
            let first = status[0];
            if first >= 0xF8 {
                Ok(MidiMessage::SystemRealtime(data))
            } else if 0x80 <= first && first <= 0xEF {
                Ok(MidiMessage::Voice(data))
            } else if (0xF1 <= first && first <= 0xF3) || first == 0xF6 {
                Ok(MidiMessage::SystemCommon(data))
            } else {
                Err(MidiMessageError::UnknownStatus)
            }
        }
    }

    /// The bytes of the message, in wire order.
    pub fn bytes(&self) -> (b: &[u8])
        ensures
            b@ == self@.bytes(),
    {
        match self {
            MidiMessage::SystemRealtime(d) => message_slice(d),
            MidiMessage::RunningStatus(d) => message_slice(d),
            MidiMessage::Voice(d) => message_slice(d),
            MidiMessage::SystemCommon(d) => message_slice(d),
        }
    }
}

// ---------------------------------------------------------------------------
// The parser as a state machine
// ---------------------------------------------------------------------------

/// The three modes of the parser.
#[derive(Debug, Clone, Copy, PartialEq, Eq, Structural)]
pub enum ParserState {
    /// Collecting the status and data bytes of a message.
    Reading,
    /// Recovering from a fault: discarding bytes until a usable status byte.
    Resyncing,
    /// Inside a system exclusive block: discarding bytes until its end mark.
    InSysEx,
}

/// What one byte produced: a message, nothing yet, or a fault.
pub type Outcome = Result<Option<MessageView>, MidiMessageError>;

/// The parser as a mathematical value.
pub struct ParserModel {
    pub state: ParserState,
    /// The staged status byte, if any.
    pub status: Seq<u8>,
    /// The staged data bytes.
    pub data: Seq<u8>,
    /// How many data bytes complete the message being collected.
    pub expected: nat,
    /// How many data bytes make a running-status message: as many as the
    /// status byte of the last voice message handed out calls for, and two
    /// as long as there has been none.
    pub running: nat,
    /// Clock reading at the last byte that was staged, in ticks.
    pub last_byte_time: Option<u64>,
}

impl ParserModel {
    /// The parser at rest: reading, nothing staged, no byte timed, bare data
    /// bytes expected in groups of `running`.
    pub open spec fn idle(running: nat) -> ParserModel {
        ParserModel {
            state: ParserState::Reading,
            status: Seq::empty(),
            data: Seq::empty(),
            expected: running,
            running,
            last_byte_time: None,
        }
    }

    /// The parser before its first byte.
    pub open spec fn initial() -> ParserModel {
        Self::idle(2)
    }

    /// The parser after a fault: nothing staged, hunting for a status byte.
    pub open spec fn resyncing(running: nat) -> ParserModel {
        ParserModel { state: ParserState::Resyncing, ..Self::idle(running) }
    }

    /// The parser inside a system exclusive block.
    pub open spec fn in_sysex(running: nat) -> ParserModel {
        ParserModel { state: ParserState::InSysEx, ..Self::idle(running) }
    }

    /// The states a parser can be in between two bytes.
    ///
    /// Running status has one or two data bytes. Outside `Reading` nothing
    /// is staged. While reading, a staged status byte is one that opens a
    /// message and fixes the expected data length, without one the expected
    /// length is that of running status, at most one data byte is staged and
    /// it is a data byte, the message is not yet complete, and a byte is
    /// timed exactly when something is staged.
    pub open spec fn wf(self) -> bool {
        &&& 1 <= self.running <= 2
        &&& match self.state {
            ParserState::Reading => {
                &&& self.status.len() <= 1
                &&& self.data.len() <= 1
                &&& MessageView::data_from(self.data, 0)
                &&& self.status.len() == 1 ==> is_message_status(self.status[0])
                &&& self.expected == if self.status.len() == 1 {
                    expected_data_len(self.status[0])
                } else {
                    self.running
                }
                &&& self.data.len() != self.expected
                &&& (self.last_byte_time is Some) == (self.status.len() + self.data.len() > 0)
            },
            ParserState::Resyncing => self == Self::resyncing(self.running),
            ParserState::InSysEx => self == Self::in_sysex(self.running),
        }
    }

    /// More than `timeout` ticks lie between the last timed byte and `now`.
    /// A clock that reads earlier than the last byte counts as no time passed.
    pub open spec fn timed_out(self, now: u64, timeout: u64) -> bool {
        match self.last_byte_time {
            Some(last) => now >= last && now - last > timeout,
            None => false,
        }
    }

    /// The staged bytes form a whole message: hand it out and come to rest,
    /// with the length of running status set by the message if it is a voice
    /// message. Otherwise keep collecting.
    pub open spec fn complete(self) -> (ParserModel, Outcome) {
        if self.data.len() == self.expected {
            match classify(self.status, self.data) {
                Ok(m) => (Self::idle(m.running_length(self.running)), Ok(Some(m))),
                Err(e) => (Self::resyncing(self.running), Err(e)),
            }
        } else {
            (self, Ok(None))
        }
    }

    /// A byte below the real-time range arrives while reading.
    ///
    /// The exclusive start mark drops what is staged and opens a system
    /// exclusive block; a stray end mark drops what is staged. An undefined
    /// status byte, a second status byte and a data byte beyond the expected
    /// count are faults. Any other byte is staged and timed.
    pub open spec fn accept(self, byte: u8, now: u64) -> (ParserModel, Outcome) {
        if byte == 0xF0 {
            (Self::in_sysex(self.running), Ok(None))
        } else if byte == 0xF7 {
            (Self::idle(self.running), Ok(None))
        } else if is_status_byte(byte) {
            if is_undefined_status(byte) {
                (Self::resyncing(self.running), Err(MidiMessageError::InvalidStatusByte))
            } else if self.status.len() >= 1 {
                (Self::resyncing(self.running), Err(MidiMessageError::DuplicateStatus))
            } else {
                ParserModel {
                    status: self.status.push(byte),
                    expected: expected_data_len(byte),
                    last_byte_time: Some(now),
                    ..self
                }.complete()
            }
        } else {
            if self.data.len() >= self.expected {
                (Self::resyncing(self.running), Err(MidiMessageError::UnexpectedDataByte))
            } else {
                ParserModel {
                    data: self.data.push(byte),
                    last_byte_time: Some(now),
                    ..self
                }.complete()
            }
        }
    }

    /// One byte arrives when the clock reads `now`.
    ///
    /// A real-time byte is answered at once, whatever the parser is doing,
    /// and leaves it untouched; an undefined one is a fault. For any other
    /// byte the silence since the last timed byte is checked first: past
    /// `timeout` the staged bytes are dropped and the parser resyncs. Then
    /// the byte is handled according to the mode.
    pub open spec fn step(self, byte: u8, now: u64, timeout: u64) -> (ParserModel, Outcome) {
        if is_realtime_byte(byte) {
            if is_undefined_realtime(byte) {
                (Self::resyncing(self.running), Err(MidiMessageError::InvalidStatusByte))
            } else {
                (self, Ok(Some(MessageView::SystemRealtime(seq![byte]))))
            }
        } else {
            let s = if self.timed_out(now, timeout) {
                Self::resyncing(self.running)
            } else {
                self
            };
            match s.state {
                ParserState::Resyncing => {
                    if is_status_byte(byte) && !is_undefined_status(byte) {
                        ParserModel { state: ParserState::Reading, ..s }.accept(byte, now)
                    } else {
                        (s, Ok(None))
                    }
                },
                ParserState::InSysEx => {
                    if byte == 0xF7 {
                        (Self::idle(s.running), Ok(None))
                    } else {
                        (s, Ok(None))
                    }
                },
                ParserState::Reading => s.accept(byte, now),
            }
        }
    }
}

/// A step takes a parser from one resting state to another. A message it
/// hands out has the shape messages have; running status has as many data
/// bytes as the last voice message before it called for; and only a voice
/// message changes that number.
pub proof fn lemma_step_keeps_shape(s: ParserModel, byte: u8, now: u64, timeout: u64)
    requires
        s.wf(),
    ensures
        s.step(byte, now, timeout).0.wf(),
        match s.step(byte, now, timeout).1 {
            Ok(Some(m)) => m.fits(s.running) && s.step(byte, now, timeout).0.running
                == m.running_length(s.running),
            _ => s.step(byte, now, timeout).0.running == s.running,
        },
{
    if is_realtime_byte(byte) {
        if !is_undefined_realtime(byte) {
            assert(seq![byte][0] == byte);
        }
    } else {
        let t = if s.timed_out(now, timeout) {
            ParserModel::resyncing(s.running)
        } else {
            s
        };
        if is_status_byte(byte) {
            if t.status.len() == 0 {
                let staged = t.status.push(byte);
                assert(staged[0] == byte);
                assert((staged + t.data)[0] == byte);
                assert forall|i: int| 1 <= i < (staged + t.data).len() implies !is_status_byte(
                    #[trigger] (staged + t.data)[i],
                ) by {
                    assert((staged + t.data)[i] == t.data[i - 1]);
                }
            }
        } else {
            if t.data.len() < t.expected {
                let staged = t.data.push(byte);
                assert forall|i: int| 0 <= i < staged.len() implies !is_status_byte(
                    #[trigger] staged[i],
                ) by {
                    if i < t.data.len() {
                        assert(staged[i] == t.data[i]);
                    }
                }
                assert forall|i: int|
                    t.status.len() <= i < (t.status + staged).len() implies !is_status_byte(
                    #[trigger] (t.status + staged)[i],
                ) by {
                    assert((t.status + staged)[i] == staged[i - t.status.len()]);
                }
                if t.status.len() == 1 {
                    assert((t.status + staged)[0] == t.status[0]);
                }
            }
        }
    }
}

/// When a byte is a fault. An undefined real-time byte always is. Any other
/// fault needs a parser that is reading and has not just timed out: then an
/// undefined status byte is a fault, a status byte that opens a message is
/// one if a status byte is already staged, and a data byte is one if as many
/// data bytes as are expected, or more, are already staged. Nothing else is
/// a fault, and no byte is ever answered with `UnknownStatus`.
pub proof fn lemma_when_faults_occur(s: ParserModel, byte: u8, now: u64, timeout: u64)
    requires
        s.wf(),
    ensures
        ({
            let reading = s.state == ParserState::Reading && !s.timed_out(now, timeout);
            let fault = s.step(byte, now, timeout).1;
            &&& fault == Err::<Option<MessageView>, MidiMessageError>(
                MidiMessageError::InvalidStatusByte,
            ) <==> is_undefined_realtime(byte) || (reading && (byte == 0xF4 || byte == 0xF5))
            &&& fault == Err::<Option<MessageView>, MidiMessageError>(
                MidiMessageError::DuplicateStatus,
            ) <==> reading && is_message_status(byte) && s.status.len() == 1
            &&& fault == Err::<Option<MessageView>, MidiMessageError>(
                MidiMessageError::UnexpectedDataByte,
            ) <==> reading && !is_status_byte(byte) && s.data.len() >= s.expected
            &&& fault != Err::<Option<MessageView>, MidiMessageError>(
                MidiMessageError::UnknownStatus,
            )
        }),
{
}

/// What `feed_byte` returned, with the message taken by its view.
pub open spec fn outcome_view(r: Result<Option<MidiMessage>, MidiMessageError>) -> Outcome {
    match r {
        Ok(Some(m)) => Ok(Some(m@)),
        Ok(None) => Ok(None),
        Err(e) => Err(e),
    }
}

/// Stateful MIDI 1.0 parser for one input.
///
/// Handles running status, real-time bytes in the middle of a message,
/// system exclusive blocks, messages of one to three bytes, a timeout
/// between the bytes of a message, and resynchronisation after faults.
#[derive(Debug)]
pub struct MidiParser {
    status: heapless::Vec<u8, 1>,
    data: heapless::Vec<u8, 2>,
    expected_data_bytes: usize,
    running_data_bytes: usize,
    state: ParserState,
    last_byte_time: Option<u64>,
}

impl View for MidiParser {
    type V = ParserModel;

    closed spec fn view(&self) -> ParserModel {
        ParserModel {
            state: self.state,
            status: status_bytes(self.status),
            data: data_bytes(self.data),
            expected: self.expected_data_bytes as nat,
            running: self.running_data_bytes as nat,
            last_byte_time: self.last_byte_time,
        }
    }
}

impl Default for MidiParser {
    /// A parser before its first byte.
    fn default() -> (p: Self)
        ensures
            p@ == ParserModel::initial(),
            p.wf(),
    {
        MidiParser {
            status: status_new(),
            data: data_new(),
            expected_data_bytes: 2,
            running_data_bytes: 2,
            state: ParserState::Reading,
            last_byte_time: None,
        }
    }
}

impl MidiParser {
    /// Whether the parser is in one of the states it can be in between bytes.
    pub open spec fn wf(&self) -> bool {
        self@.wf()
    }

    /// The mode the parser is in.
    pub fn state(&self) -> (s: ParserState)
        ensures
            s == self@.state,
    {
        self.state
    }

    /// Drops what is staged and comes to rest. The length of running status
    /// is not something staged: it stays.
    fn clear(&mut self)
        ensures
            final(self)@ == ParserModel::idle(old(self)@.running),
    {
        self.status = status_new();
        self.data = data_new();
        self.expected_data_bytes = self.running_data_bytes;
        self.state = ParserState::Reading;
        self.last_byte_time = None;
    }

    /// Drops everything staged and starts hunting for the next status byte.
    ///
    /// To be called after a transport fault, when bytes may have been lost
    /// and what is staged can no longer be trusted. On a parser that is
    /// already resyncing it changes nothing.
    pub fn reset(&mut self)
        ensures
            final(self)@ == ParserModel::resyncing(old(self)@.running),
            old(self).wf() ==> final(self).wf(),
            old(self).wf() && old(self)@.state == ParserState::Resyncing ==> final(self)@
                == old(self)@,
    {
        self.clear();
        self.state = ParserState::Resyncing;
    }

    /// Feeds one byte that arrived when the clock read `now` ticks, with a
    /// silence limit of `timeout` ticks.
    ///
    /// The parser moves exactly as [`ParserModel::step`] says and returns
    /// what that step produced. A running-status message has as many data
    /// bytes as the status byte of the last voice message called for.
    pub fn feed_byte_at(&mut self, byte: u8, now: u64, timeout: u64) -> (r: Result<
        Option<MidiMessage>,
        MidiMessageError,
    >)
        requires
            old(self).wf(),
        ensures
            (final(self)@, outcome_view(r)) == old(self)@.step(byte, now, timeout),
            final(self).wf(),
            r matches Ok(Some(m)) ==> m@.fits(old(self)@.running),
    {
        proof {
            lemma_step_keeps_shape(self@, byte, now, timeout);
        }
        // Real-time bytes may interrupt anything: they are answered before
        // the state is looked at, and they are not timed.
        if byte >= 0xF8 {
            if byte == 0xF9 || byte == 0xFD {
                self.clear();
                self.state = ParserState::Resyncing;
                return Err(MidiMessageError::InvalidStatusByte);
            }
            let mut status_byte = status_new();
            let _ = status_push(&mut status_byte, byte);
            let empty_data = data_new();
            proof {
                assert(status_bytes(status_byte) + data_bytes(empty_data) =~= seq![byte]);
            }
            return match MidiMessage::from_status_and_data(&status_byte, &empty_data) {
                Ok(message) => Ok(Some(message)),
                Err(e) => Err(e),
            };
        }
        if let Some(last_time) = self.last_byte_time {
            if now >= last_time && now - last_time > timeout {
                self.clear();
                self.state = ParserState::Resyncing;
            }
        }
        proof {
            assert((byte & 0x80 == 0x80) == (byte >= 0x80)) by (bit_vector);
            assert((byte & 0xF0 == 0xC0) == (0xC0 <= byte && byte <= 0xCF)) by (bit_vector);
            assert((byte & 0xF0 == 0xD0) == (0xD0 <= byte && byte <= 0xDF)) by (bit_vector);
        }
        match self.state {
            ParserState::Resyncing => {
                if (byte & 0x80) == 0x80 {
                    if byte == 0xF4 || byte == 0xF5 || (0xF9 <= byte && byte <= 0xFD) {
                        // Undefined status byte: keep hunting.
                        return Ok(None);
                    }
                    // A usable status byte ends the hunt; it is handled below
                    // like any byte that arrives while reading.
                    self.state = ParserState::Reading;
                } else {
                    return Ok(None);
                }
            },
            ParserState::InSysEx => {
                if byte == 0xF7 {
                    self.clear();
                }
                return Ok(None);
            },
            ParserState::Reading => {},
        }
        self.last_byte_time = Some(now);

        if byte == 0xF0 {
            self.clear();
            self.state = ParserState::InSysEx;
            return Ok(None);
        }
        if byte == 0xF7 {
            self.clear();
            return Ok(None);
        }
        if (byte & 0x80) == 0x80 {
            if byte == 0xF4 || byte == 0xF5 || (0xF9 <= byte && byte <= 0xFD) {
                self.clear();
                self.state = ParserState::Resyncing;
                return Err(MidiMessageError::InvalidStatusByte);
            }
            if status_push(&mut self.status, byte).is_err() {
                self.clear();
                self.state = ParserState::Resyncing;
                return Err(MidiMessageError::DuplicateStatus);
            }
            if byte & 0xF0 == 0xC0 || byte & 0xF0 == 0xD0 || byte == 0xF1 || byte == 0xF3 {
                self.expected_data_bytes = 1;
            } else if byte == 0xF6 {
                self.expected_data_bytes = 0;
            } else {
                self.expected_data_bytes = 2;
            }
        } else {
            // A data byte beyond the expected count is a fault; within the
            // count there is always room for it.
            if data_slice(&self.data).len() >= self.expected_data_bytes {
                self.clear();
                self.state = ParserState::Resyncing;
                return Err(MidiMessageError::UnexpectedDataByte);
            }
            if data_push(&mut self.data, byte).is_err() {
                self.clear();
                self.state = ParserState::Resyncing;
                return Err(MidiMessageError::UnexpectedDataByte);
            }
        }

        if data_slice(&self.data).len() == self.expected_data_bytes {
            match MidiMessage::from_status_and_data(&self.status, &self.data) {
                Ok(message) => {
                    // Bare data bytes after a voice message come in groups
                    // of as many as its status byte calls for.
                    let voice = match &message {
                        MidiMessage::Voice(_) => true,
                        _ => false,
                    };
                    if voice {
                        proof {
                            assert((status_bytes(self.status) + data_bytes(self.data))[0]
                                == status_bytes(self.status)[0]);
                        }
                        self.running_data_bytes = self.expected_data_bytes;
                    }
                    self.clear();
                    Ok(Some(message))
                },
                Err(e) => {
                    self.clear();
                    self.state = ParserState::Resyncing;
                    Err(e)
                },
            }
        } else {
            Ok(None)
        }
    }

    /// Feeds one byte, timed by the system clock, with the silence limit of
    /// [`MIDI_BYTE_TIMEOUT_MS`].
    ///
    /// Whatever the clock shows, the parser takes the step that
    /// [`ParserModel::step`] describes for that reading.
    pub fn feed_byte(&mut self, byte: u8) -> (r: Result<Option<MidiMessage>, MidiMessageError>)
        requires
            old(self).wf(),
        ensures
            final(self).wf(),
            r matches Ok(Some(m)) ==> m@.fits(old(self)@.running),
            exists|now: u64|
                (final(self)@, outcome_view(r)) == #[trigger] old(self)@.step(
                    byte,
                    now,
                    millis_as_ticks(MIDI_BYTE_TIMEOUT_MS),
                ),
    {
        let timeout = ticks_from_millis(MIDI_BYTE_TIMEOUT_MS);
        let now = clock_ticks();
        self.feed_byte_at(byte, now, timeout)
    }
}

} // verus!

//! The merge engine: two inputs, one output, running status kept valid.
//!
//! Both readers put what they produce on one ordered channel. The engine
//! takes the channel's items one by one. It remembers the status byte of the
//! last voice message written for each input and which input was written
//! last, and decides for every message which bytes go out. The decisions are
//! here; the channel and the output port belong to the program around the
//! library, which performs each [`Transmission`] and reports it with
//! [`UartStatus::sent`] once the bytes are out. A message whose write fails
//! is not reported, and leaves the engine exactly as it was.

use crate::buffer::{message_bytes, message_slice};
use crate::midi_parser::{is_status_byte, is_voice_status, MessageView, MidiMessage};
use crate::midi_uart::{UartChannel, UartMidiMessage};
use vstd::prelude::*;

verus! {

/// Housekeeping that travels on the channel in line with the messages, so
/// that it takes effect exactly between the messages before and after it.
#[derive(Debug, Clone, Copy, PartialEq, Eq, Structural)]
pub enum ControlMessage {
    /// The input's parser lost its place: forget the input's running status.
    InvalidateRunningStatus(UartChannel),
}

/// An item on the channel: a message from an input, or housekeeping.
#[derive(Debug)]
pub enum ChannelMessage {
    Midi(UartMidiMessage),
    Control(ControlMessage),
}

/// Why the engine drops a message.
#[derive(Debug, Clone, Copy, PartialEq, Eq, Structural)]
pub enum MergeError {
    /// Running-status data from an input whose status byte is not known.
    RunningStatusUnderflow,
}

/// What the engine wants written for one message.
#[derive(Debug)]
pub struct Transmission {
    /// A status byte to write first, in a write of its own.
    pub status: Option<u8>,
    /// The bytes of the message, written as they are.
    pub data: heapless::Vec<u8, 3>,
    /// The input to record as written last once the bytes are out.
    pub transmitter: Option<UartChannel>,
    /// The status byte to remember for that input once the bytes are out.
    pub remember: Option<u8>,
}

/// A transmission as a mathematical value.
pub struct TransmissionView {
    pub status: Option<u8>,
    pub data: Seq<u8>,
    pub transmitter: Option<UartChannel>,
    pub remember: Option<u8>,
}

impl TransmissionView {
    /// The status byte written ahead of the message, if there is one.
    pub open spec fn prefix(self) -> Seq<u8> {
        match self.status {
            Some(s) => seq![s],
            None => Seq::empty(),
        }
    }

    /// Everything the transmission puts on the wire, in order.
    pub open spec fn bytes(self) -> Seq<u8> {
        self.prefix() + self.data
    }
}

impl View for Transmission {
    type V = TransmissionView;

    open spec fn view(&self) -> TransmissionView {
        TransmissionView {
            status: self.status,
            data: message_bytes(self.data),
            transmitter: self.transmitter,
            remember: self.remember,
        }
    }
}

/// What the engine decided for one channel item: nothing to write, bytes to
/// write, or a message to drop.
pub type Decision = Result<Option<TransmissionView>, MergeError>;

/// What `handle` returned, with the transmission taken by its view.
pub open spec fn decision_view(r: Result<Option<Transmission>, MergeError>) -> Decision {
    match r {
        Ok(Some(t)) => Ok(Some(t@)),
        Ok(None) => Ok(None),
        Err(e) => Err(e),
    }
}

/// What the engine remembers between messages.
#[derive(Debug, Clone, Copy, PartialEq, Eq)]
pub struct UartStatus {
    /// Status byte of the last voice message written for input zero.
    pub uart0: Option<u8>,
    /// Status byte of the last voice message written for input one.
    pub uart1: Option<u8>,
    /// The input whose voice or running-status bytes were written last.
    pub last_tx_from: Option<UartChannel>,
}

impl Default for UartStatus {
    /// Nothing known about either input, nothing written yet.
    fn default() -> (s: Self)
        ensures
            s == UartStatus::initial(),
    {
        UartStatus { uart0: None, uart1: None, last_tx_from: None }
    }
}

impl UartStatus {
    /// The engine before the first message.
    pub open spec fn initial() -> UartStatus {
        UartStatus { uart0: None, uart1: None, last_tx_from: None }
    }

    /// The status byte remembered for an input.
    pub open spec fn cached(self, source: UartChannel) -> Option<u8> {
        match source {
            UartChannel::Zero => self.uart0,
            UartChannel::One => self.uart1,
        }
    }

    /// The same engine with another status byte remembered for an input.
    pub open spec fn with_cached(self, source: UartChannel, status: Option<u8>) -> UartStatus {
        match source {
            UartChannel::Zero => UartStatus { uart0: status, ..self },
            UartChannel::One => UartStatus { uart1: status, ..self },
        }
    }

    /// The engine after an input's running status was invalidated: the
    /// input's status byte is forgotten, and if that input was written last,
    /// nobody counts as written last any more.
    pub open spec fn invalidated(self, source: UartChannel) -> UartStatus {
        UartStatus {
            last_tx_from: if self.last_tx_from == Some(source) {
                None
            } else {
                self.last_tx_from
            },
            ..self.with_cached(source, None)
        }
    }

    /// The engine after the bytes of a transmission went out: the input it
    /// names counts as written last, and the status byte it carries for that
    /// input is remembered. A transmission that names no input leaves no
    /// trace.
    pub open spec fn after_sending(self, sent: TransmissionView) -> UartStatus {
        match sent.transmitter {
            Some(source) => {
                let kept = match sent.remember {
                    Some(status) => self.with_cached(source, Some(status)),
                    None => self,
                };
                UartStatus { last_tx_from: Some(source), ..kept }
            },
            None => self,
        }
    }

    /// What the engine wants written for a message from an input.
    ///
    /// A voice message is written as it is, and its status byte is to be
    /// remembered. System messages are written as they are and leave no
    /// trace. Running-status data is written bare if its input was written
    /// last; otherwise the input's remembered status byte goes first, and
    /// without one the message is dropped.
    pub open spec fn merge(self, source: UartChannel, message: MessageView) -> Decision {
        match message {
            MessageView::Voice(bytes) => Ok(
                Some(
                    TransmissionView {
                        status: None,
                        data: bytes,
                        transmitter: Some(source),
                        remember: Some(bytes[0]),
                    },
                ),
            ),
            MessageView::SystemCommon(bytes) => Ok(
                Some(
                    TransmissionView {
                        status: None,
                        data: bytes,
                        transmitter: None,
                        remember: None,
                    },
                ),
            ),
            MessageView::SystemRealtime(bytes) => Ok(
                Some(
                    TransmissionView {
                        status: None,
                        data: bytes,
                        transmitter: None,
                        remember: None,
                    },
                ),
            ),
            MessageView::RunningStatus(bytes) => {
                if self.last_tx_from == Some(source) {
                    Ok(
                        Some(
                            TransmissionView {
                                status: None,
                                data: bytes,
                                transmitter: Some(source),
                                remember: None,
                            },
                        ),
                    )
                } else {
                    match self.cached(source) {
                        Some(status) => Ok(
                            Some(
                                TransmissionView {
                                    status: Some(status),
                                    data: bytes,
                                    transmitter: Some(source),
                                    remember: None,
                                },
                            ),
                        ),
                        None => Err(MergeError::RunningStatusUnderflow),
                    }
                }
            },
        }
    }

    /// What the engine does with an item from the channel: an invalidation
    /// changes the engine and writes nothing; a message is decided on and
    /// leaves the engine as it is until its bytes are out.
    pub open spec fn receive(self, item: ChannelMessage) -> (UartStatus, Decision) {
        match item {
            ChannelMessage::Control(ControlMessage::InvalidateRunningStatus(source)) => (
                self.invalidated(source),
                Ok(None),
            ),
            ChannelMessage::Midi(m) => (self, self.merge(m.uart_channel, m.message@)),
        }
    }

    /// A voice message can be remembered only by a status byte it carries.
    pub open spec fn acceptable(item: ChannelMessage) -> bool {
        match item {
            ChannelMessage::Midi(m) => m.message@ matches MessageView::Voice(bytes) ==> bytes.len()
                >= 1,
            ChannelMessage::Control(_) => true,
        }
    }

    /// Takes the next item from the channel and decides what to write.
    ///
    /// The engine changes as [`UartStatus::receive`] says: an invalidation
    /// takes effect at once, a message changes nothing yet. Report the
    /// transmission with [`UartStatus::sent`] when its bytes are out, and
    /// not at all when a write failed: the engine is then as it was before
    /// the message.
    pub fn handle(&mut self, channel_message: ChannelMessage) -> (r: Result<
        Option<Transmission>,
        MergeError,
    >)
        requires
            Self::acceptable(channel_message),
        ensures
            (*final(self), decision_view(r)) == old(self).receive(channel_message),
            channel_message is Midi ==> *final(self) == *old(self),
    {
        match channel_message {
            ChannelMessage::Control(ControlMessage::InvalidateRunningStatus(channel)) => {
                match channel {
                    UartChannel::Zero => self.uart0 = None,
                    UartChannel::One => self.uart1 = None,
                }
                if self.last_tx_from == Some(channel) {
                    self.last_tx_from = None;
                }
                Ok(None)
            },
            ChannelMessage::Midi(message) => {
                let source = message.uart_channel;
                match message.message {
                    MidiMessage::Voice(data) => {
                        let status = message_slice(&data)[0];
                        Ok(
                            Some(
                                Transmission {
                                    status: None,
                                    data,
                                    transmitter: Some(source),
                                    remember: Some(status),
                                },
                            ),
                        )
                    },
                    MidiMessage::SystemCommon(data) => Ok(
                        Some(
                            Transmission { status: None, data, transmitter: None, remember: None },
                        ),
                    ),
                    MidiMessage::SystemRealtime(data) => Ok(
                        Some(
                            Transmission { status: None, data, transmitter: None, remember: None },
                        ),
                    ),
                    MidiMessage::RunningStatus(data) => {
                        let need_status = match self.last_tx_from {
                            Some(prev) => prev != source,
                            None => true,
                        };
                        if need_status {
                            let status_byte = match source {
                                UartChannel::Zero => self.uart0,
                                UartChannel::One => self.uart1,
                            };
                            match status_byte {
                                Some(status) => Ok(
                                    Some(
                                        Transmission {
                                            status: Some(status),
                                            data,
                                            transmitter: Some(source),
                                            remember: None,
                                        },
                                    ),
                                ),
                                None => Err(MergeError::RunningStatusUnderflow),
                            }
                        } else {
                            Ok(
                                Some(
                                    Transmission {
                                        status: None,
                                        data,
                                        transmitter: Some(source),
                                        remember: None,
                                    },
                                ),
                            )
                        }
                    },
                }
            },
        }
    }

    /// Records that the bytes of a transmission are on the wire.
    pub fn sent(&mut self, transmission: &Transmission)
        ensures
            *final(self) == old(self).after_sending(transmission@),
    {
        match transmission.transmitter {
            Some(source) => {
                match transmission.remember {
                    Some(status) => {
                        match source {
                            UartChannel::Zero => self.uart0 = Some(status),
                            UartChannel::One => self.uart1 = Some(status),
                        }
                    },
                    None => {},
                }
                self.last_tx_from = Some(source);
            },
            None => {},
        }
    }
}

// ---------------------------------------------------------------------------
// What the output carries
// ---------------------------------------------------------------------------

/// The status byte under which a receiver reads bare data bytes at the end
/// of `wire`: the last voice status byte on it.
pub open spec fn wire_status(wire: Seq<u8>) -> Option<u8>
    decreases wire.len(),
{
    if wire.len() == 0 {
        None
    } else if is_voice_status(wire.last()) {
        Some(wire.last())
    } else {
        wire_status(wire.drop_last())
    }
}

/// The item is an order, or a message of the shape messages have.
pub open spec fn well_formed_item(item: ChannelMessage) -> bool {
    match item {
        ChannelMessage::Midi(m) => m.message@.well_formed(),
        ChannelMessage::Control(_) => true,
    }
}

impl UartStatus {
    /// The engine and the output agree: what is remembered for an input is
    /// a voice status byte, and if an input counts as written last, its
    /// status byte is remembered and is the one a receiver of `wire` would
    /// apply to bare data bytes.
    pub open spec fn in_step_with(self, wire: Seq<u8>) -> bool {
        &&& self.uart0 matches Some(s) ==> is_voice_status(s)
        &&& self.uart1 matches Some(s) ==> is_voice_status(s)
        &&& match self.last_tx_from {
            Some(source) => self.cached(source) is Some && wire_status(wire) == self.cached(
                source,
            ),
            None => true,
        }
    }

    /// The bytes that an item puts on the wire when every write succeeds.
    pub open spec fn written(self, item: ChannelMessage) -> Seq<u8> {
        match self.receive(item).1 {
            Ok(Some(t)) => t.bytes(),
            _ => Seq::empty(),
        }
    }

    /// The engine after an item, when every write succeeds and is reported.
    pub open spec fn round(self, item: ChannelMessage) -> UartStatus {
        let (next, decision) = self.receive(item);
        match decision {
            Ok(Some(t)) => next.after_sending(t),
            _ => next,
        }
    }

    /// The engine after a sequence of items, and everything written for
    /// them, when every write succeeds and is reported.
    pub open spec fn drain(self, items: Seq<ChannelMessage>) -> (UartStatus, Seq<u8>)
        decreases items.len(),
    {
        if items.len() == 0 {
            (self, Seq::empty())
        } else {
            let (before, wire) = self.drain(items.drop_last());
            (before.round(items.last()), wire + before.written(items.last()))
        }
    }
}

/// Every order and every message of the shape messages have can be handed
/// to the engine.
pub proof fn lemma_well_formed_is_acceptable(item: ChannelMessage)
    requires
        well_formed_item(item),
    ensures
        UartStatus::acceptable(item),
{
}

/// Bytes that are no voice status bytes do not change what a receiver
/// applies to bare data.
pub proof fn lemma_wire_status_unchanged(wire: Seq<u8>, tail: Seq<u8>)
    requires
        forall|i: int| 0 <= i < tail.len() ==> !is_voice_status(#[trigger] tail[i]),
    ensures
        wire_status(wire + tail) == wire_status(wire),
    decreases tail.len(),
{
    if tail.len() == 0 {
        assert(wire + tail =~= wire);
    } else {
        let head = tail.drop_last();
        assert forall|i: int| 0 <= i < head.len() implies !is_voice_status(#[trigger] head[i]) by {
            assert(head[i] == tail[i]);
        }
        lemma_wire_status_unchanged(wire, head);
        assert((wire + tail).drop_last() =~= wire + head);
        assert((wire + tail).last() == tail.last());
    }
}

/// After a voice status byte and data bytes, a receiver applies that status
/// byte.
pub proof fn lemma_wire_status_set(wire: Seq<u8>, status: u8, tail: Seq<u8>)
    requires
        is_voice_status(status),
        forall|i: int| 0 <= i < tail.len() ==> !is_voice_status(#[trigger] tail[i]),
    ensures
        wire_status(wire + (seq![status] + tail)) == Some(status),
{
    lemma_wire_status_unchanged(wire + seq![status], tail);
    assert(wire + (seq![status] + tail) =~= (wire + seq![status]) + tail);
    assert((wire + seq![status]).last() == status);
}

/// Invalidation ordering. Once the order to forget an input's running
/// status has been taken from the channel, running-status data from that
/// input is dropped as an underflow and changes nothing, whatever the engine
/// remembered before the order.
pub proof fn theorem_invalidation_ordering(
    engine: UartStatus,
    source: UartChannel,
    item: ChannelMessage,
)
    requires
        item matches ChannelMessage::Midi(m) && m.uart_channel == source && m.message@
            is RunningStatus,
    ensures
        engine.receive(
            ChannelMessage::Control(ControlMessage::InvalidateRunningStatus(source)),
        ).0.receive(item) == (
            engine.invalidated(source),
            Err::<Option<TransmissionView>, MergeError>(MergeError::RunningStatusUnderflow),
        ),
{
}

/// A message that is decided on but never reported as sent leaves no trace:
/// the engine is as it was, and it still agrees with an output that it
/// agreed with.
pub proof fn lemma_unsent_message_leaves_no_trace(
    engine: UartStatus,
    wire: Seq<u8>,
    item: ChannelMessage,
)
    requires
        item is Midi,
    ensures
        engine.receive(item).0 == engine,
        engine.in_step_with(wire) ==> engine.receive(item).0.in_step_with(wire),
{
}

/// Forgetting an input's running status twice is forgetting it once.
pub proof fn lemma_invalidation_idempotent(engine: UartStatus, source: UartChannel)
    ensures
        engine.invalidated(source).invalidated(source) == engine.invalidated(source),
        engine.invalidated(source).cached(source) is None,
        engine.invalidated(source).last_tx_from != Some(source),
{
}

/// Running status stays valid across the merge, one item at a time. If the
/// engine and the output agree, they agree again after the item is handled
/// and written. And whenever running-status data is written, the byte that
/// a receiver applies to it, counting a status byte the engine put in front,
/// is the status byte remembered for the data's own input.
pub proof fn theorem_running_status_survives(
    engine: UartStatus,
    wire: Seq<u8>,
    item: ChannelMessage,
)
    requires
        engine.in_step_with(wire),
        well_formed_item(item),
    ensures
        engine.round(item).in_step_with(wire + engine.written(item)),
        match item {
            ChannelMessage::Midi(m) => m.message@ is RunningStatus && engine.receive(item).1
                is Ok ==> {
                let t = engine.receive(item).1->Ok_0->Some_0;
                &&& engine.cached(m.uart_channel) is Some
                &&& wire_status(wire + t.prefix()) == engine.cached(m.uart_channel)
            },
            ChannelMessage::Control(_) => true,
        },
{
    match item {
        ChannelMessage::Control(_) => {
            assert(wire + engine.written(item) =~= wire);
        },
        ChannelMessage::Midi(m) => {
            let source = m.uart_channel;
            match m.message@ {
                MessageView::Voice(bytes) => {
                    let tail = bytes.subrange(1, bytes.len() as int);
                    assert(bytes =~= seq![bytes[0]] + tail);
                    assert forall|i: int| 0 <= i < tail.len() implies !is_voice_status(
                        #[trigger] tail[i],
                    ) by {
                        assert(tail[i] == bytes[i + 1]);
                    }
                    lemma_wire_status_set(wire, bytes[0], tail);
                },
                MessageView::SystemCommon(bytes) => {
                    assert forall|i: int| 0 <= i < bytes.len() implies !is_voice_status(
                        #[trigger] bytes[i],
                    ) by {
                        if i > 0 {
                            assert(!is_status_byte(bytes[i]));
                        }
                    }
                    lemma_wire_status_unchanged(wire, bytes);
                },
                MessageView::SystemRealtime(bytes) => {
                    lemma_wire_status_unchanged(wire, bytes);
                },
                MessageView::RunningStatus(bytes) => {
                    assert forall|i: int| 0 <= i < bytes.len() implies !is_voice_status(
                        #[trigger] bytes[i],
                    ) by {
                        assert(!is_status_byte(bytes[i]));
                    }
                    if engine.last_tx_from == Some(source) {
                        lemma_wire_status_unchanged(wire, bytes);
                        assert(wire + Seq::<u8>::empty() =~= wire);
                    } else {
                        match engine.cached(source) {
                            Some(status) => {
                                lemma_wire_status_set(wire, status, bytes);
                                lemma_wire_status_set(wire, status, Seq::empty());
                                assert(seq![status] + Seq::<u8>::empty() =~= seq![status]);
                            },
                            None => {
                                assert(wire + engine.written(item) =~= wire);
                            },
                        }
                    }
                },
            }
        },
    }
}

/// Running status stays valid across the merge. Start with an engine and
/// an output that agree, for one the engine and the empty output at power-up.
/// Whatever orders and well-formed messages come off the channel, in
/// whatever order, with every write succeeding, the engine and the output
/// agree at the end.
pub proof fn theorem_merge_keeps_running_status(
    engine: UartStatus,
    wire: Seq<u8>,
    items: Seq<ChannelMessage>,
)
    requires
        engine.in_step_with(wire),
        forall|i: int| 0 <= i < items.len() ==> well_formed_item(#[trigger] items[i]),
    ensures
        engine.drain(items).0.in_step_with(wire + engine.drain(items).1),
        UartStatus::initial().in_step_with(Seq::empty()),
    decreases items.len(),
{
    if items.len() == 0 {
        assert(wire + Seq::<u8>::empty() =~= wire);
    } else {
        let head = items.drop_last();
        assert forall|i: int| 0 <= i < head.len() implies well_formed_item(#[trigger] head[i]) by {
            assert(head[i] == items[i]);
        }
        theorem_merge_keeps_running_status(engine, wire, head);
        let (before, written) = engine.drain(head);
        theorem_running_status_survives(before, wire + written, items.last());
        assert((wire + written) + before.written(items.last()) =~= wire + (written
            + before.written(items.last())));
    }
}

} // verus!

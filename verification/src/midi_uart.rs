//! The stream reader: one parser bound to one input.
//!
//! The program around the library owns the serial port. Whenever the port
//! has bytes, it hands them to [`MidiUart::read`], which feeds the parser
//! until a message or a fault is complete and says how many bytes that took.
//! [`MidiUart::forward`] then turns the result into the item to put on the
//! merge channel.

use crate::clock::millis_as_ticks;
use crate::merge::{ChannelMessage, ControlMessage};
use crate::midi_parser::{
    outcome_view, MidiMessage, MidiMessageError, MidiParser, Outcome, ParserModel,
    MIDI_BYTE_TIMEOUT_MS,
};
use crate::midi_stream::silent;
use vstd::prelude::*;

verus! {

/// One of the two inputs.
#[derive(Debug, Clone, Copy, PartialEq, Eq, Structural)]
pub enum UartChannel {
    Zero,
    One,
}

impl Default for UartChannel {
    fn default() -> (c: Self)
        ensures
            c == UartChannel::Zero,
    {
        UartChannel::Zero
    }
}

/// A fault of the serial line itself.
#[derive(Debug, Clone, Copy, PartialEq, Eq, Structural)]
pub enum UartError {
    /// Bytes arrived faster than they were taken and some were lost.
    Overrun,
    /// A break condition was seen on the line.
    Break,
    /// A byte failed its parity check.
    Parity,
    /// A byte was not framed by valid start and stop bits.
    Framing,
    /// Any fault the port reports that is none of the above.
    Other,
}

/// Why a read produced no message.
#[derive(Debug, Clone, Copy, PartialEq, Eq, Structural)]
pub enum UartMidiError {
    /// The serial line failed.
    UartError(UartError),
    /// The bytes on the line were not valid MIDI.
    MessageError(MidiMessageError),
}

/// A message together with the input it came from.
#[derive(Debug)]
pub struct UartMidiMessage {
    pub message: MidiMessage,
    pub uart_channel: UartChannel,
}

/// What feeding one batch of received bytes came to.
#[derive(Debug)]
pub struct ReadStep {
    /// How many bytes of the batch were used up.
    pub consumed: usize,
    /// The message or fault that the last used byte completed, if any.
    pub outcome: Option<Result<UartMidiMessage, UartMidiError>>,
}

/// The outcome of the last byte of a read, as the parser reported it.
pub open spec fn read_view(r: Result<UartMidiMessage, UartMidiError>) -> Outcome {
    match r {
        Ok(m) => Ok(Some(m.message@)),
        Err(UartMidiError::MessageError(e)) => Err(e),
        Err(UartMidiError::UartError(_)) => Ok(None),
    }
}

/// The reader of one input.
#[derive(Debug)]
pub struct MidiUart {
    pub uart_channel: UartChannel,
    pub parser: MidiParser,
}

impl MidiUart {
    /// The reader's parser is in a state it can be in between bytes.
    pub open spec fn wf(&self) -> bool {
        self.parser.wf()
    }

    /// A reader for the given input, its parser before its first byte.
    pub fn new(uart_channel: UartChannel) -> (r: Self)
        ensures
            r.uart_channel == uart_channel,
            r.parser@ == ParserModel::initial(),
            r.wf(),
    {
        let parser = MidiParser::default();
        MidiUart { uart_channel, parser }
    }

    /// Makes the parser drop what it has staged and resync. To be called
    /// after a fault of the serial line.
    pub fn reset_parser(&mut self)
        ensures
            final(self).parser@ == ParserModel::resyncing(old(self).parser@.running),
            final(self).uart_channel == old(self).uart_channel,
            old(self).wf() ==> final(self).wf(),
    {
        self.parser.reset();
    }

    /// `step` is a correct account of reading `buf` with a parser that
    /// started as `before` and ended as `after`, byte `i` timed `times[i]`:
    /// the bytes used up were fed in order, all but the last produced
    /// nothing, and either the last one completed the message or fault that
    /// is reported, or the whole batch was used up and produced nothing.
    pub open spec fn accounts_for(
        step: ReadStep,
        channel: UartChannel,
        before: ParserModel,
        after: ParserModel,
        buf: Seq<u8>,
        times: Seq<u64>,
        timeout: u64,
    ) -> bool {
        let (end, outs) = before.run(buf.take(step.consumed as int), times, timeout);
        &&& step.consumed <= buf.len()
        &&& times.len() == step.consumed
        &&& after == end
        &&& match step.outcome {
            None => step.consumed == buf.len() && outs == silent(step.consumed as nat),
            Some(r) => {
                &&& step.consumed >= 1
                &&& outs == silent((step.consumed - 1) as nat).push(read_view(r))
                &&& match r {
                    Ok(m) => m.uart_channel == channel,
                    Err(e) => e is MessageError,
                }
            },
        }
    }

    /// Feeds the parser from a batch of received bytes, each timed by the
    /// system clock, and stops at the first byte that completes a message or
    /// a fault.
    ///
    /// The caller marks `consumed` bytes of the batch as used. Whatever the
    /// clock showed for each byte, the result accounts for the batch in the
    /// sense of [`MidiUart::accounts_for`].
    pub fn read(&mut self, buf: &[u8]) -> (step: ReadStep)
        requires
            old(self).wf(),
        ensures
            final(self).wf(),
            final(self).uart_channel == old(self).uart_channel,
            step.outcome matches Some(Ok(m)) ==> m.message@.well_formed(),
            exists|times: Seq<u64>| #[trigger]
                Self::accounts_for(
                    step,
                    old(self).uart_channel,
                    old(self).parser@,
                    final(self).parser@,
                    buf@,
                    times,
                    millis_as_ticks(MIDI_BYTE_TIMEOUT_MS),
                ),
    {
        let ghost timeout = millis_as_ticks(MIDI_BYTE_TIMEOUT_MS);
        let ghost before = self.parser@;
        let ghost mut times: Seq<u64> = Seq::empty();
        let mut consumed: usize = 0;
        proof {
            assert(buf@.take(0) =~= Seq::<u8>::empty());
            assert(silent(0) =~= Seq::<Outcome>::empty());
        }
        while consumed < buf.len()
            invariant
                consumed <= buf.len(),
                times.len() == consumed,
                self.wf(),
                self.uart_channel == old(self).uart_channel,
                timeout == millis_as_ticks(MIDI_BYTE_TIMEOUT_MS),
                before == old(self).parser@,
                before.run(buf@.take(consumed as int), times, timeout) == (
                    self.parser@,
                    silent(consumed as nat),
                ),
            decreases buf.len() - consumed,
        {
            let byte = buf[consumed];
            let ghost earlier = self.parser@;
            let ghost fed = buf@.take(consumed as int);
            let ghost fed_times = times;
            consumed += 1;
            let fed_result = self.parser.feed_byte(byte);
            proof {
                let now = choose|now: u64|
                    (self.parser@, outcome_view(fed_result))
                        == #[trigger] earlier.step(byte, now, timeout);
                times = times.push(now);
                assert(buf@.take(consumed as int).drop_last() =~= fed);
                assert(times.drop_last() =~= fed_times);
                assert(buf@.take(consumed as int).last() == byte);
            }
            match fed_result {
                Ok(Some(message)) => {
                    let step = ReadStep {
                        consumed,
                        outcome: Some(
                            Ok(UartMidiMessage { message, uart_channel: self.uart_channel }),
                        ),
                    };
                    proof {
                        assert(Self::accounts_for(
                            step,
                            old(self).uart_channel,
                            old(self).parser@,
                            self.parser@,
                            buf@,
                            times,
                            timeout,
                        ));
                    }
                    return step;
                },
                Ok(None) => {
                    proof {
                        assert(silent((consumed - 1) as nat).push(Ok(None)) =~= silent(
                            consumed as nat,
                        ));
                    }
                },
                Err(err) => {
                    let step = ReadStep {
                        consumed,
                        outcome: Some(Err(UartMidiError::MessageError(err))),
                    };
                    proof {
                        assert(Self::accounts_for(
                            step,
                            old(self).uart_channel,
                            old(self).parser@,
                            self.parser@,
                            buf@,
                            times,
                            timeout,
                        ));
                    }
                    return step;
                },
            }
        }
        let step = ReadStep { consumed, outcome: None };
        proof {
            assert(Self::accounts_for(
                step,
                old(self).uart_channel,
                old(self).parser@,
                self.parser@,
                buf@,
                times,
                timeout,
            ));
        }
        step
    }

    /// Turns the result of a read, or a fault of the serial line, into the
    /// item for the merge channel.
    ///
    /// A message is passed on with its input. Any fault resets the parser
    /// and becomes the order to forget this input's running status, so that
    /// the order reaches the merge engine before anything parsed after it.
    pub fn forward(&mut self, read: Result<UartMidiMessage, UartMidiError>) -> (item: ChannelMessage)
        requires
            old(self).wf(),
        ensures
            final(self).wf(),
            final(self).uart_channel == old(self).uart_channel,
            match read {
                Ok(message) => item == ChannelMessage::Midi(message) && final(self).parser@
                    == old(self).parser@,
                Err(_) => item == ChannelMessage::Control(
                    ControlMessage::InvalidateRunningStatus(old(self).uart_channel),
                ) && final(self).parser@ == ParserModel::resyncing(old(self).parser@.running),
            },
    {
        match read {
            Ok(message) => ChannelMessage::Midi(message),
            Err(_) => {
                self.reset_parser();
                ChannelMessage::Control(ControlMessage::InvalidateRunningStatus(self.uart_channel))
            },
        }
    }
}

} // verus!

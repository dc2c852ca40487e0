use midi_merge::merge::{ChannelMessage, ControlMessage, MergeError, UartStatus};
use midi_merge::midi_uart::{MidiUart, UartChannel, UartError, UartMidiError};

/// Two inputs, their readers, the channel between them and the engine, and
/// an output that never fails.
struct Merger {
    zero: MidiUart,
    one: MidiUart,
    channel: std::vec::Vec<ChannelMessage>,
}

impl Merger {
    fn new() -> Self {
        Merger {
            zero: MidiUart::new(UartChannel::Zero),
            one: MidiUart::new(UartChannel::One),
            channel: std::vec::Vec::new(),
        }
    }

    fn reader(&mut self, input: UartChannel) -> &mut MidiUart {
        match input {
            UartChannel::Zero => &mut self.zero,
            UartChannel::One => &mut self.one,
        }
    }

    /// Bytes arrive on an input; everything they complete goes on the channel.
    fn receive(&mut self, input: UartChannel, bytes: &[u8]) {
        let mut rest = bytes;
        while !rest.is_empty() {
            let step = self.reader(input).read(rest);
            rest = &rest[step.consumed..];
            if let Some(outcome) = step.outcome {
                let item = self.reader(input).forward(outcome);
                self.channel.push(item);
            }
        }
    }

    /// The line of an input fails.
    fn line_fault(&mut self, input: UartChannel, fault: UartError) {
        let item = self.reader(input).forward(Err(UartMidiError::UartError(fault)));
        self.channel.push(item);
    }

    /// Drains the channel and returns what was written and how many
    /// messages were dropped.
    fn drain(self) -> (std::vec::Vec<u8>, usize) {
        let mut engine = UartStatus::default();
        let mut wire = std::vec::Vec::new();
        let mut dropped = 0;
        for item in self.channel {
            match engine.handle(item) {
                Ok(Some(t)) => {
                    if let Some(status) = t.status {
                        wire.push(status);
                    }
                    wire.extend_from_slice(t.data.as_slice());
                    engine.sent(&t);
                }
                Ok(None) => {}
                Err(MergeError::RunningStatusUnderflow) => dropped += 1,
            }
        }
        (wire, dropped)
    }
}

const A: UartChannel = UartChannel::Zero;
const B: UartChannel = UartChannel::One;

#[test]
fn interleaved_running_status_is_spelled_out() {
    let mut m = Merger::new();
    m.receive(A, &[0x90, 0x40, 0x7F]);
    m.receive(B, &[0xB0, 0x07, 0x40]);
    m.receive(A, &[0x41, 0x7F]);
    m.receive(B, &[0x07, 0x41]);
    m.receive(B, &[0x07, 0x42]);
    let (wire, dropped) = m.drain();
    assert_eq!(
        wire,
        vec![
            0x90, 0x40, 0x7F, 0xB0, 0x07, 0x40, 0x90, 0x41, 0x7F, 0xB0, 0x07, 0x41, 0x07, 0x42
        ]
    );
    assert_eq!(dropped, 0);
}

#[test]
fn single_input_passes_through_byte_for_byte() {
    let stream = [0x90u8, 0x40, 0x7F, 0x41, 0x7F, 0xF8, 0x42, 0x00, 0xC0, 0x05, 0xF6];
    let mut m = Merger::new();
    m.receive(A, &stream);
    let (wire, dropped) = m.drain();
    assert_eq!(wire, stream.to_vec());
    assert_eq!(dropped, 0);
}

#[test]
fn program_changes_under_running_status_pass_through() {
    let mut m = Merger::new();
    m.receive(A, &[0xC5, 0x10, 0x11]);
    m.receive(B, &[0x90, 0x40, 0x7F]);
    m.receive(A, &[0x12]);
    m.receive(A, &[0x13]);
    let (wire, dropped) = m.drain();
    assert_eq!(wire, vec![0xC5, 0x10, 0x11, 0x90, 0x40, 0x7F, 0xC5, 0x12, 0x13]);
    assert_eq!(dropped, 0);
}

#[test]
fn message_split_over_batches_is_assembled() {
    let mut m = Merger::new();
    m.receive(A, &[0x90]);
    m.receive(B, &[0xF8]);
    m.receive(A, &[0x40]);
    m.receive(A, &[0x7F]);
    let (wire, dropped) = m.drain();
    assert_eq!(wire, vec![0xF8, 0x90, 0x40, 0x7F]);
    assert_eq!(dropped, 0);
}

#[test]
fn line_fault_invalidates_the_input_and_resyncs_its_parser() {
    let mut m = Merger::new();
    m.receive(A, &[0x90, 0x40, 0x7F]);
    m.receive(B, &[0xB0, 0x07, 0x40]);
    m.receive(A, &[0x41]);
    m.line_fault(A, UartError::Overrun);
    // What is left of the interrupted message is thrown away.
    m.receive(A, &[0x7F, 0x42, 0x7F]);
    m.receive(A, &[0x80, 0x40, 0x00, 0x41, 0x00]);
    assert!(matches!(
        m.channel[2],
        ChannelMessage::Control(ControlMessage::InvalidateRunningStatus(UartChannel::Zero))
    ));
    let (wire, dropped) = m.drain();
    assert_eq!(wire, vec![0x90, 0x40, 0x7F, 0xB0, 0x07, 0x40, 0x80, 0x40, 0x00, 0x41, 0x00]);
    assert_eq!(dropped, 0);
}

#[test]
fn protocol_fault_on_one_input_leaves_the_other_alone() {
    let mut m = Merger::new();
    m.receive(A, &[0x90, 0x40, 0x7F]);
    m.receive(B, &[0xB0, 0x07, 0x40]);
    m.receive(A, &[0xF4, 0x41, 0x7F]);
    m.receive(B, &[0x07, 0x41]);
    m.receive(A, &[0x91, 0x40, 0x7F]);
    let (wire, dropped) = m.drain();
    assert_eq!(wire, vec![0x90, 0x40, 0x7F, 0xB0, 0x07, 0x40, 0x07, 0x41, 0x91, 0x40, 0x7F]);
    assert_eq!(dropped, 0);
}

use midi_merge::merge::{ChannelMessage, ControlMessage};
use midi_merge::midi_parser::{MidiMessage, MidiMessageError};
use midi_merge::midi_uart::{
    MidiUart, ReadStep, UartChannel, UartError, UartMidiError, UartMidiMessage,
};

fn voice_of(step: &ReadStep) -> (&[u8], UartChannel) {
    match &step.outcome {
        Some(Ok(UartMidiMessage { message: MidiMessage::Voice(v), uart_channel })) => {
            (v.as_slice(), *uart_channel)
        }
        other => panic!("expected a voice message, got {:?}", other),
    }
}

#[test]
fn default_channel_is_zero() {
    assert_eq!(UartChannel::default(), UartChannel::Zero);
}

#[test]
fn read_stops_at_the_first_message() {
    let mut reader = MidiUart::new(UartChannel::One);
    let buf = [0x90u8, 0x40, 0x7F, 0x80, 0x40, 0x00];
    let step = reader.read(&buf);
    assert_eq!(step.consumed, 3);
    assert_eq!(voice_of(&step), (&[0x90u8, 0x40, 0x7F][..], UartChannel::One));
    let step = reader.read(&buf[3..]);
    assert_eq!(step.consumed, 3);
    assert_eq!(voice_of(&step), (&[0x80u8, 0x40, 0x00][..], UartChannel::One));
}

#[test]
fn read_hands_out_one_byte_running_status() {
    let mut reader = MidiUart::new(UartChannel::Zero);
    let buf = [0xC5u8, 0x10, 0x11];
    let step = reader.read(&buf);
    assert_eq!(step.consumed, 2);
    assert_eq!(voice_of(&step), (&[0xC5u8, 0x10][..], UartChannel::Zero));
    let step = reader.read(&buf[2..]);
    assert_eq!(step.consumed, 1);
    match step.outcome {
        Some(Ok(UartMidiMessage { message: MidiMessage::RunningStatus(v), uart_channel })) => {
            assert_eq!(v.as_slice(), &[0x11]);
            assert_eq!(uart_channel, UartChannel::Zero);
        }
        other => panic!("expected running status, got {:?}", other),
    }
}

#[test]
fn reader_fields_are_its_input_and_its_parser() {
    let mut reader = MidiUart::new(UartChannel::One);
    assert_eq!(reader.uart_channel, UartChannel::One);
    let r = reader.parser.feed_byte_at(0xF8, 0, 10);
    assert!(matches!(r, Ok(Some(MidiMessage::SystemRealtime(_)))));
}

#[test]
fn read_uses_up_a_batch_without_a_message() {
    let mut reader = MidiUart::new(UartChannel::Zero);
    let step = reader.read(&[0x90, 0x40]);
    assert_eq!(step.consumed, 2);
    assert!(step.outcome.is_none());
    // The message is completed by the next batch.
    let step = reader.read(&[0x7F, 0x41]);
    assert_eq!(step.consumed, 1);
    assert_eq!(voice_of(&step), (&[0x90u8, 0x40, 0x7F][..], UartChannel::Zero));
}

#[test]
fn read_of_an_empty_batch_does_nothing() {
    let mut reader = MidiUart::new(UartChannel::Zero);
    let step = reader.read(&[]);
    assert_eq!(step.consumed, 0);
    assert!(step.outcome.is_none());
}

#[test]
fn read_stops_at_the_first_fault() {
    let mut reader = MidiUart::new(UartChannel::Zero);
    let step = reader.read(&[0x90, 0x91, 0x40, 0x7F]);
    assert_eq!(step.consumed, 2);
    match step.outcome {
        Some(Err(e)) => {
            assert_eq!(e, UartMidiError::MessageError(MidiMessageError::DuplicateStatus))
        }
        other => panic!("expected a fault, got {:?}", other),
    }
    // The parser resyncs: the data bytes that follow are thrown away.
    let step = reader.read(&[0x40, 0x7F]);
    assert_eq!(step.consumed, 2);
    assert!(step.outcome.is_none());
}

#[test]
fn read_hands_out_realtime_bytes_one_by_one() {
    let mut reader = MidiUart::new(UartChannel::One);
    let buf = [0xF8u8, 0xF8, 0x90];
    let step = reader.read(&buf);
    assert_eq!(step.consumed, 1);
    match step.outcome {
        Some(Ok(UartMidiMessage { message: MidiMessage::SystemRealtime(v), uart_channel })) => {
            assert_eq!(v.as_slice(), &[0xF8]);
            assert_eq!(uart_channel, UartChannel::One);
        }
        other => panic!("expected a real-time message, got {:?}", other),
    }
}

#[test]
fn reset_parser_drops_a_half_message() {
    let mut reader = MidiUart::new(UartChannel::Zero);
    let step = reader.read(&[0x90, 0x40]);
    assert!(step.outcome.is_none());
    reader.reset_parser();
    let step = reader.read(&[0x7F, 0x10, 0x80, 0x01, 0x02]);
    assert_eq!(step.consumed, 5);
    assert_eq!(voice_of(&step), (&[0x80u8, 0x01, 0x02][..], UartChannel::Zero));
}

#[test]
fn forward_passes_a_message_on() {
    let mut reader = MidiUart::new(UartChannel::One);
    let step = reader.read(&[0x90, 0x40, 0x7F]);
    let item = reader.forward(step.outcome.unwrap());
    match item {
        ChannelMessage::Midi(UartMidiMessage { message: MidiMessage::Voice(v), uart_channel }) => {
            assert_eq!(v.as_slice(), &[0x90, 0x40, 0x7F]);
            assert_eq!(uart_channel, UartChannel::One);
        }
        other => panic!("expected the message, got {:?}", other),
    }
}

#[test]
fn forward_turns_a_line_fault_into_an_invalidation_and_resets() {
    for fault in [
        UartError::Overrun,
        UartError::Break,
        UartError::Parity,
        UartError::Framing,
        UartError::Other,
    ] {
        let mut reader = MidiUart::new(UartChannel::One);
        let step = reader.read(&[0x90, 0x40]);
        assert!(step.outcome.is_none());
        let item = reader.forward(Err(UartMidiError::UartError(fault)));
        match item {
            ChannelMessage::Control(c) => {
                assert_eq!(c, ControlMessage::InvalidateRunningStatus(UartChannel::One))
            }
            other => panic!("expected an invalidation, got {:?}", other),
        }
        // The staged bytes are gone.
        let step = reader.read(&[0x7F]);
        assert_eq!(step.consumed, 1);
        assert!(step.outcome.is_none());
    }
}

#[test]
fn forward_turns_a_protocol_fault_into_an_invalidation() {
    let mut reader = MidiUart::new(UartChannel::Zero);
    let step = reader.read(&[0xF4]);
    let outcome = step.outcome.unwrap();
    assert_eq!(
        outcome.as_ref().err(),
        Some(&UartMidiError::MessageError(MidiMessageError::InvalidStatusByte))
    );
    match reader.forward(outcome) {
        ChannelMessage::Control(c) => {
            assert_eq!(c, ControlMessage::InvalidateRunningStatus(UartChannel::Zero))
        }
        other => panic!("expected an invalidation, got {:?}", other),
    }
}

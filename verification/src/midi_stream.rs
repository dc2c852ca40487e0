//! Whole byte streams through the parser.
//!
//! [`ParserModel::step`] says what one byte does. This module follows a
//! parser over a sequence of bytes, each with the clock reading at which it
//! arrived, and proves what the parser does with streams: that well-formed
//! messages come out as they went in, that real-time bytes can be dropped in
//! anywhere, and that the parser finds its way back after a fault.

use crate::midi_parser::{
    classify, expected_data_len, is_message_status, is_realtime_byte, is_status_byte,
    is_undefined_realtime, lemma_step_keeps_shape, MessageView, MidiMessageError, Outcome,
    ParserModel, ParserState,
};
use vstd::prelude::*;

verus! {

/// `n` bytes that produced nothing.
pub open spec fn silent(n: nat) -> Seq<Outcome> {
    Seq::new(n, |i: int| Ok(None))
}

/// The messages among the outcomes, in order.
pub open spec fn messages(outs: Seq<Outcome>) -> Seq<MessageView>
    decreases outs.len(),
{
    if outs.len() == 0 {
        Seq::empty()
    } else {
        let earlier = messages(outs.drop_last());
        match outs.last() {
            Ok(Some(m)) => earlier.push(m),
            _ => earlier,
        }
    }
}

/// No outcome is a fault.
pub open spec fn fault_free(outs: Seq<Outcome>) -> bool {
    forall|i: int| 0 <= i < outs.len() ==> (#[trigger] outs[i]) is Ok
}

/// The bytes of the messages, one message after the other.
pub open spec fn encode(msgs: Seq<MessageView>) -> Seq<u8>
    decreases msgs.len(),
{
    if msgs.len() == 0 {
        Seq::empty()
    } else {
        encode(msgs.drop_last()) + msgs.last().bytes()
    }
}

/// The clock readings of the messages, one message after the other.
pub open spec fn timeline(arrivals: Seq<Seq<u64>>) -> Seq<u64>
    decreases arrivals.len(),
{
    if arrivals.len() == 0 {
        Seq::empty()
    } else {
        timeline(arrivals.drop_last()) + arrivals.last()
    }
}

/// How many data bytes a running-status message has after `msgs`, if it had
/// `start` before them: what the last voice message among them calls for.
pub open spec fn running_after(start: nat, msgs: Seq<MessageView>) -> nat
    decreases msgs.len(),
{
    if msgs.len() == 0 {
        start
    } else {
        msgs.last().running_length(running_after(start, msgs.drop_last()))
    }
}

/// Every message has the shape messages have, and every running-status
/// message has as many data bytes as the last voice message before it calls
/// for, or `start` if there is none before it.
pub open spec fn coherent(start: nat, msgs: Seq<MessageView>) -> bool
    decreases msgs.len(),
{
    if msgs.len() == 0 {
        true
    } else {
        coherent(start, msgs.drop_last()) && msgs.last().fits(
            running_after(start, msgs.drop_last()),
        )
    }
}

/// Reading `later` does not lie more than `timeout` ticks after `earlier`.
pub open spec fn in_time(earlier: u64, later: u64, timeout: u64) -> bool {
    !(later >= earlier && later - earlier > timeout)
}

/// No two neighbouring readings lie more than `timeout` ticks apart.
pub open spec fn punctual(times: Seq<u64>, timeout: u64) -> bool {
    forall|i: int, j: int|
        0 <= i && j == i + 1 && j < times.len() ==> in_time(
            #[trigger] times[i],
            #[trigger] times[j],
            timeout,
        )
}

/// A byte that a resyncing parser throws away: a data byte, or one of the
/// undefined status bytes below the real-time range.
pub open spec fn is_noise(byte: u8) -> bool {
    !is_status_byte(byte) || byte == 0xF4 || byte == 0xF5
}

impl ParserModel {
    /// The parser after `bytes`, byte `i` arriving at reading `times[i]`,
    /// and what each byte produced.
    pub open spec fn run(self, bytes: Seq<u8>, times: Seq<u64>, timeout: u64) -> (
        ParserModel,
        Seq<Outcome>,
    )
        decreases bytes.len(),
    {
        if bytes.len() == 0 {
            (self, Seq::empty())
        } else {
            let (before, outs) = self.run(bytes.drop_last(), times.drop_last(), timeout);
            let (after, out) = before.step(bytes.last(), times.last(), timeout);
            (after, outs.push(out))
        }
    }

    /// The parser will take a status byte at reading `now` as the start of a
    /// fresh message: it is hunting for one, or it is reading and either has
    /// nothing staged or is about to time out.
    pub open spec fn receptive(self, now: u64, timeout: u64) -> bool {
        ||| self.state == ParserState::Resyncing
        ||| self.state == ParserState::Reading && (self.status.len() + self.data.len() == 0
            || self.timed_out(now, timeout))
    }
}

/// Every fault leaves the parser resyncing with nothing staged.
pub proof fn lemma_fault_resyncs(s: ParserModel, byte: u8, now: u64, timeout: u64)
    ensures
        s.step(byte, now, timeout).1 is Err ==> s.step(byte, now, timeout).0
            == ParserModel::resyncing(s.running),
{
}

/// A run answers every byte.
pub proof fn lemma_run_len(s: ParserModel, bytes: Seq<u8>, times: Seq<u64>, timeout: u64)
    ensures
        s.run(bytes, times, timeout).1.len() == bytes.len(),
    decreases bytes.len(),
{
    if bytes.len() > 0 {
        lemma_run_len(s, bytes.drop_last(), times.drop_last(), timeout);
    }
}

/// Whatever the bytes, what comes out is coherent. A parser between bytes
/// that is fed any stream at all ends between bytes; every message it hands
/// out has the shape messages have; every running-status message has as many
/// data bytes as the status byte of the last voice message before it calls
/// for; and the parser ends expecting running status of the length that the
/// last voice message set.
pub proof fn theorem_output_is_coherent(
    s: ParserModel,
    bytes: Seq<u8>,
    times: Seq<u64>,
    timeout: u64,
)
    requires
        s.wf(),
    ensures
        s.run(bytes, times, timeout).0.wf(),
        coherent(s.running, messages(s.run(bytes, times, timeout).1)),
        s.run(bytes, times, timeout).0.running == running_after(
            s.running,
            messages(s.run(bytes, times, timeout).1),
        ),
    decreases bytes.len(),
{
    if bytes.len() > 0 {
        theorem_output_is_coherent(s, bytes.drop_last(), times.drop_last(), timeout);
        let (before, outs) = s.run(bytes.drop_last(), times.drop_last(), timeout);
        lemma_step_keeps_shape(before, bytes.last(), times.last(), timeout);
        let out = before.step(bytes.last(), times.last(), timeout).1;
        assert(outs.push(out).drop_last() =~= outs);
        match out {
            Ok(Some(m)) => {
                assert(messages(outs).push(m).drop_last() =~= messages(outs));
            },
            _ => {},
        }
    }
}

/// A run takes a parser from one resting state to another.
pub proof fn lemma_run_wf(s: ParserModel, bytes: Seq<u8>, times: Seq<u64>, timeout: u64)
    requires
        s.wf(),
    ensures
        s.run(bytes, times, timeout).0.wf(),
{
    theorem_output_is_coherent(s, bytes, times, timeout);
}

/// Running over two streams in a row is running over their concatenation.
pub proof fn lemma_run_concat(
    s: ParserModel,
    b1: Seq<u8>,
    t1: Seq<u64>,
    b2: Seq<u8>,
    t2: Seq<u64>,
    timeout: u64,
)
    requires
        b1.len() == t1.len(),
        b2.len() == t2.len(),
    ensures
        s.run(b1 + b2, t1 + t2, timeout) == ({
            let (mid, o1) = s.run(b1, t1, timeout);
            let (end, o2) = mid.run(b2, t2, timeout);
            (end, o1 + o2)
        }),
    decreases b2.len(),
{
    let (mid, o1) = s.run(b1, t1, timeout);
    if b2.len() == 0 {
        assert(b1 + b2 =~= b1);
        assert(t1 + t2 =~= t1);
        assert(o1 + Seq::<Outcome>::empty() =~= o1);
    } else {
        lemma_run_concat(s, b1, t1, b2.drop_last(), t2.drop_last(), timeout);
        assert((b1 + b2).drop_last() =~= b1 + b2.drop_last());
        assert((t1 + t2).drop_last() =~= t1 + t2.drop_last());
        let (before, o2) = mid.run(b2.drop_last(), t2.drop_last(), timeout);
        let out = before.step(b2.last(), t2.last(), timeout).1;
        assert((o1 + o2).push(out) =~= o1 + o2.push(out));
    }
}

/// The messages of two runs in a row are those of the first followed by
/// those of the second.
pub proof fn lemma_messages_concat(o1: Seq<Outcome>, o2: Seq<Outcome>)
    ensures
        messages(o1 + o2) == messages(o1) + messages(o2),
    decreases o2.len(),
{
    if o2.len() == 0 {
        assert(o1 + o2 =~= o1);
        assert(messages(o1) + messages(o2) =~= messages(o1));
    } else {
        lemma_messages_concat(o1, o2.drop_last());
        assert((o1 + o2).drop_last() =~= o1 + o2.drop_last());
        assert((o1 + o2).last() == o2.last());
        match o2.last() {
            Ok(Some(m)) => {
                assert((messages(o1) + messages(o2.drop_last())).push(m) =~= messages(o1)
                    + messages(o2.drop_last()).push(m));
            },
            _ => {},
        }
    }
}

/// Bytes that produced nothing hold no message.
pub proof fn lemma_silent_messages(n: nat)
    ensures
        messages(silent(n)) == Seq::<MessageView>::empty(),
        fault_free(silent(n)),
    decreases n,
{
    if n > 0 {
        lemma_silent_messages((n - 1) as nat);
        assert(silent(n).drop_last() =~= silent((n - 1) as nat));
    }
}

/// One message that fits, fed to a parser at rest without a silence past the
/// limit, comes out whole on its last byte and leaves the parser at rest.
pub proof fn lemma_one_message(running: nat, m: MessageView, times: Seq<u64>, timeout: u64)
    requires
        1 <= running <= 2,
        m.fits(running),
        times.len() == m.bytes().len(),
        punctual(times, timeout),
    ensures
        ParserModel::idle(running).run(m.bytes(), times, timeout) == (
            ParserModel::idle(m.running_length(running)),
            silent((m.bytes().len() - 1) as nat).push(Ok(Some(m))),
        ),
{
    let b = m.bytes();
    let n = b.len();
    let idle = ParserModel::idle(running);
    reveal_with_fuel(ParserModel::run, 4);
    let b0 = b.take(0);
    let b1 = b.take(1);
    let t1 = times.take(1);
    assert(b1.drop_last() =~= b0);
    assert(idle.run(b0, times.take(0), timeout) == (idle, Seq::<Outcome>::empty()));
    assert(t1.drop_last() =~= times.take(0));
    let (s1, o1) = idle.step(b[0], times[0], timeout);
    assert(idle.run(b1, t1, timeout) == (s1, Seq::<Outcome>::empty().push(o1)));
    if n == 1 {
        assert(b1 =~= b);
        assert(t1 =~= times);
        assert(seq![b[0]] + Seq::<u8>::empty() =~= b);
        assert(Seq::<u8>::empty() + Seq::<u8>::empty().push(b[0]) =~= b);
        assert(Seq::<u8>::empty().push(b[0]) =~= seq![b[0]]);
        assert(seq![b[0]] =~= b);
        assert(Seq::<Outcome>::empty().push(o1) =~= silent(0).push(Ok(Some(m))));
    } else {
        let b2 = b.take(2);
        let t2 = times.take(2);
        assert(b2.drop_last() =~= b1);
        assert(t2.drop_last() =~= t1);
        assert(in_time(times[0], times[1], timeout));
        assert(!is_status_byte(b[1]));
        let (s2, o2) = s1.step(b[1], times[1], timeout);
        assert(idle.run(b2, t2, timeout) == (s2, Seq::<Outcome>::empty().push(o1).push(o2)));
        if n == 2 {
            assert(b2 =~= b);
            assert(t2 =~= times);
            assert(s1.status + s1.data.push(b[1]) =~= b);
            assert((s1.status + s1.data.push(b[1]))[0] == b[0]);
            assert(Seq::<Outcome>::empty().push(o1).push(o2) =~= silent(1).push(Ok(Some(m))));
        } else {
            assert(n == 3);
            assert(b.drop_last() =~= b2);
            assert(times.drop_last() =~= t2);
            assert(in_time(times[1], times[2], timeout));
            assert(!is_status_byte(b[2]));
            let (s3, o3) = s2.step(b[2], times[2], timeout);
            assert(s2.status + s2.data.push(b[2]) =~= b);
            assert((s2.status + s2.data.push(b[2]))[0] == b[0]);
            assert(Seq::<Outcome>::empty().push(o1).push(o2).push(o3) =~= silent(2).push(
                Ok(Some(m)),
            ));
        }
    }
}

/// Round trip. Take any coherent sequence of messages: each of the shape
/// messages have, each running-status message with as many data bytes as the
/// voice message before it calls for (two if none came before). Write their
/// bytes out one after the other. A parser before its first byte that is fed
/// this stream, with no silence past the limit inside a message, reports no
/// fault, hands out exactly those messages in that order, byte for byte, and
/// ends at rest.
///
/// The same holds for a parser at rest that expects running status of
/// `running` data bytes, for sequences coherent from there.
pub proof fn theorem_round_trip(
    running: nat,
    msgs: Seq<MessageView>,
    arrivals: Seq<Seq<u64>>,
    timeout: u64,
)
    requires
        1 <= running <= 2,
        coherent(running, msgs),
        arrivals.len() == msgs.len(),
        forall|i: int|
            #![trigger arrivals[i]]
            0 <= i < msgs.len() ==> arrivals[i].len() == msgs[i].bytes().len() && punctual(
                arrivals[i],
                timeout,
            ),
    ensures
        ParserModel::initial() == ParserModel::idle(2),
        encode(msgs).len() == timeline(arrivals).len(),
        1 <= running_after(running, msgs) <= 2,
        ParserModel::idle(running).run(encode(msgs), timeline(arrivals), timeout).0
            == ParserModel::idle(running_after(running, msgs)),
        fault_free(ParserModel::idle(running).run(encode(msgs), timeline(arrivals), timeout).1),
        messages(ParserModel::idle(running).run(encode(msgs), timeline(arrivals), timeout).1)
            == msgs,
    decreases msgs.len(),
{
    let idle = ParserModel::idle(running);
    if msgs.len() == 0 {
        assert(messages(Seq::<Outcome>::empty()) =~= msgs);
    } else {
        let head = msgs.drop_last();
        let head_times = arrivals.drop_last();
        let m = msgs.last();
        let t = arrivals.last();
        assert forall|i: int|
            #![trigger head_times[i]]
            0 <= i < head.len() implies head_times[i].len() == head[i].bytes().len() && punctual(
            head_times[i],
            timeout,
        ) by {
            assert(head_times[i] == arrivals[i]);
            assert(head[i] == msgs[i]);
        }
        theorem_round_trip(running, head, head_times, timeout);
        let mid = running_after(running, head);
        lemma_one_message(mid, m, t, timeout);
        lemma_run_concat(idle, encode(head), timeline(head_times), m.bytes(), t, timeout);
        let o1 = idle.run(encode(head), timeline(head_times), timeout).1;
        let quiet = silent((m.bytes().len() - 1) as nat);
        let o2 = quiet.push(Ok(Some(m)));
        lemma_messages_concat(o1, o2);
        lemma_silent_messages((m.bytes().len() - 1) as nat);
        assert(o2.drop_last() =~= quiet);
        assert(messages(o2) =~= seq![m]);
        assert(messages(o1) + seq![m] =~= msgs);
        assert forall|i: int| 0 <= i < (o1 + o2).len() implies (#[trigger] (o1 + o2)[i]) is Ok by {
            if i < o1.len() {
                assert((o1 + o2)[i] == o1[i]);
            } else {
                assert((o1 + o2)[i] == o2[i - o1.len()]);
                if i - o1.len() < quiet.len() {
                    assert(o2[i - o1.len()] == quiet[i - o1.len()]);
                }
            }
        }
    }
}

/// Running status. A voice message with its status byte comes out as
/// `Voice`. Bare data bytes that follow it, as many as its status byte calls
/// for, come out as `RunningStatus` holding just those bytes, complete on
/// the last of them: one byte after program change and channel pressure,
/// two after every other voice message.
pub proof fn theorem_running_status(
    running: nat,
    status: u8,
    data: Seq<u8>,
    more: Seq<u8>,
    voice_times: Seq<u64>,
    running_times: Seq<u64>,
    timeout: u64,
)
    requires
        1 <= running <= 2,
        MessageView::Voice(seq![status] + data).well_formed(),
        more.len() == expected_data_len(status),
        MessageView::data_from(more, 0),
        voice_times.len() == 1 + data.len(),
        running_times.len() == more.len(),
        punctual(voice_times, timeout),
        punctual(running_times, timeout),
    ensures
        more.len() >= 1,
        ParserModel::idle(running).run(
            seq![status] + data + more,
            voice_times + running_times,
            timeout,
        ) == (
            ParserModel::idle(expected_data_len(status)),
            silent(data.len()).push(Ok(Some(MessageView::Voice(seq![status] + data))))
                + silent((more.len() - 1) as nat).push(
                Ok(Some(MessageView::RunningStatus(more))),
            ),
        ),
{
    let idle = ParserModel::idle(running);
    let voice = MessageView::Voice(seq![status] + data);
    let bare = MessageView::RunningStatus(more);
    assert((seq![status] + data)[0] == status);
    lemma_one_message(running, voice, voice_times, timeout);
    lemma_one_message(expected_data_len(status), bare, running_times, timeout);
    lemma_run_concat(idle, voice.bytes(), voice_times, bare.bytes(), running_times, timeout);
}

/// Real-time interruption. Put a defined real-time byte anywhere into a
/// stream, in the middle of a message or not. The parser answers it on the
/// spot with a `SystemRealtime` message, and everything else goes as if the
/// byte had not been there: the same outcome for every other byte, the same
/// parser at the end.
pub proof fn theorem_realtime_insertion(
    s: ParserModel,
    bytes: Seq<u8>,
    times: Seq<u64>,
    k: int,
    realtime: u8,
    at: u64,
    timeout: u64,
)
    requires
        bytes.len() == times.len(),
        0 <= k <= bytes.len(),
        is_realtime_byte(realtime),
        !is_undefined_realtime(realtime),
    ensures
        s.run(bytes.insert(k, realtime), times.insert(k, at), timeout) == (
            s.run(bytes, times, timeout).0,
            s.run(bytes, times, timeout).1.insert(
                k,
                Ok(Some(MessageView::SystemRealtime(seq![realtime]))),
            ),
        ),
    decreases bytes.len(),
{
    let (end, outs) = s.run(bytes, times, timeout);
    let answer: Outcome = Ok(Some(MessageView::SystemRealtime(seq![realtime])));
    lemma_run_len(s, bytes, times, timeout);
    let longer = bytes.insert(k, realtime);
    let longer_times = times.insert(k, at);
    if k == bytes.len() {
        assert(longer.drop_last() =~= bytes);
        assert(longer_times.drop_last() =~= times);
        assert(outs.insert(k, answer) =~= outs.push(answer));
    } else {
        theorem_realtime_insertion(
            s,
            bytes.drop_last(),
            times.drop_last(),
            k,
            realtime,
            at,
            timeout,
        );
        lemma_run_len(s, bytes.drop_last(), times.drop_last(), timeout);
        assert(longer.drop_last() =~= bytes.drop_last().insert(k, realtime));
        assert(longer_times.drop_last() =~= times.drop_last().insert(k, at));
        assert(longer.last() == bytes.last());
        assert(longer_times.last() == times.last());
        let (before, earlier) = s.run(bytes.drop_last(), times.drop_last(), timeout);
        let out = before.step(bytes.last(), times.last(), timeout).1;
        assert(earlier.insert(k, answer).push(out) =~= earlier.push(out).insert(k, answer));
    }
}

/// While it hunts for a status byte the parser throws noise away: data bytes
/// and the undefined status bytes produce nothing and leave it hunting.
pub proof fn lemma_hunt_discards_noise(
    running: nat,
    noise: Seq<u8>,
    times: Seq<u64>,
    timeout: u64,
)
    requires
        forall|i: int| 0 <= i < noise.len() ==> is_noise(#[trigger] noise[i]),
    ensures
        ParserModel::resyncing(running).run(noise, times, timeout) == (
            ParserModel::resyncing(running),
            silent(noise.len()),
        ),
    decreases noise.len(),
{
    if noise.len() > 0 {
        let head = noise.drop_last();
        assert forall|i: int| 0 <= i < head.len() implies is_noise(#[trigger] head[i]) by {
            assert(head[i] == noise[i]);
        }
        lemma_hunt_discards_noise(running, head, times.drop_last(), timeout);
        assert(is_noise(noise.last()));
        assert(silent(head.len()).push(Ok(None)) =~= silent(noise.len()));
    } else {
        assert(silent(0) =~= Seq::<Outcome>::empty());
    }
}

/// Resync convergence. Start from the parser as a fault leaves it and feed
/// it anything. If it then stands ready for a fresh message (see
/// [`ParserModel::receptive`]), a usable status byte followed by exactly the
/// data bytes it calls for yields exactly one message, on the last byte: the
/// one those bytes spell, with nothing in it from before.
pub proof fn theorem_resync_convergence(
    running: nat,
    garbage: Seq<u8>,
    garbage_times: Seq<u64>,
    status: u8,
    data: Seq<u8>,
    times: Seq<u64>,
    timeout: u64,
)
    requires
        1 <= running <= 2,
        is_message_status(status),
        data.len() == expected_data_len(status),
        MessageView::data_from(data, 0),
        times.len() == 1 + data.len(),
        punctual(times, timeout),
        ParserModel::resyncing(running).run(garbage, garbage_times, timeout).0.receptive(
            times[0],
            timeout,
        ),
    ensures
        ({
            let mid = ParserModel::resyncing(running).run(garbage, garbage_times, timeout).0;
            let m = classify(seq![status], data)->Ok_0;
            &&& classify(seq![status], data) is Ok
            &&& m.well_formed()
            &&& m.bytes() == seq![status] + data
            &&& mid.run(seq![status] + data, times, timeout) == (
                ParserModel::idle(m.running_length(mid.running)),
                silent(data.len()).push(Ok(Some(m))),
            )
        }),
{
    let mid = ParserModel::resyncing(running).run(garbage, garbage_times, timeout).0;
    lemma_run_wf(ParserModel::resyncing(running), garbage, garbage_times, timeout);
    lemma_fresh_message(mid, status, data, times, timeout);
}

/// A receptive parser takes a status byte and its data bytes as one fresh
/// message and comes to rest.
pub proof fn lemma_fresh_message(
    s: ParserModel,
    status: u8,
    data: Seq<u8>,
    times: Seq<u64>,
    timeout: u64,
)
    requires
        s.wf(),
        is_message_status(status),
        data.len() == expected_data_len(status),
        MessageView::data_from(data, 0),
        times.len() == 1 + data.len(),
        punctual(times, timeout),
        s.receptive(times[0], timeout),
    ensures
        classify(seq![status], data) is Ok,
        classify(seq![status], data)->Ok_0.well_formed(),
        classify(seq![status], data)->Ok_0.bytes() == seq![status] + data,
        s.run(seq![status] + data, times, timeout) == (
            ParserModel::idle(classify(seq![status], data)->Ok_0.running_length(s.running)),
            silent(data.len()).push(Ok(Some(classify(seq![status], data)->Ok_0))),
        ),
{
    let b = seq![status] + data;
    let m = classify(seq![status], data)->Ok_0;
    assert(m.bytes() =~= b);
    assert forall|i: int| 1 <= i < b.len() implies !is_status_byte(#[trigger] b[i]) by {
        assert(b[i] == data[i - 1]);
    }
    assert(m.well_formed());
    // From a receptive state the first byte has the same effect as from rest.
    let idle = ParserModel::idle(s.running);
    if s.state == ParserState::Reading && !s.timed_out(times[0], timeout) {
        assert(s.status =~= Seq::<u8>::empty());
        assert(s.data =~= Seq::<u8>::empty());
        assert(s == idle);
    }
    assert(s.step(status, times[0], timeout) == idle.step(status, times[0], timeout));
    lemma_one_message(s.running, m, times, timeout);
    lemma_same_first_step(s, idle, b, times, timeout);
}

/// A parser between bytes that is not receptive does not take a status byte
/// and its data bytes as one fresh message: it is inside a system exclusive
/// block and discards them, or it has bytes staged that turn the status byte
/// into a fault or end up in the message.
pub proof fn lemma_stale_bytes_interfere(
    s: ParserModel,
    status: u8,
    data: Seq<u8>,
    times: Seq<u64>,
    timeout: u64,
)
    requires
        s.wf(),
        is_message_status(status),
        data.len() == expected_data_len(status),
        MessageView::data_from(data, 0),
        times.len() == 1 + data.len(),
        punctual(times, timeout),
        !s.receptive(times[0], timeout),
    ensures
        s.run(seq![status] + data, times, timeout).1 != silent(data.len()).push(
            Ok(Some(classify(seq![status], data)->Ok_0)),
        ),
{
    let b = seq![status] + data;
    let expected = silent(data.len()).push(Ok(Some(classify(seq![status], data)->Ok_0)));
    let (end, outs) = s.run(b, times, timeout);
    lemma_run_len(s, b, times, timeout);
    // The answer to the status byte already differs, or the message does.
    let first = s.step(status, times[0], timeout);
    lemma_first_outcome(s, b, times, timeout);
    assert(outs[0] == first.1);
    if s.state == ParserState::InSysEx {
        assert forall|i: int| 0 <= i < b.len() implies !is_realtime_byte(#[trigger] b[i]) && b[i]
            != 0xF7 by {
            if i > 0 {
                assert(b[i] == data[i - 1]);
                assert(!is_status_byte(data[i - 1]));
            }
        }
        lemma_sysex_swallows(s.running, b, times, timeout);
        assert(outs[data.len() as int] == silent(b.len())[data.len() as int]);
        assert(expected[data.len() as int] is Ok && expected[data.len() as int]->Ok_0 is Some);
    } else {
        assert(s.state == ParserState::Reading);
        if s.status.len() >= 1 {
            assert(first.1 is Err);
            assert(expected[0] is Ok);
        } else {
            assert(s.data.len() == 1);
            let staged = first.0;
            if data.len() == 0 {
                assert(first.1 == Ok::<Option<MessageView>, MidiMessageError>(None));
                assert(expected[0] == Ok::<Option<MessageView>, MidiMessageError>(
                    Some(classify(seq![status], data)->Ok_0),
                ));
            } else if data.len() == 1 {
                assert(first.1 is Ok && first.1->Ok_0 is Some);
                assert(expected[0] == silent(1)[0]);
            } else {
                assert(data.len() == 2);
                assert(first.1 == Ok::<Option<MessageView>, MidiMessageError>(None));
                lemma_second_outcome(s, b, times, timeout);
                assert(!is_status_byte(data[0]));
                assert(b[1] == data[0]);
                assert(in_time(times[0], times[1], timeout));
                let second = staged.step(b[1], times[1], timeout);
                assert(outs[1] == second.1);
                assert(second.1 != Ok::<Option<MessageView>, MidiMessageError>(None));
                assert(expected[1] == silent(2)[1]);
            }
        }
    }
}

/// The first outcome of a run is the outcome of the first step.
pub proof fn lemma_first_outcome(s: ParserModel, bytes: Seq<u8>, times: Seq<u64>, timeout: u64)
    requires
        bytes.len() >= 1,
        times.len() == bytes.len(),
    ensures
        s.run(bytes, times, timeout).1.len() == bytes.len(),
        s.run(bytes, times, timeout).1[0] == s.step(bytes[0], times[0], timeout).1,
    decreases bytes.len(),
{
    lemma_run_len(s, bytes, times, timeout);
    if bytes.len() == 1 {
        reveal_with_fuel(ParserModel::run, 2);
        assert(bytes.drop_last().len() == 0);
    } else {
        lemma_first_outcome(s, bytes.drop_last(), times.drop_last(), timeout);
    }
}

/// The second outcome of a run is the outcome of the second step.
pub proof fn lemma_second_outcome(s: ParserModel, bytes: Seq<u8>, times: Seq<u64>, timeout: u64)
    requires
        bytes.len() >= 2,
        times.len() == bytes.len(),
    ensures
        s.run(bytes, times, timeout).1.len() == bytes.len(),
        s.run(bytes, times, timeout).1[1] == s.step(bytes[0], times[0], timeout).0.step(
            bytes[1],
            times[1],
            timeout,
        ).1,
    decreases bytes.len(),
{
    lemma_run_len(s, bytes, times, timeout);
    if bytes.len() == 2 {
        let head = bytes.drop_last();
        reveal_with_fuel(ParserModel::run, 3);
        assert(head.drop_last().len() == 0);
    } else {
        lemma_second_outcome(s, bytes.drop_last(), times.drop_last(), timeout);
        lemma_run_len(s, bytes.drop_last(), times.drop_last(), timeout);
    }
}

/// Inside a system exclusive block everything below the real-time range is
/// discarded, except the end mark.
pub proof fn lemma_sysex_swallows(running: nat, bytes: Seq<u8>, times: Seq<u64>, timeout: u64)
    requires
        forall|i: int|
            0 <= i < bytes.len() ==> !is_realtime_byte(#[trigger] bytes[i]) && bytes[i] != 0xF7,
    ensures
        ParserModel::in_sysex(running).run(bytes, times, timeout) == (
            ParserModel::in_sysex(running),
            silent(bytes.len()),
        ),
    decreases bytes.len(),
{
    if bytes.len() > 0 {
        let head = bytes.drop_last();
        assert forall|i: int| 0 <= i < head.len() implies !is_realtime_byte(#[trigger] head[i])
            && head[i] != 0xF7 by {
            assert(head[i] == bytes[i]);
        }
        lemma_sysex_swallows(running, head, times.drop_last(), timeout);
        assert(!is_realtime_byte(bytes.last()) && bytes.last() != 0xF7);
        assert(silent(head.len()).push(Ok(None)) =~= silent(bytes.len()));
    } else {
        assert(silent(0) =~= Seq::<Outcome>::empty());
    }
}

/// Two parsers that agree after the first byte of a stream agree after the
/// whole stream.
pub proof fn lemma_same_first_step(
    s: ParserModel,
    t: ParserModel,
    bytes: Seq<u8>,
    times: Seq<u64>,
    timeout: u64,
)
    requires
        bytes.len() >= 1,
        times.len() == bytes.len(),
        s.step(bytes[0], times[0], timeout) == t.step(bytes[0], times[0], timeout),
    ensures
        s.run(bytes, times, timeout) == t.run(bytes, times, timeout),
    decreases bytes.len(),
{
    if bytes.len() == 1 {
        reveal_with_fuel(ParserModel::run, 2);
        assert(bytes.drop_last().len() == 0);
    } else {
        assert(bytes.drop_last()[0] == bytes[0]);
        assert(times.drop_last()[0] == times[0]);
        lemma_same_first_step(s, t, bytes.drop_last(), times.drop_last(), timeout);
    }
}

} // verus!

//! A bounded channel of timing samples, from the systems that are timed to
//! the one writer that turns them into text.

use crate::decimal::decimal;
use crate::decimal::decimal_string;
use crossbeam::queue::ArrayQueue;
use crossbeam::queue::PushError;
use std::time::Duration;
use std::time::Instant;
use vstd::prelude::*;
use vstd::string::*;

verus! {

/// `crossbeam::queue::ArrayQueue`, the bounded queue the channel is built on.
/// Nothing inside it is visible here; what it holds goes by [`queued`] and
/// [`limit`].
#[verifier::external_type_specification]
#[verifier::external_body]
#[verifier::reject_recursive_types(T)]
pub struct ExArrayQueue<T>(ArrayQueue<T>);

/// `std::time::Instant`, a reading of the monotonic clock. It is carried, never
/// looked into.
#[verifier::external_type_specification]
#[verifier::external_body]
pub struct ExInstant(Instant);

/// One sample: which system ran, and when it started and ended, in whole
/// microseconds since the channel was made.
#[derive(Clone, Copy, Debug, PartialEq, Eq)]
pub struct TimeMessage {
    pub name: &'static str,
    pub start: u128,
    pub end: u128,
}

/// The messages a queue holds, oldest first. The queue is only ever reached
/// through `&mut`, so no other thread changes them between two calls.
pub uninterp spec fn queued(queue: ArrayQueue<TimeMessage>) -> Seq<TimeMessage>;

/// The capacity a queue was made with.
pub uninterp spec fn limit(queue: ArrayQueue<TimeMessage>) -> nat;

/// The time from `earlier` to `later`, zero where `earlier` is the later one.
pub uninterp spec fn elapsed(later: Instant, earlier: Instant) -> Duration;

/// The whole microseconds in a duration.
pub uninterp spec fn whole_micros(duration: Duration) -> u128;

/// An upper bound on the bytes that one slot of the queue's buffer takes.
pub const SLOT_BYTES: usize = 64;

/// A buffer of `capacity` slots can be addressed: its size in bytes is no
/// more than `isize::MAX`, the most that an allocation can have.
pub open spec fn is_addressable(capacity: usize) -> bool {
    capacity * SLOT_BYTES <= isize::MAX
}

/// `ArrayQueue::new`: an empty queue of the given capacity. It panics on a
/// capacity of zero, and on one whose buffer is larger than an allocation
/// can be.
#[verifier::external_body]
fn queue_new(capacity: usize) -> (queue: ArrayQueue<TimeMessage>)
    requires
        0 < capacity,
        is_addressable(capacity),
    ensures
        queued(queue) == Seq::<TimeMessage>::empty(),
        limit(queue) == capacity,
{
    ArrayQueue::new(capacity)
}

/// `ArrayQueue::push`: appends the message unless the queue is full; a full
/// queue is left as it was and hands the message back.
#[verifier::external_body]
fn queue_push(queue: &mut ArrayQueue<TimeMessage>, message: TimeMessage) -> (refused: Option<
    TimeMessage,
>)
    ensures
        limit(*final(queue)) == limit(*old(queue)),
        queued(*old(queue)).len() < limit(*old(queue)) ==> refused is None && queued(*final(queue))
            == queued(*old(queue)).push(message),
        queued(*old(queue)).len() >= limit(*old(queue)) ==> refused == Some(message) && queued(
            *final(queue),
        ) == queued(*old(queue)),
{
    match queue.push(message) {
        Ok(()) => None,
        Err(PushError(message)) => Some(message),
    }
}

/// `ArrayQueue::pop`: removes and returns the oldest message, or returns
/// nothing and changes nothing where the queue is empty.
#[verifier::external_body]
fn queue_pop(queue: &mut ArrayQueue<TimeMessage>) -> (popped: Option<TimeMessage>)
    ensures
        limit(*final(queue)) == limit(*old(queue)),
        queued(*old(queue)).len() == 0 ==> popped is None && queued(*final(queue)) == queued(
            *old(queue),
        ),
        queued(*old(queue)).len() > 0 ==> popped == Some(queued(*old(queue)).first()) && queued(
            *final(queue),
        ) == queued(*old(queue)).drop_first(),
{
    queue.pop().ok()
}

/// `Instant::now`: the current reading of the monotonic clock.
#[verifier::external_body]
fn now() -> Instant {
    Instant::now()
}

/// `Instant::saturating_duration_since`: the time from `earlier` to `later`,
/// zero where `earlier` is the later one. It depends on the two instants
/// alone; the contract gives the result its name and claims no more.
#[verifier::external_body]
fn elapsed_since(later: Instant, earlier: Instant) -> (span: Duration)
    ensures
        span == elapsed(later, earlier),
{
    later.saturating_duration_since(earlier)
}

/// `Duration::as_micros`: the whole microseconds in a duration. It depends
/// on the duration alone; the contract gives the result its name and claims
/// no more.
#[verifier::external_body]
fn micros(duration: Duration) -> (count: u128)
    ensures
        count == whole_micros(duration),
{
    duration.as_micros()
}

/// How long after `baseline` the instant is, in whole microseconds; zero for
/// an instant before it.
pub open spec fn offset_from(baseline: Instant, instant: Instant) -> u128 {
    whole_micros(elapsed(instant, baseline))
}

/// The text of one sample.
pub open spec fn line_text(name: Seq<char>, start: nat, end: nat) -> Seq<char> {
    name + " started="@ + decimal(start) + " ended="@ + decimal(end)
}

impl TimeMessage {
    /// The sample ends no earlier than it starts.
    pub open spec fn is_consistent(self) -> bool {
        self.start <= self.end
    }

    /// `<name> started=<start> ended=<end>`, both times in microseconds.
    pub fn line(&self) -> (text: String)
        ensures
            text@ == line_text(self.name@, self.start as nat, self.end as nat),
    {
        let mut text = String::from_str(self.name);
        text.append(" started=");
        let start = decimal_string(self.start);
        text.append(start.as_str());
        text.append(" ended=");
        let end = decimal_string(self.end);
        text.append(end.as_str());
        text
    }
}

/// What a channel holds after an attempt to append `message`: a channel with
/// room takes it at the end, a full one stays as it is.
pub open spec fn pushed(contents: Seq<TimeMessage>, capacity: nat, message: TimeMessage) -> Seq<
    TimeMessage,
> {
    if contents.len() < capacity {
        contents.push(message)
    } else {
        contents
    }
}

/// What an attempt to append `message` hands back: the message itself from a
/// full channel, nothing from one with room.
pub open spec fn refused(contents: Seq<TimeMessage>, capacity: nat, message: TimeMessage) -> Option<
    TimeMessage,
> {
    if contents.len() < capacity {
        None
    } else {
        Some(message)
    }
}

/// What a channel holds after an attempt to append each of `messages` in turn.
pub open spec fn pushed_all(
    contents: Seq<TimeMessage>,
    capacity: nat,
    messages: Seq<TimeMessage>,
) -> Seq<TimeMessage>
    decreases messages.len(),
{
    if messages.len() == 0 {
        contents
    } else {
        pushed(pushed_all(contents, capacity, messages.drop_last()), capacity, messages.last())
    }
}

/// The texts of the given samples, in their order.
pub open spec fn lines_of(messages: Seq<TimeMessage>) -> Seq<Seq<char>> {
    Seq::new(
        messages.len(),
        |i: int| line_text(messages[i].name@, messages[i].start as nat, messages[i].end as nat),
    )
}

/// The views of the given texts, in their order.
pub open spec fn texts(lines: Seq<String>) -> Seq<Seq<char>> {
    Seq::new(lines.len(), |i: int| lines[i]@)
}

/// A fixed-capacity first-in first-out queue of samples, and the instant it
/// was made at, from which every sample's times are counted.
pub struct TimeMessageChannel {
    queue: ArrayQueue<TimeMessage>,
    start: Instant,
}

impl View for TimeMessageChannel {
    type V = Seq<TimeMessage>;

    closed spec fn view(&self) -> Seq<TimeMessage> {
        queued(self.queue)
    }
}

impl TimeMessageChannel {
    /// The number of messages the channel can hold.
    pub closed spec fn capacity(&self) -> nat {
        limit(self.queue)
    }

    /// The instant from which every sample's times are counted. It is fixed
    /// when the channel is made.
    pub closed spec fn baseline(&self) -> Instant {
        self.start
    }

    /// The channel holds as many messages as it can.
    pub open spec fn is_full(&self) -> bool {
        self@.len() >= self.capacity()
    }

    /// The sample for a run of `name` from `start` to `end`: its times are
    /// counted from the baseline.
    pub open spec fn sample(&self, name: &'static str, start: Instant, end: Instant) -> TimeMessage {
        TimeMessage {
            name,
            start: offset_from(self.baseline(), start),
            end: offset_from(self.baseline(), end),
        }
    }

    /// An empty channel that can hold `capacity` messages and counts time
    /// from `baseline`.
    pub fn with_baseline(capacity: usize, baseline: Instant) -> (channel: TimeMessageChannel)
        requires
            0 < capacity,
            is_addressable(capacity),
        ensures
            channel@ == Seq::<TimeMessage>::empty(),
            channel.capacity() == capacity,
            channel.baseline() == baseline,
    {
        TimeMessageChannel { queue: queue_new(capacity), start: baseline }
    }

    /// An empty channel that can hold `capacity` messages and counts time
    /// from the present instant.
    pub fn new(capacity: usize) -> (channel: TimeMessageChannel)
        requires
            0 < capacity,
            is_addressable(capacity),
        ensures
            channel@ == Seq::<TimeMessage>::empty(),
            channel.capacity() == capacity,
    {
        Self::with_baseline(capacity, now())
    }

    /// Appends a sample with the given times, unless the channel is full: then
    /// the channel is unchanged and the sample comes back.
    pub fn try_push_offsets(&mut self, name: &'static str, start: u128, end: u128) -> (back:
        Option<TimeMessage>)
        ensures
            final(self).capacity() == old(self).capacity(),
            final(self).baseline() == old(self).baseline(),
            final(self)@ == pushed(
                old(self)@,
                old(self).capacity(),
                TimeMessage { name, start, end },
            ),
            back == refused(old(self)@, old(self).capacity(), TimeMessage { name, start, end }),
    {
        queue_push(&mut self.queue, TimeMessage { name, start, end })
    }

    /// Appends a sample with the given times to a channel that has room.
    pub fn push_offsets(&mut self, name: &'static str, start: u128, end: u128)
        requires
            !old(self).is_full(),
        ensures
            final(self).capacity() == old(self).capacity(),
            final(self).baseline() == old(self).baseline(),
            final(self)@ == old(self)@.push(TimeMessage { name, start, end }),
    {
        let _ = self.try_push_offsets(name, start, end);
    }

    /// Appends the sample for a run of `name` from `start` to `end`, unless
    /// the channel is full: then the channel is unchanged and the sample comes
    /// back.
    pub fn try_push_message(&mut self, name: &'static str, start: Instant, end: Instant) -> (back:
        Option<TimeMessage>)
        ensures
            final(self).capacity() == old(self).capacity(),
            final(self).baseline() == old(self).baseline(),
            final(self)@ == pushed(
                old(self)@,
                old(self).capacity(),
                old(self).sample(name, start, end),
            ),
            back == refused(old(self)@, old(self).capacity(), old(self).sample(name, start, end)),
    {
        let start_offset = micros(elapsed_since(start, self.start));
        let end_offset = micros(elapsed_since(end, self.start));
        self.try_push_offsets(name, start_offset, end_offset)
    }

    /// Appends the sample for a run of `name` from `start` to `end` to a
    /// channel that has room.
    pub fn push_message(&mut self, name: &'static str, start: Instant, end: Instant)
        requires
            !old(self).is_full(),
        ensures
            final(self).capacity() == old(self).capacity(),
            final(self).baseline() == old(self).baseline(),
            final(self)@ == old(self)@.push(old(self).sample(name, start, end)),
    {
        let _ = self.try_push_message(name, start, end);
    }

    /// Removes and returns the oldest sample, if there is one.
    pub fn pop(&mut self) -> (message: Option<TimeMessage>)
        ensures
            final(self).capacity() == old(self).capacity(),
            final(self).baseline() == old(self).baseline(),
            message == oldest(old(self)@),
            final(self)@ == after_pop(old(self)@),
    {
        queue_pop(&mut self.queue)
    }

    /// Removes every sample and returns them, oldest first.
    pub fn drain(&mut self) -> (drained: Vec<TimeMessage>)
        ensures
            final(self).capacity() == old(self).capacity(),
            final(self).baseline() == old(self).baseline(),
            final(self)@.len() == 0,
            drained@ == old(self)@,
    {
        let mut drained: Vec<TimeMessage> = Vec::new();
        loop
            invariant
                self.capacity() == old(self).capacity(),
                self.baseline() == old(self).baseline(),
                drained@ + self@ == old(self)@,
            ensures
                self@.len() == 0,
            decreases self@.len(),
        {
            let ghost before = self@;
            match self.pop() {
                None => {
                    break ;
                },
                Some(message) => {
                    drained.push(message);
                    assert(drained@ + self@ =~= drained@.drop_last() + before);
                },
            }
        }
        assert(drained@ =~= drained@ + self@);
        drained
    }
}

/// Times one system: it carries the system and the name its samples bear.
pub struct TimeMetricsWrapperSystem<T> {
    pub inner: T,
    pub name: &'static str,
}

impl<T> TimeMetricsWrapperSystem<T> {
    pub fn new(inner: T, name: &'static str) -> (system: Self)
        ensures
            system.inner == inner,
            system.name == name,
    {
        Self { inner, name }
    }

    /// Reports one run of the inner system, from `start` to `end`, to a
    /// channel that has room.
    pub fn run(&self, channel: &mut TimeMessageChannel, start: Instant, end: Instant)
        requires
            !old(channel).is_full(),
        ensures
            final(channel).capacity() == old(channel).capacity(),
            final(channel).baseline() == old(channel).baseline(),
            final(channel)@ == old(channel)@.push(old(channel).sample(self.name, start, end)),
    {
        channel.push_message(self.name, start, end);
    }

    /// Reports one run of the inner system, from `start` to `end`, unless the
    /// channel is full: then the channel is unchanged and the sample comes
    /// back.
    pub fn try_run(&self, channel: &mut TimeMessageChannel, start: Instant, end: Instant) -> (back:
        Option<TimeMessage>)
        ensures
            final(channel).capacity() == old(channel).capacity(),
            final(channel).baseline() == old(channel).baseline(),
            final(channel)@ == pushed(
                old(channel)@,
                old(channel).capacity(),
                old(channel).sample(self.name, start, end),
            ),
            back == refused(
                old(channel)@,
                old(channel).capacity(),
                old(channel).sample(self.name, start, end),
            ),
    {
        channel.try_push_message(self.name, start, end)
    }
}

/// Empties the channel once per tick; it carries the sink the lines are meant
/// for.
pub struct TimeMetricsWriterSystem<T> {
    pub writer: T,
}

impl<T> TimeMetricsWriterSystem<T> {
    pub fn new(writer: T) -> (system: Self)
        ensures
            system.writer == writer,
    {
        Self { writer }
    }

    /// Empties the channel and returns one line of text for each sample it
    /// held, oldest first, for the owner of the sink to write.
    pub fn run(&self, channel: &mut TimeMessageChannel) -> (lines: Vec<String>)
        ensures
            final(channel).capacity() == old(channel).capacity(),
            final(channel).baseline() == old(channel).baseline(),
            final(channel)@.len() == 0,
            texts(lines@) == lines_of(old(channel)@),
    {
        let drained = channel.drain();
        let mut lines: Vec<String> = Vec::new();
        let mut i: usize = 0;
        while i < drained.len()
            invariant
                i <= drained.len(),
                lines@.len() == i,
                forall|k: int|
                    0 <= k < i ==> (#[trigger] lines@[k])@ == line_text(
                        drained@[k].name@,
                        drained@[k].start as nat,
                        drained@[k].end as nat,
                    ),
            decreases drained.len() - i,
        {
            lines.push(drained[i].line());
            i += 1;
        }
        assert(texts(lines@) =~= lines_of(drained@));
        lines
    }
}

/// The oldest message of a channel, if it holds any: what a pop returns.
pub open spec fn oldest(contents: Seq<TimeMessage>) -> Option<TimeMessage> {
    if contents.len() > 0 {
        Some(contents.first())
    } else {
        None
    }
}

/// What a channel holds after a pop: all but the oldest message.
pub open spec fn after_pop(contents: Seq<TimeMessage>) -> Seq<TimeMessage> {
    if contents.len() > 0 {
        contents.drop_first()
    } else {
        contents
    }
}

/// What a channel holds after `n` pops.
pub open spec fn popped(contents: Seq<TimeMessage>, n: nat) -> Seq<TimeMessage>
    decreases n,
{
    if n == 0 {
        contents
    } else {
        after_pop(popped(contents, (n - 1) as nat))
    }
}

/// An empty channel of capacity `messages.len()` takes every one of the
/// messages: none comes back, and the channel then holds them in the order
/// in which they came. It is then full: one more comes back, is not
/// enqueued, and leaves the messages as they were.
pub proof fn law_capacity_is_exact(messages: Seq<TimeMessage>, extra: TimeMessage)
    ensures
        forall|k: int|
            0 <= k < messages.len() ==> refused(
                #[trigger] pushed_all(Seq::empty(), messages.len(), messages.take(k)),
                messages.len(),
                messages[k],
            ) is None,
        pushed_all(Seq::empty(), messages.len(), messages) == messages,
        refused(messages, messages.len(), extra) == Some(extra),
        pushed(messages, messages.len(), extra) == messages,
{
    lemma_pushed_all_with_room(Seq::empty(), messages.len(), messages);
    assert forall|k: int| 0 <= k < messages.len() implies refused(
        #[trigger] pushed_all(Seq::empty(), messages.len(), messages.take(k)),
        messages.len(),
        messages[k],
    ) is None by {
        lemma_pushed_all_with_room(Seq::empty(), messages.len(), messages.take(k));
    }
}

/// A full channel, and only a full one, refuses a message: the message comes
/// back and the channel holds what it held. A push that must not fail is
/// therefore owed only to a channel that is not full.
pub proof fn law_full_channel_refuses(channel: TimeMessageChannel, message: TimeMessage)
    ensures
        channel.is_full() <==> refused(channel@, channel.capacity(), message) == Some(message),
        channel.is_full() ==> pushed(channel@, channel.capacity(), message) == channel@,
        !channel.is_full() ==> pushed(channel@, channel.capacity(), message) == channel@.push(
            message,
        ),
{
}

/// Whatever was appended to an empty channel with room for it is what the
/// channel then holds: nothing is lost, repeated or reordered, and a sample
/// that ended no earlier than it started still does.
pub proof fn law_channel_keeps_messages(capacity: nat, messages: Seq<TimeMessage>)
    requires
        messages.len() <= capacity,
    ensures
        pushed_all(Seq::empty(), capacity, messages) == messages,
        forall|i: int|
            0 <= i < messages.len() && messages[i].is_consistent() ==> (#[trigger] pushed_all(
                Seq::empty(),
                capacity,
                messages,
            )[i]).is_consistent(),
{
    lemma_pushed_all_with_room(Seq::empty(), capacity, messages);
}

/// Popping gives the messages of a channel one by one, oldest first, each
/// once: the pop after `k` others returns message `k`, and after as many pops
/// as there were messages the channel is empty and a pop returns nothing.
pub proof fn law_pops_give_each_message_once(contents: Seq<TimeMessage>)
    ensures
        forall|k: nat|
            k < contents.len() ==> oldest(#[trigger] popped(contents, k)) == Some(
                contents[k as int],
            ),
        popped(contents, contents.len()).len() == 0,
        oldest(popped(contents, contents.len())) is None,
{
    assert forall|k: nat| k <= contents.len() implies #[trigger] popped(contents, k)
        == contents.skip(k as int) by {
        lemma_popped_is_skip(contents, k);
    }
}

proof fn lemma_popped_is_skip(contents: Seq<TimeMessage>, n: nat)
    requires
        n <= contents.len(),
    ensures
        popped(contents, n) == contents.skip(n as int),
    decreases n,
{
    if n == 0 {
        assert(contents.skip(0) =~= contents);
    } else {
        lemma_popped_is_skip(contents, (n - 1) as nat);
        assert(contents.skip(n - 1).drop_first() =~= contents.skip(n as int));
    }
}

proof fn lemma_pushed_all_with_room(
    contents: Seq<TimeMessage>,
    capacity: nat,
    messages: Seq<TimeMessage>,
)
    requires
        contents.len() + messages.len() <= capacity,
    ensures
        pushed_all(contents, capacity, messages) == contents + messages,
    decreases messages.len(),
{
    if messages.len() == 0 {
        assert(contents + messages =~= contents);
    } else {
        lemma_pushed_all_with_room(contents, capacity, messages.drop_last());
        assert((contents + messages.drop_last()).push(messages.last()) =~= contents + messages);
    }
}

} // verus!

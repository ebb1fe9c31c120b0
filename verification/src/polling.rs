//! The back-off of the dedicated server's message-queue poller.
//!
//! The poller asks the queue for up to [`MAX_MESSAGES_PER_POLL`] messages,
//! delivers them, and sleeps. Repeated empty polls stretch the sleep
//! (multiplying it by [`POLLING_FACTOR`]); repeated full polls shrink it.
//! This module holds the poller's state and its transition on each poll;
//! the queue calls, the emission and the sleeping are the caller's.

use vstd::prelude::*;
use crate::text::join_with_underscore;
use crate::websocket::structs::{Message, PollingCounters};

verus! {

/// How many messages one poll asks for.
pub const MAX_MESSAGES_PER_POLL: usize = 5;

/// The factor by which the sleep stretches or shrinks.
pub const POLLING_FACTOR: i32 = 3;

/// The sleep, in seconds, at start and after every reset.
pub const SLEEP_DURATION_AT_START: u64 = 5;

/// The longest sleep, in seconds, kept after a delivering poll.
pub const MAX_SLEEP_DURATION: u64 = 3599;

/// What to do after a poll: whether to deliver (and delete) the received
/// messages, and how many seconds to sleep before the next poll.
#[derive(Debug)]
pub struct PollDecision {
    pub deliver: bool,
    pub sleep_secs: u64,
}

/// The poller's state after a poll that received `n` messages, from the
/// counters and sleep `(null, full, sleep)`, with the decision:
/// `(null', full', sleep', deliver, sleep_secs)`.
pub open spec fn poll_next(null: int, full: int, sleep: int, n: int) -> (int, int, int, bool, int) {
    let (null1, full1, sleep1) = if n == 0 {
        (null + 1, full, sleep)
    } else if n == 5 {
        (null, full + 1, 5)
    } else if n < 5 {
        (0, 0, sleep)
    } else {
        (null, full, sleep)
    };
    if null1 > 3 {
        (0, full1, sleep1 * 3, false, sleep1 * 3)
    } else {
        let (full2, sleep2) = if full1 > 3 { (0, sleep1 / 3) } else { (full1, sleep1) };
        let sleep3 = if sleep2 > 3599 { 5 } else { sleep2 };
        (null1, full2, sleep3, true, sleep3)
    }
}

/// The bounds every reachable state keeps: small counters; a sleep of at
/// least a second, of at most an hour once an empty poll has been counted (a
/// delivering poll caps it), and at most three hours right after a
/// stretching poll; a full-poll count above the factor only at start.
pub open spec fn poll_wf(null: int, full: int, sleep: int) -> bool {
    &&& 0 <= null <= 3
    &&& 0 <= full <= 5
    &&& 1 <= sleep <= 3 * 3599
    &&& null > 0 ==> sleep <= 3599
    &&& full > 3 ==> null == 0 && sleep == 5
}

/// The state of the poller.
pub struct PollState {
    counters: PollingCounters,
    sleep_duration: u64,
}

impl PollState {
    /// Consecutive empty polls counted.
    pub closed spec fn nulls(&self) -> int {
        self.counters.null_counter as int
    }

    /// Consecutive full polls counted.
    pub closed spec fn fulls(&self) -> int {
        self.counters.full_counter as int
    }

    /// The current sleep, in seconds.
    pub closed spec fn sleep(&self) -> int {
        self.sleep_duration as int
    }

    /// The poller's invariant.
    pub open spec fn wf(&self) -> bool {
        poll_wf(self.nulls(), self.fulls(), self.sleep())
    }

    /// The state at start: no empty polls, five full polls, the start sleep.
    pub fn new() -> (r: Self)
        ensures
            r.wf(),
            r.nulls() == 0,
            r.fulls() == 5,
            r.sleep() == 5,
    {
        PollState {
            counters: PollingCounters { null_counter: 0, full_counter: 5 },
            sleep_duration: SLEEP_DURATION_AT_START,
        }
    }

    /// Advances the poller after a poll that returned `received` messages.
    pub fn poll_step(&mut self, received: usize) -> (r: PollDecision)
        requires
            old(self).wf(),
        ensures
            final(self).wf(),
            ({
                let t = poll_next(old(self).nulls(), old(self).fulls(), old(self).sleep(), received as int);
                &&& final(self).nulls() == t.0
                &&& final(self).fulls() == t.1
                &&& final(self).sleep() == t.2
                &&& r.deliver == t.3
                &&& r.sleep_secs == t.4
            }),
            r.sleep_secs == final(self).sleep(),
            received == MAX_MESSAGES_PER_POLL ==> r.deliver && final(self).nulls() == old(self).nulls()
                && (old(self).fulls() + 1 > POLLING_FACTOR ==> final(self).fulls() == 0
                    && r.sleep_secs == SLEEP_DURATION_AT_START / 3)
                && (old(self).fulls() + 1 <= POLLING_FACTOR ==> final(self).fulls() == old(self).fulls() + 1
                    && r.sleep_secs == SLEEP_DURATION_AT_START),
            received == 0 && old(self).nulls() == POLLING_FACTOR ==> !r.deliver && final(self).nulls() == 0
                && final(self).fulls() == old(self).fulls() && r.sleep_secs == old(self).sleep() * 3,
            received == 0 && old(self).nulls() < POLLING_FACTOR ==> r.deliver
                && final(self).nulls() == old(self).nulls() + 1,
            0 < received < MAX_MESSAGES_PER_POLL ==> r.deliver && final(self).nulls() == 0
                && final(self).fulls() == 0
                && r.sleep_secs == (if old(self).sleep() > MAX_SLEEP_DURATION { SLEEP_DURATION_AT_START as int } else { old(self).sleep() }),
    {
        proof {
            lemma_full_poll(self.nulls(), self.fulls(), self.sleep());
            lemma_empty_poll(self.nulls(), self.fulls(), self.sleep());
            if 0 < received < 5 {
                lemma_partial_poll(self.nulls(), self.fulls(), self.sleep(), received as int);
            }
        }
        if received == 0 {
            self.counters.incre_null_counter();
        } else if received == MAX_MESSAGES_PER_POLL {
            self.counters.incre_full_counter();
            self.sleep_duration = SLEEP_DURATION_AT_START;
        } else if received > 0 && received < MAX_MESSAGES_PER_POLL {
            self.counters.reset();
        }
        if self.counters.null_counter > POLLING_FACTOR {
            self.sleep_duration = self.sleep_duration * 3;
            self.counters.reset_null_counter();
            return PollDecision { deliver: false, sleep_secs: self.sleep_duration };
        }
        if self.counters.full_counter > POLLING_FACTOR {
            self.sleep_duration = self.sleep_duration / 3;
            self.counters.reset_full_counter();
        }
        if self.sleep_duration > MAX_SLEEP_DURATION {
            self.sleep_duration = SLEEP_DURATION_AT_START;
        }
        PollDecision { deliver: true, sleep_secs: self.sleep_duration }
    }

    /// Consecutive empty polls counted.
    pub fn null_counter(&self) -> (r: i32)
        ensures
            r == self.nulls(),
    {
        self.counters.null_counter
    }

    /// Consecutive full polls counted.
    pub fn full_counter(&self) -> (r: i32)
        ensures
            r == self.fulls(),
    {
        self.counters.full_counter
    }

    /// The current sleep, in seconds.
    pub fn sleep_duration(&self) -> (r: u64)
        ensures
            r == self.sleep(),
    {
        self.sleep_duration
    }
}

/// The room a queued message goes to: `<key>_<group_id>`.
pub fn queue_message_room(message: &Message) -> (r: String)
    ensures
        r@ == message.key@ + seq!['_'] + message.group_id@,
{
    join_with_underscore(message.key.as_str(), message.group_id.as_str())
}

/// Bounds of the back-off: every poll keeps the state's bounds; every poll
/// sleeps at least a second and at most three hours; a delivering poll
/// sleeps as long as the new state says and at most an hour; the only poll
/// that does not deliver is a fourth consecutive empty one, which stretches
/// the sleep by the polling factor.
pub proof fn lemma_poll_bounds(null: int, full: int, sleep: int, n: int)
    requires
        poll_wf(null, full, sleep),
        0 <= n,
    ensures
        ({
            let t = poll_next(null, full, sleep, n);
            &&& poll_wf(t.0, t.1, t.2)
            &&& t.4 == t.2
            &&& 1 <= t.4 <= 3 * 3599
            &&& t.3 ==> 1 <= t.4 <= 3599
            &&& !t.3 <==> (n == 0 && null == 3)
            &&& !t.3 ==> t.4 == sleep * 3
        }),
{
}

/// The state (empty polls, full polls, sleep) after polls that returned
/// `batches` messages, in turn, from the state at start.
pub open spec fn poll_run(batches: Seq<int>) -> (int, int, int)
    decreases batches.len(),
{
    if batches.len() == 0 {
        (0, 5, 5)
    } else {
        let s = poll_run(batches.drop_last());
        let t = poll_next(s.0, s.1, s.2, batches.last());
        (t.0, t.1, t.2)
    }
}

/// Over any sequence of polls from the state at start, every state keeps the
/// poller's bounds, and the last poll sleeps at least a second and at most
/// three hours (at most an hour when it delivers).
pub proof fn lemma_every_sleep_bounded(batches: Seq<int>)
    requires
        forall|i: int| 0 <= i < batches.len() ==> 0 <= #[trigger] batches[i],
    ensures
        ({
            let s = poll_run(batches);
            poll_wf(s.0, s.1, s.2)
        }),
        batches.len() > 0 ==> ({
            let s = poll_run(batches.drop_last());
            let t = poll_next(s.0, s.1, s.2, batches.last());
            &&& 1 <= t.4 <= 3 * 3599
            &&& t.3 ==> t.4 <= 3599
        }),
    decreases batches.len(),
{
    if batches.len() > 0 {
        let prefix = batches.drop_last();
        assert forall|i: int| 0 <= i < prefix.len() implies 0 <= #[trigger] prefix[i] by {
            assert(prefix[i] == batches[i]);
        }
        lemma_every_sleep_bounded(prefix);
        let s = poll_run(prefix);
        assert(0 <= batches[batches.len() - 1]);
        lemma_poll_bounds(s.0, s.1, s.2, batches.last());
    }
}

/// A full poll (the most messages a poll asks for) always delivers and
/// leaves the empty-poll count alone. It restarts the sleep at the start
/// value and counts one more full poll; when that count passes the polling
/// factor, the count goes back to zero and the sleep is the start value
/// divided by the factor, one second.
pub proof fn lemma_full_poll(null: int, full: int, sleep: int)
    requires
        poll_wf(null, full, sleep),
    ensures
        ({
            let t = poll_next(null, full, sleep, 5);
            &&& t.3
            &&& t.0 == null
            &&& t.4 == t.2
            &&& full + 1 > 3 ==> t.1 == 0 && t.4 == 5int / 3 && t.4 == 1
            &&& full + 1 <= 3 ==> t.1 == full + 1 && t.4 == 5
        }),
{
}

/// An empty poll counts one more empty poll. The fourth in a row does not
/// deliver: it triples the sleep and zeroes the empty count, keeping the
/// full count. Any other empty poll delivers and keeps the sleep (a sleep
/// over an hour goes back to the start value; the start state's full count
/// shrinks it to a second).
pub proof fn lemma_empty_poll(null: int, full: int, sleep: int)
    requires
        poll_wf(null, full, sleep),
    ensures
        ({
            let t = poll_next(null, full, sleep, 0);
            &&& t.4 == t.2
            &&& null == 3 ==> !t.3 && t.0 == 0 && t.1 == full && t.4 == sleep * 3
            &&& null < 3 ==> t.3 && t.0 == null + 1
            &&& null < 3 && full > 3 ==> t.1 == 0 && t.4 == 1
            &&& null < 3 && full <= 3 ==> t.1 == full && t.4 == (if sleep > 3599 { 5 } else { sleep })
        }),
{
}

/// A partial poll (some messages, fewer than the most asked for) delivers,
/// zeroes both counters and keeps the sleep (a sleep over an hour goes back
/// to the start value).
pub proof fn lemma_partial_poll(null: int, full: int, sleep: int, n: int)
    requires
        poll_wf(null, full, sleep),
        0 < n < 5,
    ensures
        ({
            let t = poll_next(null, full, sleep, n);
            &&& t.3
            &&& t.0 == 0
            &&& t.1 == 0
            &&& t.4 == t.2
            &&& t.4 == (if sleep > 3599 { 5 } else { sleep })
        }),
{
}

} // verus!

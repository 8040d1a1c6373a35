use vstd::prelude::*;

verus! {

/// A bounded token store: at most `capacity` tokens, refilled at `rate`
/// tokens per elapsed time unit. Acquiring never fails outright: a caller
/// that finds the store empty waits for the next refill.
pub struct Throttle {
    capacity: u64,
    rate: u64,
    tokens: u64,
}

/// One thing that happens to a throttle: time passes, or a user acquires.
pub enum ThrottleEvent {
    Elapse(u64),
    Acquire,
}

/// Tokens held after `elapsed` time units, starting from `tokens`.
pub open spec fn refilled(tokens: nat, capacity: nat, rate: nat, elapsed: nat) -> nat {
    if tokens + rate * elapsed <= capacity {
        tokens + rate * elapsed
    } else {
        capacity
    }
}

/// Replays `events` from a store holding `tokens`: the tokens left and the
/// number of acquisitions that succeeded.
pub open spec fn replay(tokens: nat, capacity: nat, rate: nat, events: Seq<ThrottleEvent>) -> (nat, nat)
    decreases events.len(),
{
    if events.len() == 0 {
        (tokens, 0)
    } else {
        let (t, n) = replay(tokens, capacity, rate, events.drop_last());
        match events.last() {
            ThrottleEvent::Elapse(d) => (refilled(t, capacity, rate, d as nat), n),
            ThrottleEvent::Acquire => if t > 0 {
                ((t - 1) as nat, n + 1)
            } else {
                (t, n)
            },
        }
    }
}

/// Total time that passes over `events`.
pub open spec fn elapsed_over(events: Seq<ThrottleEvent>) -> nat
    decreases events.len(),
{
    if events.len() == 0 {
        0
    } else {
        elapsed_over(events.drop_last()) + match events.last() {
            ThrottleEvent::Elapse(d) => d as nat,
            ThrottleEvent::Acquire => 0nat,
        }
    }
}

proof fn lemma_replay_conserves(tokens: nat, capacity: nat, rate: nat, events: Seq<ThrottleEvent>)
    requires
        tokens <= capacity,
    ensures
        replay(tokens, capacity, rate, events).0 <= capacity,
        replay(tokens, capacity, rate, events).0 + replay(tokens, capacity, rate, events).1
            <= tokens + rate * elapsed_over(events),
    decreases events.len(),
{
    if events.len() > 0 {
        let prefix = events.drop_last();
        lemma_replay_conserves(tokens, capacity, rate, prefix);
        match events.last() {
            ThrottleEvent::Elapse(d) => {
                assert(rate * (elapsed_over(prefix) + d as nat) == rate * elapsed_over(prefix) + rate
                    * (d as nat)) by (nonlinear_arith);
            },
            ThrottleEvent::Acquire => {},
        }
    }
}

/// Bounded rate: over any run of events that lasts `elapsed_over(events)`
/// time units, a throttle of capacity C and rate R grants at most
/// C + R * elapsed acquisitions, whatever it held when the window opened.
pub proof fn lemma_acquisitions_bounded(tokens: nat, capacity: nat, rate: nat, events: Seq<ThrottleEvent>)
    requires
        tokens <= capacity,
    ensures
        replay(tokens, capacity, rate, events).1 <= capacity + rate * elapsed_over(events),
{
    lemma_replay_conserves(tokens, capacity, rate, events);
}

impl Throttle {
    pub closed spec fn spec_capacity(&self) -> nat {
        self.capacity as nat
    }

    pub closed spec fn spec_rate(&self) -> nat {
        self.rate as nat
    }

    pub closed spec fn spec_tokens(&self) -> nat {
        self.tokens as nat
    }

    pub closed spec fn inv(&self) -> bool {
        self.tokens <= self.capacity
    }

    /// A full store of `capacity` tokens, refilled at `rate` per time unit.
    pub fn new(capacity: u64, rate: u64) -> (r: Throttle)
        ensures
            r.inv(),
            r.spec_capacity() == capacity,
            r.spec_rate() == rate,
            r.spec_tokens() == capacity,
    {
        Throttle { capacity, rate, tokens: capacity }
    }

    pub fn capacity(&self) -> (r: u64)
        ensures
            r == self.spec_capacity(),
    {
        self.capacity
    }

    pub fn rate(&self) -> (r: u64)
        ensures
            r == self.spec_rate(),
    {
        self.rate
    }

    pub fn tokens(&self) -> (r: u64)
        ensures
            r == self.spec_tokens(),
    {
        self.tokens
    }

    /// Adds the tokens earned over `elapsed` time units, up to capacity.
    pub fn elapse(&mut self, elapsed: u64)
        requires
            old(self).inv(),
        ensures
            final(self).inv(),
            final(self).spec_capacity() == old(self).spec_capacity(),
            final(self).spec_rate() == old(self).spec_rate(),
            final(self).spec_tokens() == refilled(
                old(self).spec_tokens(),
                old(self).spec_capacity(),
                old(self).spec_rate(),
                elapsed as nat,
            ),
    {
        let room: u64 = self.capacity - self.tokens;
        let earned: Option<u64> = self.rate.checked_mul(elapsed);
        match earned {
            Some(e) if e <= room => {
                self.tokens = self.tokens + e;
            },
            _ => {
                assert(self.rate as nat * elapsed as nat > room as nat);
                self.tokens = self.capacity;
            },
        }
    }

    /// Takes one token if there is one. `false` means: wait for a refill.
    pub fn try_acquire(&mut self) -> (granted: bool)
        requires
            old(self).inv(),
        ensures
            final(self).inv(),
            final(self).spec_capacity() == old(self).spec_capacity(),
            final(self).spec_rate() == old(self).spec_rate(),
            granted == (old(self).spec_tokens() > 0),
            final(self).spec_tokens() == if granted {
                (old(self).spec_tokens() - 1) as nat
            } else {
                old(self).spec_tokens()
            },
    {
        if self.tokens > 0 {
            self.tokens = self.tokens - 1;
            true
        } else {
            false
        }
    }
}

/// Acquisition through an optional throttle: with none configured every
/// request goes ahead and nothing changes.
pub fn acquire(throttle: &mut Option<Throttle>) -> (granted: bool)
    requires
        *old(throttle) matches Some(t) ==> t.inv(),
    ensures
        *old(throttle) is None ==> granted && *final(throttle) is None,
        *old(throttle) matches Some(t) ==> *final(throttle) matches Some(u) && u.inv() && u.spec_capacity()
            == t.spec_capacity() && u.spec_rate() == t.spec_rate() && granted == (t.spec_tokens() > 0)
            && u.spec_tokens() == if granted {
            (t.spec_tokens() - 1) as nat
        } else {
            t.spec_tokens()
        },
{
    match throttle {
        None => true,
        Some(t) => t.try_acquire(),
    }
}

} // verus!

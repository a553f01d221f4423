use vstd::prelude::*;
use crate::delivery::Delivery;

verus! {

/// The delay, in milliseconds, before a failed message is sent again.
pub const RETRY_DELAY_MS: u64 = 3500;

/// The pause, in milliseconds, between two polling cycles.
pub const POLL_INTERVAL_MS: u64 = 120000;

/// How failed sends are retried: after a fixed delay, either without end or
/// up to a number of attempts per message.
#[derive(Debug, Clone, Copy, PartialEq, Eq, Structural)]
pub struct RetryPolicy {
    pub delay_ms: u64,
    pub max_attempts: Option<u64>,
}

impl RetryPolicy {
    /// The fixed delay between retries, with no bound on their number.
    pub fn unbounded() -> (r: RetryPolicy)
        ensures
            r.delay_ms == RETRY_DELAY_MS,
            r.max_attempts is None,
    {
        RetryPolicy { delay_ms: RETRY_DELAY_MS, max_attempts: None }
    }

    /// Whether a message that has failed `failures` times may be tried again.
    pub open spec fn allows(self, failures: int) -> bool {
        match self.max_attempts {
            None => true,
            Some(m) => failures < m,
        }
    }
}

/// How one attempt to send a message ended.
#[derive(Debug, Clone, Copy, PartialEq, Eq, Structural)]
pub enum SendOutcome {
    Delivered,
    /// The destination is unreachable for now; the same message may go through later.
    Transient,
    /// The destination is gone or refuses the messages for good.
    Fatal,
}

/// What the caller does next.
#[derive(Debug, Clone, Copy, PartialEq, Eq, Structural)]
pub enum DispatchStep {
    /// Send the message at this position of the plan.
    Send(usize),
    /// Wait this many milliseconds, then ask for the current step again.
    Wait(u64),
    /// Every message of the plan has been dealt with.
    Finished,
}

/// Walks a delivery plan one message at a time: a message is sent only once
/// the one before it went through or was given up on, so each destination
/// gets its messages in order and the next destination waits for it.
pub struct Dispatcher {
    pub channels: Vec<i64>,
    pub next: usize,
    pub failures: u64,
    pub policy: RetryPolicy,
}

/// The end of the run of messages for the channel at `from`: the first later
/// position whose channel differs, or the end of the plan.
pub open spec fn run_end(channels: Seq<i64>, from: int) -> int
    decreases channels.len() - from,
{
    if from + 1 >= channels.len() || channels[from + 1] != channels[from] {
        from + 1
    } else {
        run_end(channels, from + 1)
    }
}

pub open spec fn step_at(channels: Seq<i64>, next: int) -> DispatchStep {
    if next < channels.len() {
        DispatchStep::Send(next as usize)
    } else {
        DispatchStep::Finished
    }
}

proof fn lemma_run_end_bounds(channels: Seq<i64>, from: int)
    requires
        0 <= from < channels.len(),
    ensures
        from < run_end(channels, from) <= channels.len(),
    decreases channels.len() - from,
{
    if !(from + 1 >= channels.len() || channels[from + 1] != channels[from]) {
        lemma_run_end_bounds(channels, from + 1);
    }
}

impl Dispatcher {
    pub open spec fn wf(&self) -> bool {
        self.next <= self.channels@.len()
    }

    /// A dispatcher at the start of a plan.
    pub fn new(plan: &Vec<Delivery>, policy: RetryPolicy) -> (r: Dispatcher)
        ensures
            r.wf(),
            r.channels@.len() == plan@.len(),
            forall|k: int| 0 <= k < plan@.len() ==> r.channels@[k] == #[trigger] plan@[k].channel,
            r.next == 0,
            r.failures == 0,
            r.policy == policy,
    {
        let mut channels: Vec<i64> = Vec::new();
        let mut i: usize = 0;
        while i < plan.len()
            invariant
                i <= plan@.len(),
                channels@.len() == i,
                forall|k: int| 0 <= k < i ==> channels@[k] == #[trigger] plan@[k].channel,
            decreases plan@.len() - i,
        {
            channels.push(plan[i].channel);
            i = i + 1;
        }
        Dispatcher { channels, next: 0, failures: 0, policy }
    }

    /// The step to take now: send the current message, or stop.
    pub fn current(&self) -> (r: DispatchStep)
        requires
            self.wf(),
        ensures
            r == step_at(self.channels@, self.next as int),
    {
        if self.next < self.channels.len() {
            DispatchStep::Send(self.next)
        } else {
            DispatchStep::Finished
        }
    }

    /// Moves past the rest of the current destination's messages.
    fn give_up(&mut self)
        requires
            old(self).wf(),
            old(self).next < old(self).channels@.len(),
        ensures
            final(self).wf(),
            final(self).channels == old(self).channels,
            final(self).policy == old(self).policy,
            final(self).next == run_end(old(self).channels@, old(self).next as int),
            final(self).failures == 0,
    {
        let n = self.channels.len();
        let from = self.next;
        let channel = self.channels[from];
        let mut k: usize = from + 1;
        while k < n && self.channels[k] == channel
            invariant
                n == self.channels@.len(),
                from < k <= n,
                channel == self.channels@[from as int],
                self.channels@[k - 1] == channel,
                run_end(self.channels@, from as int) == run_end(self.channels@, k - 1),
            decreases n - k,
        {
            k = k + 1;
        }
        self.next = k;
        self.failures = 0;
    }

    /// Records how the attempt at the current message ended and says what to
    /// do next. A delivered message moves on to the next one. A transient
    /// failure, while the policy allows, waits and keeps the same message; the
    /// one after it is not tried before it has gone through. A fatal failure,
    /// or a transient one past the policy's bound, gives up on the rest of
    /// that destination's messages for this plan.
    pub fn record(&mut self, outcome: SendOutcome) -> (r: DispatchStep)
        requires
            old(self).wf(),
            old(self).next < old(self).channels@.len(),
        ensures
            final(self).wf(),
            final(self).channels == old(self).channels,
            final(self).policy == old(self).policy,
            outcome == SendOutcome::Delivered ==> final(self).next == old(self).next + 1
                && final(self).failures == 0
                && r == step_at(final(self).channels@, final(self).next as int),
            outcome == SendOutcome::Transient && old(self).policy.allows(old(self).failures + 1)
                && old(self).failures < u64::MAX ==> final(self).next == old(self).next
                && final(self).failures == old(self).failures + 1
                && r == DispatchStep::Wait(old(self).policy.delay_ms),
            outcome == SendOutcome::Transient && old(self).failures == u64::MAX
                && old(self).policy.max_attempts is None
                ==> final(self).next == old(self).next && final(self).failures == u64::MAX
                && r == DispatchStep::Wait(old(self).policy.delay_ms),
            (outcome == SendOutcome::Fatal || (outcome == SendOutcome::Transient
                && !old(self).policy.allows(old(self).failures + 1)))
                ==> final(self).next == run_end(old(self).channels@, old(self).next as int)
                && final(self).failures == 0
                && r == step_at(final(self).channels@, final(self).next as int),
    {
        proof {
            lemma_run_end_bounds(self.channels@, self.next as int);
        }
        match outcome {
            SendOutcome::Delivered => {
                let n = self.channels.len();
                assert(self.next < n);
                self.next = self.next + 1;
                self.failures = 0;
                self.current()
            },
            SendOutcome::Transient => {
                let retry = match self.policy.max_attempts {
                    None => true,
                    Some(m) => (self.failures as u128) + 1 < m as u128,
                };
                if retry {
                    if self.failures < u64::MAX {
                        self.failures = self.failures + 1;
                    }
                    DispatchStep::Wait(self.policy.delay_ms)
                } else {
                    self.give_up();
                    self.current()
                }
            },
            SendOutcome::Fatal => {
                self.give_up();
                self.current()
            },
        }
    }
}

} // verus!

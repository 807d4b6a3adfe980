//! The downstream notification channel, seen from the listener's side.
//!
//! `ChannelSink` is an in-process stand-in for the subscriber: it records
//! every event that arrives, and each delivery attempt can be scripted to
//! fail, so that a caller's behaviour after a failed delivery is observable.
//! Delivery is fire-and-forget: an attempt reports success or failure and
//! nothing is retried.

use vstd::prelude::*;

use crate::event::DeviceEvent;

verus! {

/// Whether delivery attempt number `i` on a channel scripted by `plan`
/// succeeds. An attempt past the end of the script succeeds.
pub open spec fn spec_accepts(plan: Seq<bool>, i: int) -> bool {
    !(0 <= i < plan.len()) || plan[i]
}

/// The events that arrive when `attempts` are delivered in order on a channel
/// scripted by `plan`, the first attempt being attempt number `base`.
pub open spec fn delivered_events(
    attempts: Seq<DeviceEvent>,
    plan: Seq<bool>,
    base: int,
) -> Seq<DeviceEvent>
    decreases attempts.len(),
{
    if attempts.len() == 0 {
        Seq::empty()
    } else if spec_accepts(plan, base) {
        seq![attempts[0]] + delivered_events(attempts.drop_first(), plan, base + 1)
    } else {
        delivered_events(attempts.drop_first(), plan, base + 1)
    }
}

/// Arrived events distribute over concatenation of attempt sequences.
pub proof fn lemma_delivered_append(
    a: Seq<DeviceEvent>,
    b: Seq<DeviceEvent>,
    plan: Seq<bool>,
    base: int,
)
    ensures
        delivered_events(a + b, plan, base) == delivered_events(a, plan, base)
            + delivered_events(b, plan, base + a.len()),
    decreases a.len(),
{
    if a.len() == 0 {
        assert(a + b =~= b);
        assert(delivered_events(a, plan, base) + delivered_events(b, plan, base) =~= delivered_events(
            b,
            plan,
            base,
        ));
    } else {
        assert((a + b).drop_first() =~= a.drop_first() + b);
        lemma_delivered_append(a.drop_first(), b, plan, base + 1);
        assert(delivered_events(a + b, plan, base) =~= delivered_events(a, plan, base)
            + delivered_events(b, plan, base + a.len()));
    }
}

/// An attempt the channel accepts is delivered: the event of attempt
/// `base + i` appears among the arrived events whenever the script accepts
/// that attempt, whatever it says about any other attempt.
pub proof fn lemma_accepted_attempt_is_delivered(
    attempts: Seq<DeviceEvent>,
    plan: Seq<bool>,
    base: int,
    i: int,
)
    requires
        0 <= i < attempts.len(),
        spec_accepts(plan, base + i),
    ensures
        delivered_events(attempts, plan, base).contains(attempts[i]),
    decreases i,
{
    if i == 0 {
        assert(delivered_events(attempts, plan, base)[0] == attempts[0]);
    } else {
        lemma_accepted_attempt_is_delivered(attempts.drop_first(), plan, base + 1, i - 1);
        let rest = delivered_events(attempts.drop_first(), plan, base + 1);
        let j = choose|j: int| 0 <= j < rest.len() && rest[j] == attempts[i];
        if spec_accepts(plan, base) {
            assert(delivered_events(attempts, plan, base)[j + 1] == attempts[i]);
        }
    }
}

/// Delivery resilience: a failure at attempt `n` (the script turned to
/// failure there) never loses a later or earlier attempt — any other attempt
/// the channel accepts is still delivered.
pub proof fn lemma_delivery_resilient(
    attempts: Seq<DeviceEvent>,
    plan: Seq<bool>,
    base: int,
    n: int,
    i: int,
)
    requires
        0 <= n < plan.len(),
        0 <= i < attempts.len(),
        base + i != n,
        spec_accepts(plan, base + i),
    ensures
        delivered_events(attempts, plan.update(n, false), base).contains(attempts[i]),
{
    lemma_accepted_attempt_is_delivered(attempts, plan.update(n, false), base, i);
}

/// The UI notification channel. Events delivered to it are recorded in
/// `delivered`; the outcome of each attempt follows `plan`.
pub struct ChannelSink {
    /// Scripted outcome of each delivery attempt, by attempt number; an
    /// attempt past the end of the script succeeds.
    pub plan: Vec<bool>,
    /// How many delivery attempts have been made.
    pub attempts: usize,
    /// The events that arrived, in delivery order.
    pub delivered: Vec<DeviceEvent>,
}

impl ChannelSink {
    /// A channel on which every delivery succeeds.
    pub fn new() -> (s: ChannelSink)
        ensures
            s.plan@ =~= Seq::<bool>::empty(),
            s.attempts == 0,
            s.delivered@ =~= Seq::<DeviceEvent>::empty(),
    {
        ChannelSink { plan: Vec::new(), attempts: 0, delivered: Vec::new() }
    }

    /// A channel whose delivery attempt number `i` succeeds exactly when
    /// `plan[i]` (attempts past the end of the script succeed).
    pub fn with_plan(plan: Vec<bool>) -> (s: ChannelSink)
        ensures
            s.plan == plan,
            s.attempts == 0,
            s.delivered@ =~= Seq::<DeviceEvent>::empty(),
    {
        ChannelSink { plan, attempts: 0, delivered: Vec::new() }
    }

    /// Attempt to deliver one event, fire-and-forget. The attempt is counted
    /// whatever its outcome; the event arrives exactly when the script
    /// accepts this attempt.
    pub fn deliver(&mut self, e: DeviceEvent) -> (ok: bool)
        requires
            old(self).attempts < usize::MAX,
        ensures
            final(self).plan == old(self).plan,
            final(self).attempts == old(self).attempts + 1,
            ok == spec_accepts(old(self).plan@, old(self).attempts as int),
            ok ==> final(self).delivered@ == old(self).delivered@.push(e),
            !ok ==> final(self).delivered@ == old(self).delivered@,
    {
        let i = self.attempts;
        self.attempts = self.attempts + 1;
        let ok = if i < self.plan.len() {
            self.plan[i]
        } else {
            true
        };
        if ok {
            self.delivered.push(e);
        }
        ok
    }
}

} // verus!

//! The process-wide listener: started at most once, its sink stored at the
//! first start and shared for the rest of the process's lifetime, and a hook
//! loop that delivers every recognized event whatever became of the ones
//! before it.

use vstd::prelude::*;

use crate::event::DeviceEvent;
use crate::event::RawEvent;
use crate::sink::ChannelSink;
use crate::sink::delivered_events;
use crate::sink::lemma_delivered_append;
use crate::sink::spec_accepts;
use crate::translate::lemma_attempts_append;
use crate::translate::spec_attempts;
use crate::translate::spec_translate;
use crate::translate::translate;

verus! {

/// What one start request decided.
#[derive(Debug, Clone, PartialEq, Eq, Structural)]
pub enum StartAction {
    /// First start: the caller is to install the OS hook now, on the
    /// execution context the platform requires.
    InstallHook,
    /// The listener was already running: the request is a no-op.
    AlreadyRunning,
}

/// State of the global input listener, generic over the sink handle `S` that
/// delivers events to the UI layer. Started at most once per process; the
/// guard flag, the hook count and the stored sink change together, so no two
/// of them can disagree.
pub struct Listener<S> {
    running: bool,
    hooks: u64,
    sink: Option<S>,
}

impl<S> Listener<S> {
    /// Whether the listener has been started.
    pub closed spec fn running(self) -> bool {
        self.running
    }

    /// How many start requests have decided to install the OS hook.
    pub closed spec fn hooks(self) -> u64 {
        self.hooks
    }

    /// The sink stored at the first start, if any.
    pub closed spec fn sink(self) -> Option<S> {
        self.sink
    }

    /// At most one hook is ever installed, and a sink is stored exactly
    /// while the listener runs. An invariant of the type: every listener a
    /// caller can hold satisfies it.
    #[verifier::type_invariant]
    pub open spec fn wf(self) -> bool {
        &&& self.hooks() == if self.running() {
            1int
        } else {
            0int
        }
        &&& self.sink() is Some <==> self.running()
    }

    /// The state after one start request with sink `s`: unchanged if already
    /// running, else running, with the hook installed once and `s` stored.
    pub closed spec fn spec_start(self, s: S) -> Listener<S> {
        if self.running {
            self
        } else {
            Listener { running: true, hooks: (self.hooks + 1) as u64, sink: Some(s) }
        }
    }

    /// The state after a burst of start requests, one per sink in `sinks`,
    /// applied in order.
    pub open spec fn spec_start_all(self, sinks: Seq<S>) -> Listener<S>
        decreases sinks.len(),
    {
        if sinks.len() == 0 {
            self
        } else {
            self.spec_start(sinks[0]).spec_start_all(sinks.drop_first())
        }
    }

    /// A listener that has not started.
    pub fn new() -> (l: Listener<S>)
        ensures
            l.wf(),
            !l.running(),
            l.hooks() == 0,
            l.sink() is None,
    {
        Listener { running: false, hooks: 0, sink: None }
    }

    /// Handle one start request carrying `sink`. The first request marks the
    /// listener running, stores the sink and asks the caller to install the
    /// OS hook; every further request leaves the state untouched and asks
    /// for nothing. No request ever installs a second hook.
    pub fn start_listening(&mut self, sink: S) -> (action: StartAction)
        ensures
            *final(self) == old(self).spec_start(sink),
            final(self).wf(),
            final(self).running(),
            final(self).hooks() == 1,
            action == StartAction::InstallHook <==> !old(self).running(),
            !old(self).running() ==> final(self).sink() == Some(sink),
            old(self).running() ==> *final(self) == *old(self),
    {
        proof {
            use_type_invariant(&*self);
        }
        if self.running {
            StartAction::AlreadyRunning
        } else {
            *self = Listener { running: true, hooks: self.hooks + 1, sink: Some(sink) };
            StartAction::InstallHook
        }
    }

    /// Whether the listener has been started.
    pub fn is_running(&self) -> (r: bool)
        ensures
            r == self.running(),
    {
        self.running
    }

    /// How many start requests have decided to install the OS hook.
    pub fn hook_count(&self) -> (n: u64)
        ensures
            n == self.hooks(),
    {
        self.hooks
    }

    /// The sink stored at the first start, if any.
    pub fn sink_ref(&self) -> (r: &Option<S>)
        ensures
            *r == self.sink(),
    {
        &self.sink
    }

    /// Idempotence: a second start request is a pure no-op, whatever sink it
    /// carries, and after the two requests exactly one hook has been
    /// installed and the first sink is the one stored.
    pub proof fn lemma_start_idempotent(self, s1: S, s2: S)
        requires
            self.wf(),
            !self.running(),
        ensures
            self.spec_start(s1).spec_start(s2) == self.spec_start(s1),
            self.spec_start(s1).spec_start(s2).hooks() == 1,
            self.spec_start(s1).spec_start(s2).sink() == Some(s1),
    {
    }

    /// A running listener absorbs any burst of start requests unchanged.
    pub proof fn lemma_running_absorbs_starts(self, sinks: Seq<S>)
        requires
            self.running(),
        ensures
            self.spec_start_all(sinks) == self,
        decreases sinks.len(),
    {
        if sinks.len() > 0 {
            self.lemma_running_absorbs_starts(sinks.drop_first());
        }
    }

    /// However many start requests reach a fresh listener, in whatever order
    /// the contexts making them were serialized, exactly one installs the
    /// hook, and the sink stored is the first request's.
    pub proof fn lemma_single_install(self, sinks: Seq<S>)
        requires
            self.wf(),
            !self.running(),
            sinks.len() >= 1,
        ensures
            self.spec_start_all(sinks) == self.spec_start(sinks[0]),
            self.spec_start_all(sinks).hooks() == 1,
            self.spec_start_all(sinks).sink() == Some(sinks[0]),
    {
        self.spec_start(sinks[0]).lemma_running_absorbs_starts(sinks.drop_first());
    }
}

/// Attempted deliveries never outnumber the raw events behind them.
pub proof fn lemma_attempts_len(raws: Seq<RawEvent>)
    ensures
        spec_attempts(raws).len() <= raws.len(),
    decreases raws.len(),
{
    if raws.len() > 0 {
        lemma_attempts_len(raws.drop_first());
    }
}

/// One pass of the hook loop over a stream of raw events: translate each in
/// arrival order, attempt to deliver each recognized one to `sink`, discard
/// the rest, and keep going whatever a delivery attempt returned. Every
/// recognized event is attempted — a failed delivery never ends the loop —
/// and exactly the attempts the channel accepts arrive.
pub fn pump_events(raws: Vec<RawEvent>, sink: &mut ChannelSink)
    requires
        old(sink).attempts + raws@.len() <= usize::MAX,
    ensures
        final(sink).plan == old(sink).plan,
        final(sink).attempts == old(sink).attempts + spec_attempts(raws@).len(),
        final(sink).delivered@ == old(sink).delivered@ + delivered_events(
            spec_attempts(raws@),
            old(sink).plan@,
            old(sink).attempts as int,
        ),
{
    let ghost orig = raws@;
    let ghost planv = sink.plan;
    let ghost plan0 = sink.plan@;
    let ghost att0 = sink.attempts as int;
    let ghost del0 = sink.delivered@;
    let mut raws = raws;
    while raws.len() > 0
        invariant
            raws@.len() <= orig.len(),
            raws@ =~= orig.skip(orig.len() - raws@.len()),
            att0 + orig.len() <= usize::MAX,
            sink.plan == planv,
            sink.plan@ == plan0,
            sink.attempts == att0 + spec_attempts(orig.take(orig.len() - raws@.len())).len(),
            sink.delivered@ == del0 + delivered_events(
                spec_attempts(orig.take(orig.len() - raws@.len())),
                plan0,
                att0,
            ),
        decreases raws@.len(),
    {
        let ghost k = orig.len() - raws@.len();
        let ghost done = spec_attempts(orig.take(k));
        proof {
            lemma_attempts_len(orig.take(k));
        }
        let raw = raws.remove(0);
        proof {
            assert(raw == orig[k]);
            assert(raws@ =~= orig.skip(k + 1));
            assert(orig.take(k + 1) =~= orig.take(k) + seq![orig[k]]);
            lemma_attempts_append(orig.take(k), seq![orig[k]]);
            assert(seq![orig[k]][0] == orig[k]);
            assert(seq![orig[k]].drop_first() =~= Seq::<RawEvent>::empty());
            assert(spec_attempts(Seq::<RawEvent>::empty()) =~= Seq::<DeviceEvent>::empty());
            match spec_translate(orig[k]) {
                Some(e) => {
                    assert(spec_attempts(seq![orig[k]]) =~= seq![e]);
                    lemma_delivered_append(done, seq![e], plan0, att0);
                    assert(seq![e][0] == e);
                    assert(seq![e].drop_first() =~= Seq::<DeviceEvent>::empty());
                    assert(delivered_events(
                        Seq::<DeviceEvent>::empty(),
                        plan0,
                        att0 + done.len() + 1,
                    ) =~= Seq::<DeviceEvent>::empty());
                    assert(delivered_events(seq![e], plan0, att0 + done.len())
                        =~= if spec_accepts(plan0, att0 + done.len()) {
                        seq![e]
                    } else {
                        Seq::<DeviceEvent>::empty()
                    });
                },
                None => {
                    assert(spec_attempts(seq![orig[k]]) =~= Seq::<DeviceEvent>::empty());
                    assert(spec_attempts(orig.take(k + 1)) =~= done);
                },
            }
        }
        match translate(raw) {
            Some(e) => {
                let _delivered = sink.deliver(e);
                proof {
                    assert(sink.delivered@ =~= del0 + delivered_events(
                        spec_attempts(orig.take(k + 1)),
                        plan0,
                        att0,
                    ));
                }
            },
            None => {},
        }
    }
    proof {
        assert(orig.take(orig.len() - raws@.len()) =~= orig);
    }
}

} // verus!

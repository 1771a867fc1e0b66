use vstd::prelude::*;
use crate::safeword::Safeword;
use crate::shutdown::Shutdown;

verus! {

/// What happened outside while a run was going on, as reported to its [`Race`].
#[derive(Debug)]
pub enum Event<T, E> {
    /// The runtime that drives the workload and the watchers is up.
    RuntimeReady,
    /// The runtime could not be created.
    RuntimeFailed(std::io::Error),
    /// The workload finished with this value.
    WorkloadFinished(T),
    /// The workload failed with this error.
    WorkloadFailed(E),
    /// A watcher saw this signal arrive.
    SignalReceived(i32),
    /// Registering or listening to a signal failed.
    WatchFailed(std::io::Error),
}

/// How far a run has come.
#[derive(Debug)]
pub enum Phase<T, E> {
    /// No runtime yet: nothing has been started.
    Setup,
    /// The workload and the signal watchers are racing.
    Racing,
    /// The run is over, with this result: `Ok(())` where a configured signal stopped it.
    Done(Result<(), Shutdown<T, E>>),
}

/// What the caller of a [`Race`] has to do next.
#[derive(Debug, Clone, Copy, PartialEq, Eq, Structural)]
pub enum Action {
    /// Create the runtime and report `RuntimeReady` or `RuntimeFailed`.
    CreateRuntime,
    /// Race the workload against watchers of `Race::watched` on the runtime,
    /// and report the first thing that comes of it.
    Race,
    /// Stop: `Race::outcome` holds the result.
    Finish,
}

/// The phase that `event` leads to from `phase`, where `signals` are the configured signals.
///
/// Before the runtime exists only its creation counts. While racing, the first
/// result of the workload, a configured signal, or a failed watcher ends the run;
/// a signal that is not configured changes nothing. A finished run stays finished.
pub open spec fn next<T, E>(signals: Seq<i32>, phase: Phase<T, E>, event: Event<T, E>) -> Phase<T, E> {
    match phase {
        Phase::Setup => match event {
            Event::RuntimeReady => Phase::Racing,
            Event::RuntimeFailed(err) => Phase::Done(Err(Shutdown::NoRuntime(err))),
            _ => Phase::Setup,
        },
        Phase::Racing => match event {
            Event::WorkloadFinished(v) => Phase::Done(Err(Shutdown::FutureFinished(v))),
            Event::WorkloadFailed(e) => Phase::Done(Err(Shutdown::FutureErr(e))),
            Event::SignalReceived(s) => if signals.contains(s) {
                Phase::Done(Ok(()))
            } else {
                Phase::Racing
            },
            Event::WatchFailed(err) => Phase::Done(Err(Shutdown::SignalError(err))),
            _ => Phase::Racing,
        },
        Phase::Done(r) => Phase::Done(r),
    }
}

/// The phase reached from `phase` after `events`, one after another.
pub open spec fn replay<T, E>(signals: Seq<i32>, phase: Phase<T, E>, events: Seq<Event<T, E>>) -> Phase<T, E>
    decreases events.len(),
{
    if events.len() == 0 {
        phase
    } else {
        replay(signals, next(signals, phase, events[0]), events.drop_first())
    }
}

/// What is to be done in `phase`.
pub open spec fn action_of<T, E>(phase: Phase<T, E>) -> Action {
    match phase {
        Phase::Setup => Action::CreateRuntime,
        Phase::Racing => Action::Race,
        Phase::Done(_) => Action::Finish,
    }
}

/// Whether `s` is among `v`.
fn holds(v: &Vec<i32>, s: i32) -> (r: bool)
    ensures
        r == v@.contains(s),
{
    let mut i: usize = 0;
    while i < v.len()
        invariant
            0 <= i <= v@.len(),
            forall|j: int| 0 <= j < i ==> v@[j] != s,
        decreases v@.len() - i,
    {
        if v[i] == s {
            return true;
        }
        i += 1;
    }
    false
}

/// One run of a workload against a set of signals, driven by the events its caller reports.
pub struct Race<T, E> {
    signals: Vec<i32>,
    phase: Phase<T, E>,
}

impl<T, E> Race<T, E> {
    /// The configured signals.
    pub closed spec fn configured(&self) -> Seq<i32> {
        self.signals@
    }

    /// How far the run has come.
    pub closed spec fn current(&self) -> Phase<T, E> {
        self.phase
    }

    /// A run on the signals of `config`, before anything has been started.
    pub fn new(config: Safeword) -> (r: Race<T, E>)
        ensures
            r.configured() == config@,
            r.current() == Phase::<T, E>::Setup,
    {
        Race { signals: config.into_signals(), phase: Phase::Setup }
    }

    /// What the caller has to do next.
    pub fn action(&self) -> (r: Action)
        ensures
            r == action_of(self.current()),
    {
        match &self.phase {
            Phase::Setup => Action::CreateRuntime,
            Phase::Racing => Action::Race,
            Phase::Done(_) => Action::Finish,
        }
    }

    /// The signals to watch: each configured signal once.
    pub fn watched(&self) -> (r: Vec<i32>)
        ensures
            r@.no_duplicates(),
            forall|s: i32| r@.contains(s) <==> self.configured().contains(s),
    {
        let mut out: Vec<i32> = Vec::new();
        let mut i: usize = 0;
        while i < self.signals.len()
            invariant
                0 <= i <= self.signals@.len(),
                out@.no_duplicates(),
                forall|s: i32| out@.contains(s) <==> self.signals@.take(i as int).contains(s),
            decreases self.signals@.len() - i,
        {
            let s = self.signals[i];
            let ghost before = out@;
            let ghost seen = self.signals@.take(i as int);
            assert(self.signals@.take(i + 1) == seen.push(s));
            if !holds(&out, s) {
                out.push(s);
            }
            assert(out@ == before || out@ == before.push(s));
            assert forall|x: i32| out@.contains(x) <==> seen.push(s).contains(x) by {
                if x == s {
                    assert(seen.push(s)[seen.len() as int] == s);
                    if out@ != before {
                        assert(out@[before.len() as int] == s);
                    }
                } else {
                    if seen.push(s).contains(x) {
                        let k = choose|k: int| 0 <= k < seen.push(s).len() && seen.push(s)[k] == x;
                        assert(seen[k] == x);
                        assert(seen.contains(x));
                        assert(before.contains(x));
                        let j = choose|j: int| 0 <= j < before.len() && before[j] == x;
                        assert(out@[j] == x);
                    }
                    if out@.contains(x) {
                        let k = choose|k: int| 0 <= k < out@.len() && out@[k] == x;
                        assert(before[k] == x);
                        assert(before.contains(x));
                        assert(seen.contains(x));
                        let j = choose|j: int| 0 <= j < seen.len() && seen[j] == x;
                        assert(seen.push(s)[j] == x);
                    }
                }
            }
            i += 1;
        }
        assert(self.signals@.take(self.signals@.len() as int) == self.signals@);
        out
    }

    /// Take in what happened outside.
    pub fn step(&mut self, event: Event<T, E>)
        ensures
            final(self).configured() == old(self).configured(),
            final(self).current() == next(old(self).configured(), old(self).current(), event),
    {
        let mut phase: Phase<T, E> = Phase::Setup;
        std::mem::swap(&mut self.phase, &mut phase);
        self.phase = match phase {
            Phase::Setup => match event {
                Event::RuntimeReady => Phase::Racing,
                Event::RuntimeFailed(err) => Phase::Done(Err(Shutdown::NoRuntime(err))),
                _ => Phase::Setup,
            },
            Phase::Racing => match event {
                Event::WorkloadFinished(v) => Phase::Done(Err(Shutdown::FutureFinished(v))),
                Event::WorkloadFailed(e) => Phase::Done(Err(Shutdown::FutureErr(e))),
                Event::SignalReceived(s) => if holds(&self.signals, s) {
                    Phase::Done(Ok(()))
                } else {
                    Phase::Racing
                },
                Event::WatchFailed(err) => Phase::Done(Err(Shutdown::SignalError(err))),
                _ => Phase::Racing,
            },
            Phase::Done(r) => Phase::Done(r),
        };
    }

    /// The result of the run, once it is over.
    pub fn outcome(self) -> (r: Option<Result<(), Shutdown<T, E>>>)
        ensures
            match self.current() {
                Phase::Done(res) => r == Some(res),
                _ => r is None,
            },
    {
        match self.phase {
            Phase::Done(res) => Some(res),
            _ => None,
        }
    }
}

/// Once a run is over, no later event changes its result.
pub proof fn lemma_done_stays<T, E>(
    signals: Seq<i32>,
    r: Result<(), Shutdown<T, E>>,
    events: Seq<Event<T, E>>,
)
    ensures
        replay(signals, Phase::Done(r), events) == Phase::Done(r),
    decreases events.len(),
{
    if events.len() > 0 {
        lemma_done_stays(signals, r, events.drop_first());
    }
}

/// With no configured signals, a run is never stopped by a signal: whatever
/// happens, it ends only through the runtime or the workload.
pub proof fn lemma_no_signals_no_stop<T, E>(events: Seq<Event<T, E>>)
    ensures
        replay(Seq::<i32>::empty(), Phase::Setup, events) != Phase::<T, E>::Done(Ok(())),
{
    lemma_never_stops_from(Phase::Setup, events);
}

proof fn lemma_never_stops_from<T, E>(phase: Phase<T, E>, events: Seq<Event<T, E>>)
    requires
        phase != Phase::<T, E>::Done(Ok(())),
    ensures
        replay(Seq::<i32>::empty(), phase, events) != Phase::<T, E>::Done(Ok(())),
    decreases events.len(),
{
    if events.len() > 0 {
        lemma_never_stops_from(next(Seq::<i32>::empty(), phase, events[0]), events.drop_first());
    }
}

/// Runs on two configurations that hold the same signals, however often each,
/// go the same way: duplicates change nothing.
pub proof fn lemma_duplicates_change_nothing<T, E>(
    a: Seq<i32>,
    b: Seq<i32>,
    phase: Phase<T, E>,
    events: Seq<Event<T, E>>,
)
    requires
        forall|s: i32| a.contains(s) <==> b.contains(s),
    ensures
        replay(a, phase, events) == replay(b, phase, events),
    decreases events.len(),
{
    if events.len() > 0 {
        assert(next(a, phase, events[0]) == next(b, phase, events[0]));
        lemma_duplicates_change_nothing(a, b, next(a, phase, events[0]), events.drop_first());
    }
}

/// A workload that finishes with `v` while racing ends the run with
/// `FutureFinished(v)`, and nothing after changes that.
pub proof fn lemma_workload_finished<T, E>(signals: Seq<i32>, v: T, events: Seq<Event<T, E>>)
    ensures
        replay(signals, Phase::Racing, seq![Event::WorkloadFinished(v)] + events)
            == Phase::<T, E>::Done(Err(Shutdown::FutureFinished(v))),
{
    let all = seq![Event::WorkloadFinished(v)] + events;
    assert(all[0] == Event::<T, E>::WorkloadFinished(v));
    assert(all.drop_first() == events);
    lemma_done_stays(signals, Err(Shutdown::FutureFinished(v)), events);
}

/// A workload that fails with `e` while racing ends the run with
/// `FutureErr(e)`, and nothing after changes that.
pub proof fn lemma_workload_failed<T, E>(signals: Seq<i32>, e: E, events: Seq<Event<T, E>>)
    ensures
        replay(signals, Phase::Racing, seq![Event::WorkloadFailed(e)] + events)
            == Phase::<T, E>::Done(Err(Shutdown::FutureErr(e))),
{
    let all = seq![Event::WorkloadFailed(e)] + events;
    assert(all[0] == Event::<T, E>::WorkloadFailed(e));
    assert(all.drop_first() == events);
    lemma_done_stays(signals, Err(Shutdown::FutureErr(e)), events);
}

/// A configured signal that arrives while racing ends the run with `Ok(())`:
/// no later result of the workload reaches the outcome.
pub proof fn lemma_signal_stops<T, E>(signals: Seq<i32>, s: i32, events: Seq<Event<T, E>>)
    requires
        signals.contains(s),
    ensures
        replay(signals, Phase::Racing, seq![Event::SignalReceived(s)] + events)
            == Phase::<T, E>::Done(Ok(())),
{
    let all = seq![Event::SignalReceived(s)] + events;
    assert(all[0] == Event::<T, E>::SignalReceived(s));
    assert(all.drop_first() == events);
    lemma_done_stays(signals, Ok(()), events);
}

/// Where the runtime cannot be created, the run ends with `NoRuntime(err)`, and
/// at no point after that is the workload started.
pub proof fn lemma_no_runtime<T, E>(signals: Seq<i32>, err: std::io::Error, events: Seq<Event<T, E>>)
    ensures
        replay(signals, Phase::Setup, seq![Event::RuntimeFailed(err)] + events)
            == Phase::<T, E>::Done(Err(Shutdown::NoRuntime(err))),
        forall|k: int|
            0 <= k <= events.len() + 1 ==> action_of(
                #[trigger] replay(signals, Phase::Setup, (seq![Event::RuntimeFailed(err)] + events).take(k)),
            ) != Action::Race,
{
    let first = seq![Event::<T, E>::RuntimeFailed(err)];
    let done = Phase::<T, E>::Done(Err(Shutdown::NoRuntime(err)));
    assert forall|rest: Seq<Event<T, E>>| #[trigger] replay(signals, Phase::Setup, first + rest) == done by {
        let all = first + rest;
        assert(all[0] == Event::<T, E>::RuntimeFailed(err));
        assert(all.drop_first() == rest);
        lemma_done_stays(signals, Err(Shutdown::NoRuntime(err)), rest);
    }
    assert(replay(signals, Phase::Setup, first + events) == done);
    assert forall|k: int| 0 <= k <= events.len() + 1 implies action_of(
        #[trigger] replay(signals, Phase::Setup, (first + events).take(k)),
    ) != Action::Race by {
        if k == 0 {
            assert((first + events).take(0).len() == 0);
        } else {
            assert((first + events).take(k) == first + events.take(k - 1));
            assert(replay(signals, Phase::Setup, first + events.take(k - 1)) == done);
        }
    }
}

} // verus!

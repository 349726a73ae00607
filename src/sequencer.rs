//! The startup sequencer: ordered, health-gated bring-up of a model-serving
//! service followed by a backend that depends on it.
//!
//! The sequencer decides; it performs nothing. Each call of `step` takes the
//! outcome of the previous action (an `Event`) and returns the next `Action`
//! for the caller to carry out: launch a service, wait one probe interval and
//! probe a service, reveal the UI, or abort.

use vstd::prelude::*;

verus! {

/// The two supervised services, in the order they are brought up.
#[derive(Clone, Copy, PartialEq, Eq, Debug, Structural)]
pub enum Service {
    /// The model-serving daemon, launched first.
    Model,
    /// The application backend, which talks to the model service.
    Backend,
}

/// Why startup failed: a launch call was refused.
#[derive(Clone, Copy, PartialEq, Eq, Debug, Structural)]
pub enum Failure {
    ModelLaunch,
    BackendLaunch,
}

pub open spec fn failure_reason(f: Failure) -> Seq<char> {
    match f {
        Failure::ModelLaunch => "model service launch failed"@,
        Failure::BackendLaunch => "backend launch failed"@,
    }
}

impl Failure {
    /// A message for the user.
    pub fn reason(&self) -> (r: String)
        ensures
            r@ == failure_reason(*self),
    {
        match self {
            Failure::ModelLaunch => "model service launch failed".to_owned(),
            Failure::BackendLaunch => "backend launch failed".to_owned(),
        }
    }
}

/// Where the sequence stands.
#[derive(Clone, Copy, PartialEq, Eq, Debug, Structural)]
pub enum Stage {
    NotStarted,
    LaunchingModel,
    ProbingModel,
    LaunchingBackend,
    ProbingBackend,
    Ready,
    Failed(Failure),
}

/// The outcome of the action the sequencer asked for last.
#[derive(Clone, Copy, PartialEq, Eq, Debug, Structural)]
pub enum Event {
    /// Begin the sequence.
    Start,
    LaunchSucceeded,
    LaunchFailed,
    /// The probed service answered (with any status).
    ProbeAlive,
    /// The probed service gave no answer.
    ProbeDead,
}

/// What the caller is to do next.
#[derive(Clone, Copy, PartialEq, Eq, Debug, Structural)]
pub enum Action {
    Launch(Service),
    /// Wait `wait_ms` milliseconds, then probe `service` once.
    Probe { service: Service, wait_ms: u64 },
    /// Startup is complete: show the UI.
    Reveal,
    /// Startup failed: report the failure and end the application.
    Abort(Failure),
    /// The event was not expected in this stage and changed nothing.
    Idle,
}

/// How a launched service is polled: at most `max_attempts` probes, each
/// after a wait of `interval_ms` milliseconds.
#[derive(Clone, Copy, PartialEq, Eq, Debug, Structural)]
pub struct ProbePolicy {
    pub max_attempts: u32,
    pub interval_ms: u64,
}

/// The state of one run of the startup sequence. `attempts` counts the
/// probes issued in the current probing stage.
#[derive(Clone, Copy, PartialEq, Eq, Debug, Structural)]
pub struct Sequencer {
    pub model: ProbePolicy,
    pub backend: ProbePolicy,
    pub stage: Stage,
    pub attempts: u32,
}

/// Position of a stage in the sequence; transitions never lower it.
pub open spec fn rank(st: Stage) -> nat {
    match st {
        Stage::NotStarted => 0,
        Stage::LaunchingModel => 1,
        Stage::ProbingModel => 2,
        Stage::LaunchingBackend => 3,
        Stage::ProbingBackend => 4,
        Stage::Ready => 5,
        Stage::Failed(_) => 6,
    }
}

pub open spec fn is_terminal(st: Stage) -> bool {
    st == Stage::Ready || st is Failed
}

pub open spec fn launch_backend(s: Sequencer) -> (Sequencer, Action) {
    (Sequencer { stage: Stage::LaunchingBackend, attempts: 0, ..s }, Action::Launch(Service::Backend))
}

pub open spec fn become_ready(s: Sequencer) -> (Sequencer, Action) {
    (Sequencer { stage: Stage::Ready, attempts: 0, ..s }, Action::Reveal)
}

/// The next probe of the model service, or the backend's launch once the
/// model service's probes are used up.
pub open spec fn next_model_probe(s: Sequencer) -> (Sequencer, Action) {
    if s.attempts < s.model.max_attempts {
        (
            Sequencer { stage: Stage::ProbingModel, attempts: (s.attempts + 1) as u32, ..s },
            Action::Probe { service: Service::Model, wait_ms: s.model.interval_ms },
        )
    } else {
        launch_backend(s)
    }
}

/// The next probe of the backend, or readiness once its probes are used up.
pub open spec fn next_backend_probe(s: Sequencer) -> (Sequencer, Action) {
    if s.attempts < s.backend.max_attempts {
        (
            Sequencer { stage: Stage::ProbingBackend, attempts: (s.attempts + 1) as u32, ..s },
            Action::Probe { service: Service::Backend, wait_ms: s.backend.interval_ms },
        )
    } else {
        become_ready(s)
    }
}

/// One transition of the sequence.
pub open spec fn transition(s: Sequencer, ev: Event) -> (Sequencer, Action) {
    match s.stage {
        Stage::NotStarted => match ev {
            Event::Start => (Sequencer { stage: Stage::LaunchingModel, attempts: 0, ..s }, Action::Launch(Service::Model)),
            _ => (s, Action::Idle),
        },
        Stage::LaunchingModel => match ev {
            Event::LaunchSucceeded => next_model_probe(s),
            Event::LaunchFailed => (
                Sequencer { stage: Stage::Failed(Failure::ModelLaunch), attempts: 0, ..s },
                Action::Abort(Failure::ModelLaunch),
            ),
            _ => (s, Action::Idle),
        },
        Stage::ProbingModel => match ev {
            Event::ProbeAlive => launch_backend(s),
            Event::ProbeDead => next_model_probe(s),
            _ => (s, Action::Idle),
        },
        Stage::LaunchingBackend => match ev {
            Event::LaunchSucceeded => next_backend_probe(s),
            Event::LaunchFailed => (
                Sequencer { stage: Stage::Failed(Failure::BackendLaunch), attempts: 0, ..s },
                Action::Abort(Failure::BackendLaunch),
            ),
            _ => (s, Action::Idle),
        },
        Stage::ProbingBackend => match ev {
            Event::ProbeAlive => become_ready(s),
            Event::ProbeDead => next_backend_probe(s),
            _ => (s, Action::Idle),
        },
        _ => (s, Action::Idle),
    }
}

/// The state reached, and the actions issued, when `evs` are fed in order.
pub open spec fn run(s: Sequencer, evs: Seq<Event>) -> (Sequencer, Seq<Action>)
    decreases evs.len(),
{
    if evs.len() == 0 {
        (s, Seq::empty())
    } else {
        let (t, acts) = run(s, evs.drop_last());
        let (u, a) = transition(t, evs.last());
        (u, acts.push(a))
    }
}

impl Sequencer {
    /// Probe counts stay within the policy of the service being probed.
    pub open spec fn wf(&self) -> bool {
        &&& (self.stage == Stage::ProbingModel ==> 1 <= self.attempts <= self.model.max_attempts)
        &&& (self.stage == Stage::ProbingBackend ==> 1 <= self.attempts <= self.backend.max_attempts)
        &&& (self.stage != Stage::ProbingModel && self.stage != Stage::ProbingBackend ==> self.attempts == 0)
    }

    /// A sequence that has not started yet.
    pub fn new(model: ProbePolicy, backend: ProbePolicy) -> (r: Self)
        ensures
            r.wf(),
            r == (Sequencer { model, backend, stage: Stage::NotStarted, attempts: 0 }),
    {
        Sequencer { model, backend, stage: Stage::NotStarted, attempts: 0 }
    }

    fn next_model_probe(&mut self) -> (a: Action)
        requires
            old(self).wf(),
            old(self).stage == Stage::LaunchingModel || old(self).stage == Stage::ProbingModel,
        ensures
            (*final(self), a) == next_model_probe(*old(self)),
    {
        if self.attempts < self.model.max_attempts {
            self.stage = Stage::ProbingModel;
            self.attempts = self.attempts + 1;
            Action::Probe { service: Service::Model, wait_ms: self.model.interval_ms }
        } else {
            self.stage = Stage::LaunchingBackend;
            self.attempts = 0;
            Action::Launch(Service::Backend)
        }
    }

    fn next_backend_probe(&mut self) -> (a: Action)
        requires
            old(self).wf(),
            old(self).stage == Stage::LaunchingBackend || old(self).stage == Stage::ProbingBackend,
        ensures
            (*final(self), a) == next_backend_probe(*old(self)),
    {
        if self.attempts < self.backend.max_attempts {
            self.stage = Stage::ProbingBackend;
            self.attempts = self.attempts + 1;
            Action::Probe { service: Service::Backend, wait_ms: self.backend.interval_ms }
        } else {
            self.stage = Stage::Ready;
            self.attempts = 0;
            Action::Reveal
        }
    }

    /// Feeds one event to the sequence and returns the action it calls for.
    /// The stage never moves backwards, and a terminal stage is never left.
    pub fn step(&mut self, ev: Event) -> (a: Action)
        requires
            old(self).wf(),
        ensures
            final(self).wf(),
            (*final(self), a) == transition(*old(self), ev),
            rank(old(self).stage) <= rank(final(self).stage),
            is_terminal(old(self).stage) ==> *final(self) == *old(self) && a == Action::Idle,
    {
        match (self.stage, ev) {
            (Stage::NotStarted, Event::Start) => {
                self.stage = Stage::LaunchingModel;
                Action::Launch(Service::Model)
            },
            (Stage::LaunchingModel, Event::LaunchSucceeded) => self.next_model_probe(),
            (Stage::LaunchingModel, Event::LaunchFailed) => {
                self.stage = Stage::Failed(Failure::ModelLaunch);
                Action::Abort(Failure::ModelLaunch)
            },
            (Stage::ProbingModel, Event::ProbeAlive) => {
                self.stage = Stage::LaunchingBackend;
                self.attempts = 0;
                Action::Launch(Service::Backend)
            },
            (Stage::ProbingModel, Event::ProbeDead) => self.next_model_probe(),
            (Stage::LaunchingBackend, Event::LaunchSucceeded) => self.next_backend_probe(),
            (Stage::LaunchingBackend, Event::LaunchFailed) => {
                self.stage = Stage::Failed(Failure::BackendLaunch);
                Action::Abort(Failure::BackendLaunch)
            },
            (Stage::ProbingBackend, Event::ProbeAlive) => {
                self.stage = Stage::Ready;
                self.attempts = 0;
                Action::Reveal
            },
            (Stage::ProbingBackend, Event::ProbeDead) => self.next_backend_probe(),
            _ => Action::Idle,
        }
    }

    /// Feeds `evs` in order and returns the actions issued, one per event.
    pub fn drive(&mut self, evs: &Vec<Event>) -> (acts: Vec<Action>)
        requires
            old(self).wf(),
        ensures
            final(self).wf(),
            (*final(self), acts@) == run(*old(self), evs@),
    {
        let ghost s0 = *self;
        let mut acts: Vec<Action> = Vec::new();
        let mut i: usize = 0;
        assert(evs@.subrange(0, 0) =~= Seq::<Event>::empty());
        while i < evs.len()
            invariant
                i <= evs@.len(),
                self.wf(),
                (*self, acts@) == run(s0, evs@.subrange(0, i as int)),
            decreases evs@.len() - i,
        {
            assert(evs@.subrange(0, i + 1).drop_last() =~= evs@.subrange(0, i as int));
            let a = self.step(evs[i]);
            acts.push(a);
            i = i + 1;
        }
        assert(evs@.subrange(0, i as int) =~= evs@);
        acts
    }
}

/// `n` copies of one event.
pub open spec fn repeat(e: Event, n: nat) -> Seq<Event> {
    Seq::new(n, |i: int| e)
}

/// The launch of the model service issued at `j` has returned successfully
/// with the event at `k`.
pub open spec fn model_launch_returned(acts: Seq<Action>, evs: Seq<Event>, j: int, k: int) -> bool {
    0 <= j < k < evs.len() && j < acts.len() && acts[j] == Action::Launch(Service::Model)
        && evs[k] == Event::LaunchSucceeded
}

proof fn lemma_order_invariant(s: Sequencer, evs: Seq<Event>)
    requires
        s.stage == Stage::NotStarted,
    ensures
        run(s, evs).1.len() == evs.len(),
        rank(run(s, evs).0.stage) >= 1 ==> exists|j: int|
            0 <= j < evs.len() && #[trigger] run(s, evs).1[j] == Action::Launch(Service::Model),
        rank(run(s, evs).0.stage) >= 2 && run(s, evs).0.stage != Stage::Failed(Failure::ModelLaunch)
            ==> exists|j: int, k: int| #[trigger] model_launch_returned(run(s, evs).1, evs, j, k),
        forall|i: int|
            0 <= i < evs.len() && #[trigger] run(s, evs).1[i] == Action::Launch(Service::Backend)
                ==> exists|j: int, k: int| k <= i && #[trigger] model_launch_returned(run(s, evs).1, evs, j, k),
    decreases evs.len(),
{
    if evs.len() > 0 {
        let d = evs.drop_last();
        let n = evs.len() - 1;
        lemma_order_invariant(s, d);
        let (t, acts) = run(s, d);
        let (u, a) = transition(t, evs.last());
        let all = acts.push(a);
        assert(run(s, evs) == (u, all));
        assert forall|j: int, k: int| #[trigger] model_launch_returned(acts, d, j, k)
            implies model_launch_returned(all, evs, j, k) by {
            assert(all[j] == acts[j]);
            assert(evs[k] == d[k]);
        }
        if rank(t.stage) >= 1 {
            let j = choose|j: int| 0 <= j < d.len() && #[trigger] acts[j] == Action::Launch(Service::Model);
            assert(all[j] == acts[j]);
        }
        if rank(t.stage) >= 2 && t.stage != Stage::Failed(Failure::ModelLaunch) {
            let (j, k) = choose|j: int, k: int| #[trigger] model_launch_returned(acts, d, j, k);
            assert(model_launch_returned(all, evs, j, k));
        }
        if t.stage == Stage::LaunchingModel && evs.last() == Event::LaunchSucceeded {
            let j = choose|j: int| 0 <= j < d.len() && #[trigger] acts[j] == Action::Launch(Service::Model);
            assert(all[j] == acts[j]);
            assert(model_launch_returned(all, evs, j, n));
        }
        if t.stage == Stage::NotStarted && evs.last() == Event::Start {
            assert(all[n] == Action::Launch(Service::Model));
        }
        assert forall|i: int|
            0 <= i < evs.len() && #[trigger] all[i] == Action::Launch(Service::Backend)
                implies exists|j: int, k: int| k <= i && #[trigger] model_launch_returned(all, evs, j, k) by {
            if i < n {
                assert(acts[i] == all[i]);
                let (j, k) = choose|j: int, k: int| k <= i && #[trigger] model_launch_returned(acts, d, j, k);
                assert(model_launch_returned(all, evs, j, k));
            } else {
                if t.stage == Stage::ProbingModel {
                    let (j, k) = choose|j: int, k: int| #[trigger] model_launch_returned(acts, d, j, k);
                    assert(model_launch_returned(all, evs, j, k));
                }
            }
        }
    }
}

/// The backend is never launched before the model service's launch has
/// returned: whatever events a run from the start receives, every action that
/// launches the backend comes after an action that launched the model service
/// and a later event that reported that launch successful.
pub proof fn lemma_backend_launched_after_model(s: Sequencer, evs: Seq<Event>, i: int)
    requires
        s.stage == Stage::NotStarted,
        0 <= i < evs.len(),
        run(s, evs).1[i] == Action::Launch(Service::Backend),
    ensures
        exists|j: int, k: int| k <= i && #[trigger] model_launch_returned(run(s, evs).1, evs, j, k),
{
    lemma_order_invariant(s, evs);
}

proof fn lemma_run_append(s: Sequencer, a: Seq<Event>, b: Seq<Event>)
    ensures
        run(s, a + b).0 == run(run(s, a).0, b).0,
        run(s, a + b).1 == run(s, a).1 + run(run(s, a).0, b).1,
    decreases b.len(),
{
    if b.len() == 0 {
        assert(a + b =~= a);
        assert(run(s, a).1 + run(run(s, a).0, b).1 =~= run(s, a).1);
    } else {
        assert((a + b).drop_last() =~= a + b.drop_last());
        assert((a + b).last() == b.last());
        lemma_run_append(s, a, b.drop_last());
        let t = run(run(s, a).0, b.drop_last());
        assert(run(s, a).1 + t.1.push(transition(t.0, b.last()).1)
            =~= (run(s, a).1 + t.1).push(transition(t.0, b.last()).1));
    }
}

proof fn lemma_single(s: Sequencer, e: Event)
    ensures
        run(s, seq![e]) == (transition(s, e).0, seq![transition(s, e).1]),
{
    assert(seq![e].drop_last() =~= Seq::<Event>::empty());
    assert(seq![e].last() == e);
    assert(run(s, Seq::<Event>::empty()) == (s, Seq::<Action>::empty()));
    assert(Seq::<Action>::empty().push(transition(s, e).1) =~= seq![transition(s, e).1]);
}

/// Unanswered probes of the model service only count up, until they are
/// used up.
proof fn lemma_model_dead(t: Sequencer, m: nat)
    requires
        t.stage == Stage::ProbingModel,
        t.attempts + m <= t.model.max_attempts,
    ensures
        run(t, repeat(Event::ProbeDead, m)).0 == (Sequencer { attempts: (t.attempts + m) as u32, ..t }),
    decreases m,
{
    if m > 0 {
        assert(repeat(Event::ProbeDead, m).drop_last() =~= repeat(Event::ProbeDead, (m - 1) as nat));
        lemma_model_dead(t, (m - 1) as nat);
    } else {
        assert(repeat(Event::ProbeDead, m) =~= Seq::<Event>::empty());
    }
}

proof fn lemma_backend_dead(t: Sequencer, m: nat)
    requires
        t.stage == Stage::ProbingBackend,
        t.attempts + m <= t.backend.max_attempts,
    ensures
        run(t, repeat(Event::ProbeDead, m)).0 == (Sequencer { attempts: (t.attempts + m) as u32, ..t }),
    decreases m,
{
    if m > 0 {
        assert(repeat(Event::ProbeDead, m).drop_last() =~= repeat(Event::ProbeDead, (m - 1) as nat));
        lemma_backend_dead(t, (m - 1) as nat);
    } else {
        assert(repeat(Event::ProbeDead, m) =~= Seq::<Event>::empty());
    }
}

/// A successful launch of the model service followed by as many unanswered
/// probes as its policy allows leads to the backend's launch.
proof fn lemma_model_exhausted(t: Sequencer)
    requires
        t.stage == Stage::LaunchingModel,
        t.attempts == 0,
    ensures
        run(t, seq![Event::LaunchSucceeded] + repeat(Event::ProbeDead, t.model.max_attempts as nat)).0
            == launch_backend(t).0,
{
    let m = t.model.max_attempts as nat;
    lemma_run_append(t, seq![Event::LaunchSucceeded], repeat(Event::ProbeDead, m));
    lemma_single(t, Event::LaunchSucceeded);
    let p = transition(t, Event::LaunchSucceeded).0;
    if m == 0 {
        assert(repeat(Event::ProbeDead, m) =~= Seq::<Event>::empty());
    } else {
        let rest = repeat(Event::ProbeDead, (m - 1) as nat);
        assert(repeat(Event::ProbeDead, m) =~= rest + seq![Event::ProbeDead]);
        lemma_run_append(p, rest, seq![Event::ProbeDead]);
        lemma_model_dead(p, (m - 1) as nat);
        lemma_single(run(p, rest).0, Event::ProbeDead);
    }
}

proof fn lemma_backend_exhausted(t: Sequencer)
    requires
        t.stage == Stage::LaunchingBackend,
        t.attempts == 0,
    ensures
        run(t, seq![Event::LaunchSucceeded] + repeat(Event::ProbeDead, t.backend.max_attempts as nat)).0
            == become_ready(t).0,
        run(t, seq![Event::LaunchSucceeded] + repeat(Event::ProbeDead, t.backend.max_attempts as nat)).1.len() > 0,
        run(t, seq![Event::LaunchSucceeded] + repeat(Event::ProbeDead, t.backend.max_attempts as nat)).1.last()
            == Action::Reveal,
{
    let m = t.backend.max_attempts as nat;
    lemma_run_append(t, seq![Event::LaunchSucceeded], repeat(Event::ProbeDead, m));
    lemma_single(t, Event::LaunchSucceeded);
    let p = transition(t, Event::LaunchSucceeded).0;
    if m == 0 {
        assert(repeat(Event::ProbeDead, m) =~= Seq::<Event>::empty());
    } else {
        let rest = repeat(Event::ProbeDead, (m - 1) as nat);
        assert(repeat(Event::ProbeDead, m) =~= rest + seq![Event::ProbeDead]);
        lemma_run_append(p, rest, seq![Event::ProbeDead]);
        lemma_backend_dead(p, (m - 1) as nat);
        lemma_single(run(p, rest).0, Event::ProbeDead);
        let r = run(t, seq![Event::LaunchSucceeded]).1 + run(p, rest + seq![Event::ProbeDead]).1;
        assert(r.last() == run(p, rest + seq![Event::ProbeDead]).1.last());
    }
}

/// The events of a startup in which neither service ever answers a probe,
/// while both launches succeed.
pub open spec fn unanswered_startup(s: Sequencer) -> Seq<Event> {
    seq![Event::Start, Event::LaunchSucceeded] + repeat(Event::ProbeDead, s.model.max_attempts as nat)
        + seq![Event::LaunchSucceeded] + repeat(Event::ProbeDead, s.backend.max_attempts as nat)
}

/// Probe timeouts are not fatal: when the model service never answers within
/// its probe budget (and the backend does not either), the sequence still
/// reaches `Ready` once the backend's launch has succeeded, and its last
/// action reveals the UI.
pub proof fn lemma_unanswered_probes_still_ready(s: Sequencer)
    requires
        s.stage == Stage::NotStarted,
        s.attempts == 0,
    ensures
        run(s, unanswered_startup(s)).0.stage == Stage::Ready,
        run(s, unanswered_startup(s)).1.last() == Action::Reveal,
{
    let ma = repeat(Event::ProbeDead, s.model.max_attempts as nat);
    let mb = repeat(Event::ProbeDead, s.backend.max_attempts as nat);
    let first = seq![Event::Start];
    let part_a = seq![Event::LaunchSucceeded] + ma;
    let part_b = seq![Event::LaunchSucceeded] + mb;
    assert(unanswered_startup(s) =~= first + part_a + part_b);
    lemma_run_append(s, first + part_a, part_b);
    lemma_run_append(s, first, part_a);
    lemma_single(s, Event::Start);
    let t1 = transition(s, Event::Start).0;
    lemma_model_exhausted(t1);
    let t2 = launch_backend(t1).0;
    lemma_backend_exhausted(t2);
    let r = run(s, first + part_a).1 + run(t2, part_b).1;
    assert(r.last() == run(t2, part_b).1.last());
}

} // verus!

verus! {

proof fn lemma_reveal_only_when_ready(s: Sequencer, evs: Seq<Event>)
    requires
        s.stage == Stage::NotStarted,
    ensures
        run(s, evs).1.len() == evs.len(),
        (exists|i: int| 0 <= i < evs.len() && #[trigger] run(s, evs).1[i] == Action::Reveal)
            ==> run(s, evs).0.stage == Stage::Ready,
        run(s, evs).0.stage matches Stage::Failed(f) ==> exists|i: int|
            0 <= i < evs.len() && #[trigger] run(s, evs).1[i] == Action::Abort(f),
    decreases evs.len(),
{
    if evs.len() > 0 {
        let d = evs.drop_last();
        lemma_reveal_only_when_ready(s, d);
        let (t, acts) = run(s, d);
        let (u, a) = transition(t, evs.last());
        let all = acts.push(a);
        if exists|i: int| 0 <= i < evs.len() && #[trigger] all[i] == Action::Reveal {
            let i = choose|i: int| 0 <= i < evs.len() && #[trigger] all[i] == Action::Reveal;
            if i < d.len() {
                assert(acts[i] == all[i]);
            }
        }
        if let Stage::Failed(f) = u.stage {
            if t.stage is Failed {
                let i = choose|i: int| 0 <= i < d.len() && #[trigger] acts[i] == Action::Abort(f);
                assert(all[i] == acts[i]);
            } else {
                assert(all[d.len() as int] == Action::Abort(f));
            }
        }
    }
}

/// A failed launch of the backend is fatal: from whatever run has reached
/// the backend's launch, a failure report ends the sequence in `Failed`,
/// its last action reports the failure, and no action of the run ever asked
/// for the UI to be revealed.
pub proof fn lemma_backend_launch_failure_is_fatal(s: Sequencer, evs: Seq<Event>)
    requires
        s.stage == Stage::NotStarted,
        run(s, evs).0.stage == Stage::LaunchingBackend,
    ensures
        run(s, evs.push(Event::LaunchFailed)).0.stage == Stage::Failed(Failure::BackendLaunch),
        run(s, evs.push(Event::LaunchFailed)).1.last() == Action::Abort(Failure::BackendLaunch),
        forall|i: int|
            0 <= i < run(s, evs.push(Event::LaunchFailed)).1.len()
                ==> #[trigger] run(s, evs.push(Event::LaunchFailed)).1[i] != Action::Reveal,
{
    let e = evs.push(Event::LaunchFailed);
    assert(e.drop_last() =~= evs);
    lemma_reveal_only_when_ready(s, e);
}

} // verus!

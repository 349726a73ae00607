use supervisor::sequencer::{Action, Event, Failure, ProbePolicy, Sequencer, Service, Stage};

fn policy(max_attempts: u32, interval_ms: u64) -> ProbePolicy {
    ProbePolicy { max_attempts, interval_ms }
}

fn waited_before_backend(acts: &[Action]) -> u64 {
    let mut total = 0;
    for a in acts {
        match a {
            Action::Probe { service: Service::Model, wait_ms } => total += wait_ms,
            Action::Launch(Service::Backend) => return total,
            _ => {}
        }
    }
    total
}

#[test]
fn healthy_on_second_probe_waits_two_intervals() {
    let mut s = Sequencer::new(policy(3, 1000), policy(3, 1000));
    let evs = vec![Event::Start, Event::LaunchSucceeded, Event::ProbeDead, Event::ProbeAlive];
    let acts = s.drive(&evs);
    assert_eq!(
        acts,
        vec![
            Action::Launch(Service::Model),
            Action::Probe { service: Service::Model, wait_ms: 1000 },
            Action::Probe { service: Service::Model, wait_ms: 1000 },
            Action::Launch(Service::Backend),
        ]
    );
    assert_eq!(waited_before_backend(&acts), 2000);
    assert_eq!(acts.iter().filter(|a| **a == Action::Launch(Service::Backend)).count(), 1);
    assert_eq!(s.stage, Stage::LaunchingBackend);
}

#[test]
fn never_healthy_waits_full_budget_then_ready() {
    let mut s = Sequencer::new(policy(30, 1000), policy(30, 1000));
    let mut evs = vec![Event::Start, Event::LaunchSucceeded];
    evs.extend(std::iter::repeat(Event::ProbeDead).take(30));
    evs.push(Event::LaunchSucceeded);
    evs.extend(std::iter::repeat(Event::ProbeDead).take(30));
    let acts = s.drive(&evs);
    assert_eq!(waited_before_backend(&acts), 30_000);
    assert_eq!(acts.iter().filter(|a| **a == Action::Launch(Service::Backend)).count(), 1);
    assert_eq!(acts.last(), Some(&Action::Reveal));
    assert_eq!(s.stage, Stage::Ready);
}

#[test]
fn model_launch_failure_aborts() {
    let mut s = Sequencer::new(policy(3, 1000), policy(3, 1000));
    assert_eq!(s.step(Event::Start), Action::Launch(Service::Model));
    assert_eq!(s.step(Event::LaunchFailed), Action::Abort(Failure::ModelLaunch));
    assert_eq!(s.stage, Stage::Failed(Failure::ModelLaunch));
    assert_eq!(s.step(Event::LaunchSucceeded), Action::Idle);
}

#[test]
fn backend_launch_failure_aborts_without_reveal() {
    let mut s = Sequencer::new(policy(2, 500), policy(2, 500));
    let evs = vec![Event::Start, Event::LaunchSucceeded, Event::ProbeAlive, Event::LaunchFailed];
    let acts = s.drive(&evs);
    assert_eq!(acts.last(), Some(&Action::Abort(Failure::BackendLaunch)));
    assert!(!acts.contains(&Action::Reveal));
    assert_eq!(s.stage, Stage::Failed(Failure::BackendLaunch));
    assert_eq!(Failure::BackendLaunch.reason(), "backend launch failed");
}

#[test]
fn zero_attempts_skips_probing() {
    let mut s = Sequencer::new(policy(0, 1000), policy(0, 1000));
    let acts = s.drive(&vec![Event::Start, Event::LaunchSucceeded, Event::LaunchSucceeded]);
    assert_eq!(acts, vec![Action::Launch(Service::Model), Action::Launch(Service::Backend), Action::Reveal]);
    assert_eq!(s.stage, Stage::Ready);
}

#[test]
fn unexpected_events_are_ignored() {
    let mut s = Sequencer::new(policy(3, 1000), policy(3, 1000));
    assert_eq!(s.step(Event::ProbeAlive), Action::Idle);
    assert_eq!(s.stage, Stage::NotStarted);
    s.step(Event::Start);
    assert_eq!(s.step(Event::Start), Action::Idle);
    assert_eq!(s.stage, Stage::LaunchingModel);
}

#[test]
fn backend_healthy_on_first_probe_reveals() {
    let mut s = Sequencer::new(policy(3, 1000), policy(3, 250));
    let acts = s.drive(&vec![
        Event::Start,
        Event::LaunchSucceeded,
        Event::ProbeAlive,
        Event::LaunchSucceeded,
        Event::ProbeAlive,
    ]);
    assert_eq!(acts[3], Action::Probe { service: Service::Backend, wait_ms: 250 });
    assert_eq!(acts[4], Action::Reveal);
    assert_eq!(s.step(Event::ProbeDead), Action::Idle);
}

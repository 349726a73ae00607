use supervisor::lifecycle::{Directive, Lifecycle, Startup, UiEvent, Window};
use supervisor::registry::Registry;
use supervisor::sequencer::{Action, Event, Failure, ProbePolicy, Sequencer, Service};

#[test]
fn close_request_hides_and_keeps_processes() {
    let mut l = Lifecycle::new();
    let mut r: Registry<u32> = Registry::new();
    r.set("ollama".to_string(), 1);
    l.on_startup(&mut r, Action::Reveal);
    assert_eq!(l.window, Window::Shown);
    assert!(matches!(l.on_ui_event(&mut r, UiEvent::CloseRequested), Directive::HideWindow));
    assert_eq!(l.window, Window::Hidden);
    assert_eq!(r.get(&"ollama".to_string()), Some(&1));
    assert_eq!(l.exit_code, None);
}

#[test]
fn open_before_ready_does_not_show() {
    let mut l = Lifecycle::new();
    let mut r: Registry<u32> = Registry::new();
    assert!(matches!(l.on_ui_event(&mut r, UiEvent::TrayOpen), Directive::Nothing));
    assert_eq!(l.window, Window::Hidden);
    l.on_startup(&mut r, Action::Reveal);
    l.on_ui_event(&mut r, UiEvent::CloseRequested);
    assert!(matches!(l.on_ui_event(&mut r, UiEvent::TrayOpen), Directive::ShowWindow));
    assert_eq!(l.window, Window::Shown);
}

#[test]
fn quit_terminates_all_and_exits_zero() {
    let mut l = Lifecycle::new();
    let mut r: Registry<u32> = Registry::new();
    r.set("ollama".to_string(), 1);
    r.set("backend".to_string(), 2);
    match l.on_ui_event(&mut r, UiEvent::TrayQuit) {
        Directive::Exit { code, terminate } => {
            assert_eq!(code, 0);
            assert_eq!(terminate.len(), 2);
        }
        _ => panic!("quit must exit"),
    }
    assert_eq!(r.len(), 0);
    assert_eq!(l.exit_code, Some(0));
    assert!(matches!(l.on_ui_event(&mut r, UiEvent::TrayQuit), Directive::Nothing));
}

#[test]
fn abort_exits_nonzero_and_never_shows() {
    let mut l = Lifecycle::new();
    let mut r: Registry<u32> = Registry::new();
    r.set("ollama".to_string(), 1);
    assert!(matches!(l.on_startup(&mut r, Action::Launch(Service::Backend)), Directive::Nothing));
    match l.on_startup(&mut r, Action::Abort(Failure::BackendLaunch)) {
        Directive::Exit { code, terminate } => {
            assert_eq!(code, 1);
            assert_eq!(terminate.len(), 1);
            assert_eq!(terminate[0].handle, 1);
        }
        _ => panic!("abort must exit"),
    }
    assert_eq!(l.startup, Startup::Failed);
    assert!(matches!(l.on_ui_event(&mut r, UiEvent::TrayOpen), Directive::Nothing));
    assert!(matches!(l.on_startup(&mut r, Action::Reveal), Directive::Nothing));
    assert_eq!(l.window, Window::Hidden);
    assert_eq!(l.exit_code, Some(1));
}

#[test]
fn tray_events_during_startup_do_not_reorder_launches() {
    let p = ProbePolicy { max_attempts: 2, interval_ms: 10 };
    let mut seq = Sequencer::new(p, p);
    let mut l = Lifecycle::new();
    let mut r: Registry<u32> = Registry::new();
    let mut launches: Vec<Service> = Vec::new();
    let events = [Event::Start, Event::LaunchSucceeded, Event::ProbeDead, Event::ProbeDead, Event::LaunchSucceeded];
    for (n, ev) in events.iter().enumerate() {
        l.on_ui_event(&mut r, UiEvent::TrayOpen);
        l.on_ui_event(&mut r, UiEvent::CloseRequested);
        if let Action::Launch(s) = seq.step(*ev) {
            if s == Service::Model {
                r.set("ollama".to_string(), n as u32);
            }
            launches.push(s);
        }
        assert_eq!(l.window, Window::Hidden);
    }
    assert_eq!(launches, vec![Service::Model, Service::Backend]);
    assert_eq!(r.get(&"ollama".to_string()), Some(&0));
}

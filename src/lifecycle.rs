//! The lifecycle controller: maps tray and window events, and the outcome of
//! startup, onto window visibility, the process registry and the exit of
//! the application.

use vstd::prelude::*;
use crate::registry::{Registry, Slot, slots_map, names_distinct};
use crate::sequencer::{Action, Event, Sequencer, Stage, run, lemma_backend_launch_failure_is_fatal};

verus! {

#[derive(Clone, Copy, PartialEq, Eq, Debug, Structural)]
pub enum Window {
    Hidden,
    Shown,
}

/// What the controller knows of the startup sequence.
#[derive(Clone, Copy, PartialEq, Eq, Debug, Structural)]
pub enum Startup {
    Pending,
    Ready,
    Failed,
}

/// Events raised by the tray menu and the main window.
#[derive(Clone, Copy, PartialEq, Eq, Debug, Structural)]
pub enum UiEvent {
    TrayOpen,
    TrayQuit,
    CloseRequested,
}

/// What the UI layer is to do.
pub enum Directive<H> {
    ShowWindow,
    /// Hide the window and suppress the close: the window is not destroyed.
    HideWindow,
    /// Terminate each of `terminate` (a failure does not stop the others),
    /// then end the application with status `code`.
    Exit { code: i32, terminate: Vec<Slot<H>> },
    Nothing,
}

/// The state of the controller. Once `exit_code` is set, the application is
/// ending and no event reveals the window or starts another exit.
#[derive(Clone, Copy, PartialEq, Eq, Debug, Structural)]
pub struct Lifecycle {
    pub window: Window,
    pub startup: Startup,
    pub exit_code: Option<i32>,
}

/// The status with which a failed startup ends the application.
pub const STARTUP_FAILURE_STATUS: i32 = 1;

/// The status with which a quit from the tray ends the application.
pub const QUIT_STATUS: i32 = 0;

pub open spec fn ui_next(l: Lifecycle, ev: UiEvent) -> Lifecycle {
    match ev {
        UiEvent::CloseRequested => Lifecycle { window: Window::Hidden, ..l },
        UiEvent::TrayOpen => if l.exit_code is None && l.startup == Startup::Ready {
            Lifecycle { window: Window::Shown, ..l }
        } else {
            l
        },
        UiEvent::TrayQuit => if l.exit_code is None {
            Lifecycle { exit_code: Some(QUIT_STATUS), ..l }
        } else {
            l
        },
    }
}

pub open spec fn startup_next(l: Lifecycle, a: Action) -> Lifecycle {
    if l.exit_code is Some {
        l
    } else {
        match a {
            Action::Reveal => Lifecycle { window: Window::Shown, startup: Startup::Ready, ..l },
            Action::Abort(_) => Lifecycle {
                window: Window::Hidden,
                startup: Startup::Failed,
                exit_code: Some(STARTUP_FAILURE_STATUS),
            },
            _ => l,
        }
    }
}

/// The drained entries of a registry: each of its handles, once.
pub open spec fn drains<H>(terminate: Seq<Slot<H>>, m: Map<Seq<char>, H>) -> bool {
    &&& names_distinct(terminate)
    &&& slots_map(terminate) == m
    &&& m.dom().finite()
    &&& terminate.len() == m.dom().len()
}

impl Lifecycle {
    /// The window is shown only once startup is ready.
    pub open spec fn wf(&self) -> bool {
        self.window == Window::Shown ==> self.startup == Startup::Ready
    }

    /// The controller before startup.
    pub open spec fn initial() -> Lifecycle {
        Lifecycle { window: Window::Hidden, startup: Startup::Pending, exit_code: None }
    }

    /// Before startup: window hidden, no exit requested.
    pub fn new() -> (r: Self)
        ensures
            r.wf(),
            r == Lifecycle::initial(),
    {
        Lifecycle { window: Window::Hidden, startup: Startup::Pending, exit_code: None }
    }

    /// Handles a tray or window event. Opening shows the window once startup
    /// is ready; quitting drains the registry for termination and exits with
    /// status 0; a close request hides the window and leaves the registry
    /// as it is.
    pub fn on_ui_event<H>(&mut self, registry: &mut Registry<H>, ev: UiEvent) -> (r: Directive<H>)
        requires
            old(self).wf(),
            old(registry).wf(),
        ensures
            final(self).wf(),
            final(registry).wf(),
            *final(self) == ui_next(*old(self), ev),
            ev == UiEvent::CloseRequested ==> r is HideWindow && final(self).window == Window::Hidden,
            ev == UiEvent::TrayOpen ==> (r is ShowWindow <==> final(self).window == Window::Shown
                && old(self).exit_code is None),
            ev == UiEvent::TrayOpen ==> (r is ShowWindow || r is Nothing),
            ev == UiEvent::TrayQuit && old(self).exit_code is None ==> final(registry)@ == Map::<Seq<char>, H>::empty()
                && (r matches Directive::Exit { code, terminate } && code == QUIT_STATUS
                && drains(terminate@, old(registry)@)),
            ev == UiEvent::TrayQuit && old(self).exit_code is Some ==> r is Nothing,
            !(ev == UiEvent::TrayQuit && old(self).exit_code is None) ==> *final(registry) == *old(registry),
    {
        match ev {
            UiEvent::CloseRequested => {
                self.window = Window::Hidden;
                Directive::HideWindow
            },
            UiEvent::TrayOpen => {
                if self.exit_code.is_none() && self.startup == Startup::Ready {
                    self.window = Window::Shown;
                    Directive::ShowWindow
                } else {
                    Directive::Nothing
                }
            },
            UiEvent::TrayQuit => {
                if self.exit_code.is_none() {
                    self.exit_code = Some(QUIT_STATUS);
                    let terminate = registry.terminate_all();
                    Directive::Exit { code: QUIT_STATUS, terminate }
                } else {
                    Directive::Nothing
                }
            },
        }
    }

    /// Handles what the startup sequencer reports. `Reveal` marks startup
    /// ready and shows the window; `Abort` keeps the window hidden, drains
    /// the registry for termination and exits with status 1. The other
    /// actions are not addressed to the controller.
    pub fn on_startup<H>(&mut self, registry: &mut Registry<H>, a: Action) -> (r: Directive<H>)
        requires
            old(self).wf(),
            old(registry).wf(),
        ensures
            final(self).wf(),
            final(registry).wf(),
            *final(self) == startup_next(*old(self), a),
            old(self).exit_code is None && a == Action::Reveal ==> r is ShowWindow,
            old(self).exit_code is None && a is Abort ==> final(registry)@ == Map::<Seq<char>, H>::empty()
                && (r matches Directive::Exit { code, terminate } && code == STARTUP_FAILURE_STATUS
                && drains(terminate@, old(registry)@)),
            !(old(self).exit_code is None && a is Abort) ==> *final(registry) == *old(registry),
            !(old(self).exit_code is None && (a is Abort || a == Action::Reveal)) ==> r is Nothing,
    {
        if self.exit_code.is_some() {
            return Directive::Nothing;
        }
        match a {
            Action::Reveal => {
                self.startup = Startup::Ready;
                self.window = Window::Shown;
                Directive::ShowWindow
            },
            Action::Abort(_) => {
                self.window = Window::Hidden;
                self.startup = Startup::Failed;
                self.exit_code = Some(STARTUP_FAILURE_STATUS);
                let terminate = registry.terminate_all();
                Directive::Exit { code: STARTUP_FAILURE_STATUS, terminate }
            },
            _ => Directive::Nothing,
        }
    }
}

/// One input of the controller: a UI event or a report of the sequencer.
#[derive(Clone, Copy, PartialEq, Eq, Debug, Structural)]
pub enum Input {
    Ui(UiEvent),
    Startup(Action),
}

pub open spec fn input_next(l: Lifecycle, i: Input) -> Lifecycle {
    match i {
        Input::Ui(ev) => ui_next(l, ev),
        Input::Startup(a) => startup_next(l, a),
    }
}

/// The controller's state after `ins`, in order.
pub open spec fn observe(l: Lifecycle, ins: Seq<Input>) -> Lifecycle
    decreases ins.len(),
{
    if ins.len() == 0 {
        l
    } else {
        input_next(observe(l, ins.drop_last()), ins.last())
    }
}

/// Without a report that startup is ready, no interleaving of tray and
/// window events ever shows the window, at any point of the stream.
pub proof fn lemma_never_shown_before_ready(l: Lifecycle, ins: Seq<Input>)
    requires
        l.startup != Startup::Ready,
        l.window == Window::Hidden,
        forall|i: int| 0 <= i < ins.len() ==> #[trigger] ins[i] != Input::Startup(Action::Reveal),
    ensures
        observe(l, ins).window == Window::Hidden,
        observe(l, ins).startup != Startup::Ready,
    decreases ins.len(),
{
    if ins.len() > 0 {
        let d = ins.drop_last();
        assert forall|i: int| 0 <= i < d.len() implies #[trigger] d[i] != Input::Startup(Action::Reveal) by {
            assert(d[i] == ins[i]);
        }
        assert(ins.last() == ins[ins.len() - 1]);
        lemma_never_shown_before_ready(l, d);
    }
}

/// A startup failure ends the application with a non-zero status: from a
/// controller that has not begun to exit, any stream of inputs that reports
/// an abort and holds no quit from the tray leaves the exit status at 1.
pub proof fn lemma_abort_exits_nonzero(l: Lifecycle, ins: Seq<Input>)
    requires
        l.exit_code is None,
        forall|i: int| 0 <= i < ins.len() ==> #[trigger] ins[i] != Input::Ui(UiEvent::TrayQuit),
    ensures
        (exists|i: int| 0 <= i < ins.len() && #[trigger] ins[i] matches Input::Startup(Action::Abort(_)))
            ==> observe(l, ins).exit_code == Some(STARTUP_FAILURE_STATUS),
        !(exists|i: int| 0 <= i < ins.len() && #[trigger] ins[i] matches Input::Startup(Action::Abort(_)))
            ==> observe(l, ins).exit_code is None,
    decreases ins.len(),
{
    if ins.len() > 0 {
        let d = ins.drop_last();
        assert forall|i: int| 0 <= i < d.len() implies #[trigger] d[i] != Input::Ui(UiEvent::TrayQuit) by {
            assert(d[i] == ins[i]);
        }
        lemma_abort_exits_nonzero(l, d);
        let n = ins.len() - 1;
        assert(ins.last() == ins[n]);
        if exists|i: int| 0 <= i < d.len() && #[trigger] d[i] matches Input::Startup(Action::Abort(_)) {
            let i = choose|i: int| 0 <= i < d.len() && #[trigger] d[i] matches Input::Startup(Action::Abort(_));
            assert(ins[i] == d[i]);
        }
        if exists|i: int| 0 <= i < ins.len() && #[trigger] ins[i] matches Input::Startup(Action::Abort(_)) {
            let i = choose|i: int| 0 <= i < ins.len() && #[trigger] ins[i] matches Input::Startup(Action::Abort(_));
            if i < n {
                assert(d[i] == ins[i]);
            }
        } else {
            assert forall|i: int| 0 <= i < d.len() implies !(#[trigger] d[i] matches Input::Startup(Action::Abort(_))) by {
                assert(d[i] == ins[i]);
            }
        }
    }
}

/// A failed launch of the backend ends the application with status 1 and
/// never shows the window: take a run that has reached the backend's launch
/// and then learns that the launch failed. Whatever tray and window events
/// (short of a quit) are interleaved with that run's reports, as long as its
/// final report reaches the controller, the window stays hidden throughout
/// and the exit status is 1.
pub proof fn lemma_backend_failure_ends_hidden(s: Sequencer, evs: Seq<Event>, ins: Seq<Input>)
    requires
        s.stage == Stage::NotStarted,
        run(s, evs).0.stage == Stage::LaunchingBackend,
        forall|i: int| 0 <= i < ins.len() ==> #[trigger] ins[i] != Input::Ui(UiEvent::TrayQuit),
        forall|i: int| 0 <= i < ins.len() && #[trigger] ins[i] is Startup ==> exists|j: int|
            0 <= j < run(s, evs.push(Event::LaunchFailed)).1.len()
                && ins[i] == Input::Startup(#[trigger] run(s, evs.push(Event::LaunchFailed)).1[j]),
        exists|i: int| 0 <= i < ins.len()
            && #[trigger] ins[i] == Input::Startup(run(s, evs.push(Event::LaunchFailed)).1.last()),
    ensures
        observe(Lifecycle::initial(), ins).window == Window::Hidden,
        observe(Lifecycle::initial(), ins).exit_code == Some(STARTUP_FAILURE_STATUS),
{
    let acts = run(s, evs.push(Event::LaunchFailed)).1;
    lemma_backend_launch_failure_is_fatal(s, evs);
    assert forall|i: int| 0 <= i < ins.len() implies #[trigger] ins[i] != Input::Startup(Action::Reveal) by {
        if ins[i] is Startup {
            let j = choose|j: int| 0 <= j < acts.len() && ins[i] == Input::Startup(#[trigger] acts[j]);
            assert(acts[j] != Action::Reveal);
        }
    }
    lemma_never_shown_before_ready(Lifecycle::initial(), ins);
    let k = choose|i: int| 0 <= i < ins.len() && #[trigger] ins[i] == Input::Startup(acts.last());
    assert(ins[k] matches Input::Startup(Action::Abort(_)));
    lemma_abort_exits_nonzero(Lifecycle::initial(), ins);
}

} // verus!

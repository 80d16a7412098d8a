//! The decisions of the running daemon: what a reload changes, what a key
//! press does, and when the loops stop.

use vstd::prelude::*;
use crate::keys::{Hotkey, HotkeyView};
use crate::registry::{Action, ActionView, Registry, RegistryError};

verus! {

/// The pause of the heartbeat loop, in milliseconds.
pub const HEARTBEAT_MS: u64 = 2000;

/// The pause between two reloads, in milliseconds, where none is chosen.
pub const DEFAULT_RELOAD_MS: u64 = 5000;

/// What a loop does next.
#[derive(Clone, Copy, Debug, PartialEq, Eq, Structural)]
pub enum Step {
    /// Sleep for so many milliseconds, then go round again.
    Wait(u64),
    /// Return.
    Exit,
}

/// The next step of the heartbeat loop, from the termination signal as it
/// was just read.
pub fn heartbeat_step(signal: bool) -> (r: Step)
    ensures
        r == if signal {
            Step::Exit
        } else {
            Step::Wait(HEARTBEAT_MS)
        },
{
    if signal {
        Step::Exit
    } else {
        Step::Wait(HEARTBEAT_MS)
    }
}

/// What the reload loop holds: the registry that is live, and the
/// termination signal as far as this loop knows it.
#[derive(Debug)]
pub struct Supervisor {
    pub active: Option<Registry>,
    pub signal: bool,
    pub reload_ms: u64,
}

pub struct SupervisorView {
    pub active: Option<Map<HotkeyView, ActionView>>,
    pub signal: bool,
    pub reload_ms: u64,
}

impl View for Supervisor {
    type V = SupervisorView;

    open spec fn view(&self) -> SupervisorView {
        SupervisorView {
            active: match self.active {
                Some(registry) => Some(registry@),
                None => None,
            },
            signal: self.signal,
            reload_ms: self.reload_ms,
        }
    }
}

/// The outcome of a build, in contracts.
pub open spec fn outcome_view(outcome: Result<Registry, RegistryError>) -> Result<
    Map<HotkeyView, ActionView>,
    RegistryError,
> {
    match outcome {
        Ok(registry) => Ok(registry@),
        Err(e) => Err(e),
    }
}

/// The state after the first build. A failure there is fatal: the signal is
/// set at once and no registry is live.
pub open spec fn started(
    first: Result<Map<HotkeyView, ActionView>, RegistryError>,
    reload_ms: u64,
) -> SupervisorView {
    match first {
        Ok(registry) => SupervisorView { active: Some(registry), signal: false, reload_ms },
        Err(_) => SupervisorView { active: None, signal: true, reload_ms },
    }
}

/// The state after a reload. A registry that was built takes the place of
/// the live one; a failed build leaves the live one as it is. A daemon that
/// never started stays without a registry. The signal is not touched.
pub open spec fn reloaded(
    s: SupervisorView,
    outcome: Result<Map<HotkeyView, ActionView>, RegistryError>,
) -> SupervisorView {
    match (s.active, outcome) {
        (Some(_), Ok(registry)) => SupervisorView { active: Some(registry), ..s },
        _ => s,
    }
}

/// The state after a key press, and the script to run, if the press asks for
/// one. The reserved combination sets the signal and runs nothing.
pub open spec fn pressed(s: SupervisorView, hotkey: HotkeyView) -> (SupervisorView, Option<
    Seq<char>,
>) {
    match s.active {
        Some(registry) if registry.contains_key(hotkey) => match registry[hotkey] {
            ActionView::Terminate => (SupervisorView { signal: true, ..s }, None),
            ActionView::Run(script) => (s, Some(script)),
        },
        _ => (s, None),
    }
}

/// The next step of the reload loop.
pub open spec fn next_step_of(s: SupervisorView) -> Step {
    if s.signal {
        Step::Exit
    } else {
        Step::Wait(s.reload_ms)
    }
}

impl Supervisor {
    /// The live registry, where there is one, is well formed, and a daemon
    /// without a live registry has its signal set.
    pub open spec fn wf(&self) -> bool {
        match self.active {
            Some(registry) => registry.wf(),
            None => self.signal,
        }
    }

    /// The supervisor after the first build.
    pub fn start(first: Result<Registry, RegistryError>, reload_ms: u64) -> (r: Supervisor)
        requires
            first matches Ok(registry) ==> registry.wf(),
        ensures
            r.wf(),
            r@ == started(outcome_view(first), reload_ms),
            first matches Ok(registry) ==> r.active == Some(registry),
    {
        match first {
            Ok(registry) => Supervisor { active: Some(registry), signal: false, reload_ms },
            Err(_) => Supervisor { active: None, signal: true, reload_ms },
        }
    }

    /// Takes in the outcome of one reload.
    pub fn reload(&mut self, outcome: Result<Registry, RegistryError>)
        requires
            old(self).wf(),
            outcome matches Ok(registry) ==> registry.wf(),
        ensures
            final(self).wf(),
            final(self)@ == reloaded(old(self)@, outcome_view(outcome)),
    {
        if self.active.is_some() {
            match outcome {
                Ok(registry) => {
                    self.active = Some(registry);
                },
                Err(_) => {},
            }
        }
    }

    /// Takes in the termination signal as it was just read. Once set, the
    /// signal stays set.
    pub fn observe(&mut self, signal: bool)
        requires
            old(self).wf(),
        ensures
            final(self).wf(),
            final(self)@ == (SupervisorView {
                signal: old(self).signal || signal,
                ..old(self)@
            }),
    {
        if signal {
            self.signal = true;
        }
    }

    /// Takes in a key press, and hands back the script to run, if the press
    /// asks for one.
    pub fn press(&mut self, hotkey: &Hotkey) -> (r: Option<String>)
        requires
            old(self).wf(),
        ensures
            final(self).wf(),
            final(self)@ == pressed(old(self)@, hotkey@).0,
            match r {
                Some(script) => pressed(old(self)@, hotkey@).1 == Some(script@),
                None => pressed(old(self)@, hotkey@).1.is_none(),
            },
    {
        let action = match &self.active {
            Some(registry) => registry.action_for(hotkey),
            None => None,
        };
        match action {
            Some(Action::Terminate) => {
                self.signal = true;
                None
            },
            Some(Action::Run(script)) => Some(script),
            None => None,
        }
    }

    /// The next step of the reload loop: to wait for the reload interval, or
    /// to return once the signal is set.
    pub fn next_step(&self) -> (r: Step)
        ensures
            r == next_step_of(self@),
    {
        if self.signal {
            Step::Exit
        } else {
            Step::Wait(self.reload_ms)
        }
    }
}

} // verus!

//! Hook-eviction watchdog **policy**.
//!
//! Windows silently evicts a low-level hook whose callback overruns its timeout.
//! A liveness probe in the shell reports whether the hook still runs; this state
//! machine turns that stream of [`Health`] observations into actions (reinstall)
//! and the user-visible `HookEvicted` / `HookReinstalled` transitions.

use vstd::prelude::*;

use crate::messages::Report;

verus! {

/// The result of one liveness probe of the installed hooks.
#[derive(Debug, Clone, Copy, PartialEq, Eq, Structural)]
pub enum Health {
    /// The probe confirmed the hook still fires.
    Alive,
    /// The probe expired without the hook firing — assume evicted.
    Dead,
}

/// What the shell should do after an observation.
#[derive(Debug, Clone, Copy, PartialEq, Eq, Structural)]
pub enum WatchdogAction {
    /// Hook looks healthy; do nothing.
    Nothing,
    /// Hook is down; (re)install it.
    Reinstall,
}

/// One step's decision: an action plus an optional state-transition report.
#[derive(Debug, Clone, PartialEq, Eq, Structural)]
pub struct WatchdogStep {
    pub action: WatchdogAction,
    pub report: Option<Report>,
}

/// One watchdog step from the "believed alive" flag: `Dead` always asks for a
/// reinstall and reports `HookEvicted` only on the alive→dead edge; `Alive` asks
/// for nothing and reports `HookReinstalled` only on the dead→alive edge.
pub open spec fn watchdog_step(alive: bool, health: Health) -> (bool, WatchdogStep) {
    match health {
        Health::Alive => (
            true,
            WatchdogStep {
                action: WatchdogAction::Nothing,
                report: if alive {
                    None
                } else {
                    Some(Report::HookReinstalled)
                },
            },
        ),
        Health::Dead => (
            false,
            WatchdogStep {
                action: WatchdogAction::Reinstall,
                report: if alive {
                    Some(Report::HookEvicted)
                } else {
                    None
                },
            },
        ),
    }
}

/// Tracks whether the hooks are believed alive and emits edge-triggered reports.
/// Starts alive (a hook was just installed when it is constructed).
#[derive(Debug)]
pub struct Watchdog {
    alive: bool,
}

impl Default for Watchdog {
    fn default() -> (w: Self)
        ensures
            w.spec_alive(),
    {
        Watchdog { alive: true }
    }
}

impl Watchdog {
    pub closed spec fn spec_alive(&self) -> bool {
        self.alive
    }

    pub fn new() -> (w: Self)
        ensures
            w.spec_alive(),
    {
        Self::default()
    }

    /// Whether the hooks are currently believed to be alive.
    pub fn is_alive(&self) -> (r: bool)
        ensures
            r == self.spec_alive(),
    {
        self.alive
    }

    /// Fold one liveness observation into the state machine (see
    /// [`watchdog_step`]).
    pub fn observe(&mut self, health: Health) -> (step: WatchdogStep)
        ensures
            (final(self).spec_alive(), step) == watchdog_step(old(self).spec_alive(), health),
    {
        match health {
            Health::Alive => {
                let report = if !self.alive {
                    self.alive = true;
                    Some(Report::HookReinstalled)
                } else {
                    None
                };
                WatchdogStep { action: WatchdogAction::Nothing, report }
            },
            Health::Dead => {
                let report = if self.alive {
                    self.alive = false;
                    Some(Report::HookEvicted)
                } else {
                    None
                };
                WatchdogStep { action: WatchdogAction::Reinstall, report }
            },
        }
    }
}

/// Reports are edge-triggered: a run of identical observations reports at most
/// once, on its first step, and a dead hook is asked to be reinstalled on every
/// probe until it recovers.
pub proof fn lemma_watchdog_reports_only_on_edges(alive: bool, health: Health)
    ensures
        ({
            let (alive1, step) = watchdog_step(alive, health);
            &&& step.report is Some <==> alive != alive1
            &&& (step.action == WatchdogAction::Reinstall) <==> health == Health::Dead
            &&& alive1 == (health == Health::Alive)
            &&& watchdog_step(alive1, health).1.report is None
        }),
{
}

} // verus!

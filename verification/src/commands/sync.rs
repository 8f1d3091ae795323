//! The loop that keeps the two installations in step: a pass links the
//! scripts, then reconciles the save files, and the passes repeat.

use crate::cfg::Cfg;
use vstd::prelude::*;

verus! {

/// Seconds between two passes.
pub const SYNC_INTERVAL_SECONDS: u64 = 1;

/// Where the loop stands.
#[derive(Clone, Copy, Debug, PartialEq, Eq)]
pub enum SyncPhase {
    /// The scripts are being linked.
    Linking,
    /// The save files are being reconciled.
    Syncing,
    /// The pass is over, and the next has not begun.
    Sleeping,
    /// The loop has ended.
    Finished,
}

/// What the loop is told.
#[derive(Clone, Copy, Debug, PartialEq, Eq)]
pub enum SyncEvent {
    /// The part of the pass that was asked for was gone through; `ok` is
    /// `false` if something failed in it.
    Done { ok: bool },
    /// The time asked for has passed.
    Slept,
}

/// What the loop asks for.
#[derive(Clone, Copy, Debug, PartialEq, Eq)]
pub enum SyncStep {
    /// Link the scripts; `silent` if the single links are not to be told.
    LinkScripts { silent: bool },
    /// Reconcile the save files.
    SyncSaves,
    /// Let so many seconds pass.
    Sleep { seconds: u64 },
    /// Nothing more.
    Stop,
}

/// A loop of passes.
#[derive(Clone, Copy, Debug, PartialEq, Eq)]
pub struct SyncLoop {
    /// Whether the passes repeat until the tool is stopped.
    pub forever: bool,
    /// Whether a pass links the scripts.
    pub links: bool,
    /// Whether a pass reconciles the save files.
    pub saves: bool,
    pub phase: SyncPhase,
}

/// Why the save files cannot be reconciled at all.
#[derive(Clone, Copy, Debug, PartialEq, Eq)]
pub enum SyncSetupError {
    /// The configuration names no second installation.
    NoSecondInstallation,
}

/// The phase that ends a pass.
pub open spec fn end_of_pass(forever: bool) -> SyncPhase {
    if forever {
        SyncPhase::Sleeping
    } else {
        SyncPhase::Finished
    }
}

/// The phase that begins a pass.
pub open spec fn begin_of_pass(forever: bool, links: bool, saves: bool) -> SyncPhase {
    if links {
        SyncPhase::Linking
    } else if saves {
        SyncPhase::Syncing
    } else {
        end_of_pass(forever)
    }
}

/// What a phase waits to have done.
pub open spec fn awaited_step(forever: bool, phase: SyncPhase) -> SyncStep {
    match phase {
        SyncPhase::Linking => SyncStep::LinkScripts { silent: forever },
        SyncPhase::Syncing => SyncStep::SyncSaves,
        SyncPhase::Sleeping => SyncStep::Sleep { seconds: SYNC_INTERVAL_SECONDS },
        SyncPhase::Finished => SyncStep::Stop,
    }
}

impl SyncLoop {
    /// The loop after an event. A single pass ends at its first failure; a
    /// loop that runs forever goes on whatever fails. An event that the
    /// phase does not wait for changes nothing.
    pub open spec fn after(&self, event: SyncEvent) -> SyncLoop {
        let phase = match (self.phase, event) {
            (SyncPhase::Linking, SyncEvent::Done { ok }) => if !ok && !self.forever {
                SyncPhase::Finished
            } else if self.saves {
                SyncPhase::Syncing
            } else {
                end_of_pass(self.forever)
            },
            (SyncPhase::Syncing, SyncEvent::Done { ok }) => end_of_pass(self.forever),
            (SyncPhase::Sleeping, SyncEvent::Slept) => begin_of_pass(
                self.forever,
                self.links,
                self.saves,
            ),
            _ => self.phase,
        };
        SyncLoop { phase, ..*self }
    }

    /// A loop whose passes link the scripts if `links` and reconcile the
    /// save files if `saves`, once or, if `forever`, again and again.
    pub fn begin(forever: bool, links: bool, saves: bool) -> (begun: (SyncLoop, SyncStep))
        ensures
            begun.0 == (SyncLoop {
                forever,
                links,
                saves,
                phase: begin_of_pass(forever, links, saves),
            }),
            begun.1 == awaited_step(forever, begun.0.phase),
    {
        let phase = if links {
            SyncPhase::Linking
        } else if saves {
            SyncPhase::Syncing
        } else if forever {
            SyncPhase::Sleeping
        } else {
            SyncPhase::Finished
        };
        let begun = SyncLoop { forever, links, saves, phase };
        (begun, begun.pending())
    }

    /// What the loop waits to have done.
    pub fn pending(&self) -> (step: SyncStep)
        ensures
            step == awaited_step(self.forever, self.phase),
    {
        match self.phase {
            SyncPhase::Linking => SyncStep::LinkScripts { silent: self.forever },
            SyncPhase::Syncing => SyncStep::SyncSaves,
            SyncPhase::Sleeping => SyncStep::Sleep { seconds: SYNC_INTERVAL_SECONDS },
            SyncPhase::Finished => SyncStep::Stop,
        }
    }

    /// Takes in an event and says what is to be done next.
    pub fn step(self, event: SyncEvent) -> (next: (SyncLoop, SyncStep))
        ensures
            next.0 == self.after(event),
            next.1 == awaited_step(self.forever, self.after(event).phase),
    {
        let end = if self.forever {
            SyncPhase::Sleeping
        } else {
            SyncPhase::Finished
        };
        let phase = match (self.phase, event) {
            (SyncPhase::Linking, SyncEvent::Done { ok }) => {
                if !ok && !self.forever {
                    SyncPhase::Finished
                } else if self.saves {
                    SyncPhase::Syncing
                } else {
                    end
                }
            },
            (SyncPhase::Syncing, SyncEvent::Done { ok }) => end,
            (SyncPhase::Sleeping, SyncEvent::Slept) => {
                if self.links {
                    SyncPhase::Linking
                } else if self.saves {
                    SyncPhase::Syncing
                } else {
                    end
                }
            },
            _ => self.phase,
        };
        let next = SyncLoop { phase, ..self };
        (next, next.pending())
    }
}

/// A loop that runs forever never ends of itself, whatever fails in its
/// passes.
pub proof fn lemma_forever_never_finishes(state: SyncLoop, event: SyncEvent)
    requires
        state.forever,
        !(state.phase is Finished),
    ensures
        !(state.after(event).phase is Finished),
        state.after(event).forever,
{
}

/// The loop that links the scripts and reconciles the save files again and
/// again. The save files are left out where the configuration names no
/// second installation.
pub fn sync(cfg: &Cfg) -> (begun: (SyncLoop, SyncStep))
    ensures
        begun.0 == (SyncLoop {
            forever: true,
            links: true,
            saves: cfg.no_client_dll_dir is Some,
            phase: SyncPhase::Linking,
        }),
        begun.1 == (SyncStep::LinkScripts { silent: true }),
{
    SyncLoop::begin(true, true, cfg.no_client_dll_dir.is_some())
}

} // verus!

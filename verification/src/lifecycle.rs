//! The update lifecycle as an explicit state machine.
//!
//! The install handoff spawns the installer and then unconditionally exits
//! the host process; modelling it as a terminal transition makes the point
//! of no return a visible state rather than an exit call buried in a
//! handler. The caller performs the outside work for each state and feeds
//! the outcome back as an event.

use vstd::prelude::*;

verus! {

/// Where one pass of the updater stands.
#[derive(Clone, Copy, PartialEq, Eq, Structural, Debug)]
pub enum UpdatePhase {
    Idle,
    Checking,
    Downloading,
    ReadyToInstall,
    Installing,
    Exited,
}

/// What the caller observed while serving the current phase.
#[derive(Clone, Copy, PartialEq, Eq, Structural, Debug)]
pub enum UpdateEvent {
    StartCheck,
    UpdateFound,
    NoUpdate,
    CheckFailed,
    DownloadSucceeded,
    DownloadFailed,
    StartInstall,
    SpawnFailed,
    SpawnSucceeded,
}

/// The transition relation: any event not listed for a phase leaves the
/// phase unchanged.
pub open spec fn spec_step(phase: UpdatePhase, event: UpdateEvent) -> UpdatePhase {
    match (phase, event) {
        (UpdatePhase::Idle, UpdateEvent::StartCheck) => UpdatePhase::Checking,
        (UpdatePhase::Checking, UpdateEvent::UpdateFound) => UpdatePhase::Downloading,
        (UpdatePhase::Checking, UpdateEvent::NoUpdate) => UpdatePhase::Idle,
        (UpdatePhase::Checking, UpdateEvent::CheckFailed) => UpdatePhase::Idle,
        (UpdatePhase::Downloading, UpdateEvent::DownloadSucceeded) => UpdatePhase::ReadyToInstall,
        (UpdatePhase::Downloading, UpdateEvent::DownloadFailed) => UpdatePhase::Idle,
        (UpdatePhase::ReadyToInstall, UpdateEvent::StartInstall) => UpdatePhase::Installing,
        (UpdatePhase::Installing, UpdateEvent::SpawnFailed) => UpdatePhase::ReadyToInstall,
        (UpdatePhase::Installing, UpdateEvent::SpawnSucceeded) => UpdatePhase::Exited,
        _ => phase,
    }
}

/// Advance the lifecycle by one observed event.
pub fn lifecycle_step(phase: UpdatePhase, event: UpdateEvent) -> (next: UpdatePhase)
    ensures
        next == spec_step(phase, event),
{
    match (phase, event) {
        (UpdatePhase::Idle, UpdateEvent::StartCheck) => UpdatePhase::Checking,
        (UpdatePhase::Checking, UpdateEvent::UpdateFound) => UpdatePhase::Downloading,
        (UpdatePhase::Checking, UpdateEvent::NoUpdate) => UpdatePhase::Idle,
        (UpdatePhase::Checking, UpdateEvent::CheckFailed) => UpdatePhase::Idle,
        (UpdatePhase::Downloading, UpdateEvent::DownloadSucceeded) => UpdatePhase::ReadyToInstall,
        (UpdatePhase::Downloading, UpdateEvent::DownloadFailed) => UpdatePhase::Idle,
        (UpdatePhase::ReadyToInstall, UpdateEvent::StartInstall) => UpdatePhase::Installing,
        (UpdatePhase::Installing, UpdateEvent::SpawnFailed) => UpdatePhase::ReadyToInstall,
        (UpdatePhase::Installing, UpdateEvent::SpawnSucceeded) => UpdatePhase::Exited,
        (p, _) => p,
    }
}

/// Once the host process has exited, no event changes anything.
pub proof fn lemma_exited_terminal(event: UpdateEvent)
    ensures
        spec_step(UpdatePhase::Exited, event) == UpdatePhase::Exited,
{
}

/// The exit is reached only through a successful installer spawn: the one
/// irreversible transition has a single door.
pub proof fn lemma_point_of_no_return(phase: UpdatePhase, event: UpdateEvent)
    ensures
        spec_step(phase, event) == UpdatePhase::Exited ==> phase == UpdatePhase::Exited || (phase
            == UpdatePhase::Installing && event == UpdateEvent::SpawnSucceeded),
{
}

/// An install only starts from a fully downloaded artifact.
pub proof fn lemma_install_needs_download(phase: UpdatePhase, event: UpdateEvent)
    ensures
        spec_step(phase, event) == UpdatePhase::Installing ==> phase == UpdatePhase::Installing
            || (phase == UpdatePhase::ReadyToInstall && event == UpdateEvent::StartInstall),
{
}

} // verus!

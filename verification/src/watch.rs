//! Watching a directory for changes, resiliently: the decisions of the watch
//! loop. The directory may not exist yet, or be deleted and recreated; the
//! watch then keeps retrying instead of giving up, and a burst of changes is
//! reported once, after a quiet spell.
//!
//! The caller performs each action and reports what happened as the next event.
use vstd::prelude::*;

verus! {

/// Wait before trying again to set up the watch (ms).
pub const RETRY_MS: u64 = 5000;

/// Quiet time that ends a burst of changes (ms).
pub const DEBOUNCE_MS: u64 = 400;

/// Idle time after which the directory is checked again (ms).
pub const REVALIDATE_MS: u64 = 30000;

/// Whether the watch is set up.
#[derive(PartialEq, Eq, Structural, Clone, Copy)]
pub enum WatchPhase {
    /// No watch: (re)establishing it.
    Unarmed,
    /// Watching the directory.
    Armed,
}

/// What happened since the last action.
#[derive(PartialEq, Eq, Structural, Clone, Copy)]
pub enum WatchEvent {
    /// The loop starts.
    Begin,
    /// The wait of a `Sleep` is over.
    Slept,
    /// Answer to `CheckDir`: the directory exists.
    DirPresent(bool),
    /// Answer to `StartWatch`: the watcher was created and watches the directory.
    WatchStarted(bool),
    /// A change arrived during a `Wait`.
    Changed,
    /// A `Wait` ended with no change.
    Quiet,
    /// The watcher stopped delivering (its channel closed).
    Closed,
    /// A `DrainAndEmit` is done.
    Emitted,
}

/// What to do next.
#[derive(PartialEq, Eq, Structural, Clone, Copy)]
pub enum WatchAction {
    /// Check whether the directory exists.
    CheckDir,
    /// Sleep this long (ms), then report `Slept`.
    Sleep(u64),
    /// Drop any old watcher; create one on the directory, recursively.
    StartWatch,
    /// Wait up to this long (ms) for a change.
    Wait(u64),
    /// Take in changes until none arrives for this long (ms), then tell the
    /// listeners once that the directory changed, and report `Emitted`.
    DrainAndEmit(u64),
}

/// The watch loop's decision: the next phase and action after an event.
pub open spec fn watch_decision(phase: WatchPhase, event: WatchEvent) -> (WatchPhase, WatchAction) {
    match (phase, event) {
        (_, WatchEvent::Begin) => (WatchPhase::Unarmed, WatchAction::CheckDir),
        (_, WatchEvent::Slept) => (WatchPhase::Unarmed, WatchAction::CheckDir),
        (WatchPhase::Unarmed, WatchEvent::DirPresent(true)) => (
            WatchPhase::Unarmed,
            WatchAction::StartWatch,
        ),
        (WatchPhase::Unarmed, WatchEvent::DirPresent(false)) => (
            WatchPhase::Unarmed,
            WatchAction::Sleep(RETRY_MS),
        ),
        (WatchPhase::Unarmed, WatchEvent::WatchStarted(true)) => (
            WatchPhase::Armed,
            WatchAction::Wait(REVALIDATE_MS),
        ),
        (WatchPhase::Unarmed, WatchEvent::WatchStarted(false)) => (
            WatchPhase::Unarmed,
            WatchAction::Sleep(RETRY_MS),
        ),
        (WatchPhase::Unarmed, _) => (WatchPhase::Unarmed, WatchAction::CheckDir),
        (WatchPhase::Armed, WatchEvent::Changed) => (
            WatchPhase::Armed,
            WatchAction::DrainAndEmit(DEBOUNCE_MS),
        ),
        (WatchPhase::Armed, WatchEvent::Emitted) => (
            WatchPhase::Armed,
            WatchAction::Wait(REVALIDATE_MS),
        ),
        (WatchPhase::Armed, WatchEvent::Quiet) => (WatchPhase::Armed, WatchAction::CheckDir),
        (WatchPhase::Armed, WatchEvent::DirPresent(true)) => (
            WatchPhase::Armed,
            WatchAction::Wait(REVALIDATE_MS),
        ),
        (WatchPhase::Armed, WatchEvent::DirPresent(false)) => (
            WatchPhase::Unarmed,
            WatchAction::CheckDir,
        ),
        (WatchPhase::Armed, WatchEvent::Closed) => (WatchPhase::Unarmed, WatchAction::CheckDir),
        (WatchPhase::Armed, _) => (WatchPhase::Armed, WatchAction::Wait(REVALIDATE_MS)),
    }
}

/// The next phase and action of the watch loop after an event.
pub fn watch_step(phase: WatchPhase, event: WatchEvent) -> (r: (WatchPhase, WatchAction))
    ensures
        r == watch_decision(phase, event),
{
    match (phase, event) {
        (_, WatchEvent::Begin) => (WatchPhase::Unarmed, WatchAction::CheckDir),
        (_, WatchEvent::Slept) => (WatchPhase::Unarmed, WatchAction::CheckDir),
        (WatchPhase::Unarmed, WatchEvent::DirPresent(true)) => (
            WatchPhase::Unarmed,
            WatchAction::StartWatch,
        ),
        (WatchPhase::Unarmed, WatchEvent::DirPresent(false)) => (
            WatchPhase::Unarmed,
            WatchAction::Sleep(RETRY_MS),
        ),
        (WatchPhase::Unarmed, WatchEvent::WatchStarted(true)) => (
            WatchPhase::Armed,
            WatchAction::Wait(REVALIDATE_MS),
        ),
        (WatchPhase::Unarmed, WatchEvent::WatchStarted(false)) => (
            WatchPhase::Unarmed,
            WatchAction::Sleep(RETRY_MS),
        ),
        (WatchPhase::Unarmed, _) => (WatchPhase::Unarmed, WatchAction::CheckDir),
        (WatchPhase::Armed, WatchEvent::Changed) => (
            WatchPhase::Armed,
            WatchAction::DrainAndEmit(DEBOUNCE_MS),
        ),
        (WatchPhase::Armed, WatchEvent::Emitted) => (
            WatchPhase::Armed,
            WatchAction::Wait(REVALIDATE_MS),
        ),
        (WatchPhase::Armed, WatchEvent::Quiet) => (WatchPhase::Armed, WatchAction::CheckDir),
        (WatchPhase::Armed, WatchEvent::DirPresent(true)) => (
            WatchPhase::Armed,
            WatchAction::Wait(REVALIDATE_MS),
        ),
        (WatchPhase::Armed, WatchEvent::DirPresent(false)) => (
            WatchPhase::Unarmed,
            WatchAction::CheckDir,
        ),
        (WatchPhase::Armed, WatchEvent::Closed) => (WatchPhase::Unarmed, WatchAction::CheckDir),
        (WatchPhase::Armed, _) => (WatchPhase::Armed, WatchAction::Wait(REVALIDATE_MS)),
    }
}

/// Law: listeners are told of a change only when a change arrived while the
/// watch was set up.
pub proof fn lemma_emit_only_after_change(phase: WatchPhase, event: WatchEvent)
    requires
        watch_decision(phase, event).1 is DrainAndEmit,
    ensures
        phase == WatchPhase::Armed,
        event == WatchEvent::Changed,
{
}

/// Law: the watch is set up only after the directory was found and the
/// watcher started on it.
pub proof fn lemma_armed_only_when_started(event: WatchEvent)
    requires
        watch_decision(WatchPhase::Unarmed, event).0 == WatchPhase::Armed,
    ensures
        event == WatchEvent::WatchStarted(true),
{
}

/// Law: a lost directory or a closed watcher never ends the loop: the watch
/// goes back to being established, from a fresh check of the directory.
pub proof fn lemma_loss_reestablishes(event: WatchEvent)
    requires
        event == WatchEvent::DirPresent(false) || event == WatchEvent::Closed,
    ensures
        watch_decision(WatchPhase::Armed, event) == (WatchPhase::Unarmed, WatchAction::CheckDir),
{
}

/// Law: a failed attempt to set up the watch is retried after a pause.
pub proof fn lemma_failures_retry(event: WatchEvent)
    requires
        event == WatchEvent::DirPresent(false) || event == WatchEvent::WatchStarted(false),
    ensures
        watch_decision(WatchPhase::Unarmed, event) == (
            WatchPhase::Unarmed,
            WatchAction::Sleep(RETRY_MS),
        ),
{
}

} // verus!

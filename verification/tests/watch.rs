use arrow::watch::{watch_step, WatchAction, WatchEvent, WatchPhase, DEBOUNCE_MS, RETRY_MS, REVALIDATE_MS};

#[test]
fn establishes_and_retries() {
    assert!(watch_step(WatchPhase::Unarmed, WatchEvent::Begin) == (WatchPhase::Unarmed, WatchAction::CheckDir));
    assert!(
        watch_step(WatchPhase::Unarmed, WatchEvent::DirPresent(false))
            == (WatchPhase::Unarmed, WatchAction::Sleep(RETRY_MS))
    );
    assert!(watch_step(WatchPhase::Unarmed, WatchEvent::Slept) == (WatchPhase::Unarmed, WatchAction::CheckDir));
    assert!(
        watch_step(WatchPhase::Unarmed, WatchEvent::DirPresent(true))
            == (WatchPhase::Unarmed, WatchAction::StartWatch)
    );
    assert!(
        watch_step(WatchPhase::Unarmed, WatchEvent::WatchStarted(false))
            == (WatchPhase::Unarmed, WatchAction::Sleep(5000))
    );
    assert!(
        watch_step(WatchPhase::Unarmed, WatchEvent::WatchStarted(true))
            == (WatchPhase::Armed, WatchAction::Wait(REVALIDATE_MS))
    );
}

#[test]
fn debounces_and_revalidates() {
    assert!(
        watch_step(WatchPhase::Armed, WatchEvent::Changed) == (WatchPhase::Armed, WatchAction::DrainAndEmit(400))
    );
    assert_eq!(DEBOUNCE_MS, 400);
    assert!(watch_step(WatchPhase::Armed, WatchEvent::Emitted) == (WatchPhase::Armed, WatchAction::Wait(30000)));
    assert!(watch_step(WatchPhase::Armed, WatchEvent::Quiet) == (WatchPhase::Armed, WatchAction::CheckDir));
    assert!(
        watch_step(WatchPhase::Armed, WatchEvent::DirPresent(true)) == (WatchPhase::Armed, WatchAction::Wait(30000))
    );
    assert!(
        watch_step(WatchPhase::Armed, WatchEvent::DirPresent(false)) == (WatchPhase::Unarmed, WatchAction::CheckDir)
    );
    assert!(watch_step(WatchPhase::Armed, WatchEvent::Closed) == (WatchPhase::Unarmed, WatchAction::CheckDir));
}

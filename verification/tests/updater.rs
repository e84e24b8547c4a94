use notmux::updater::{
    start, step, CheckerState, Effect, Observation, Outcome, Release, UpdateStatus, Wait,
};

fn quiet() -> Observation {
    Observation { cancelled: false, manual_active: false, update_found: false, failed: false, homebrew: false }
}

fn release() -> Release {
    Release {
        version: "1.2.3".to_string(),
        asset_url: "https://example.invalid/a.tar.gz".to_string(),
        asset_name: "a.tar.gz".to_string(),
        checksum_url: None,
    }
}

/// Runs sleeps until the checker asks for something else; returns that step.
fn sleep_through(mut state: CheckerState, obs: Observation) -> (CheckerState, notmux::updater::Step, u64) {
    let mut slept = 0u64;
    loop {
        let s = step(state, obs, Outcome::Slept);
        match s.wait {
            Wait::Sleep { secs } => {
                slept += secs;
                state = s.next.clone();
            }
            _ => return (s.next.clone(), s, slept),
        }
    }
}

#[test]
fn first_check_comes_after_thirty_seconds() {
    let s = start(quiet());
    assert_eq!(s.wait, Wait::Sleep { secs: 1 });
    let (state, s, slept) = sleep_through(s.next, quiet());
    assert_eq!(slept + 1, 30);
    assert_eq!(s.wait, Wait::CheckForUpdate);
    assert_eq!(s.effects, vec![Effect::SetStatus(UpdateStatus::Checking), Effect::Notify]);
    assert_eq!(state, CheckerState::Checking);
}

#[test]
fn download_is_retried_twice_then_ready() {
    let s = step(CheckerState::Checking, quiet(), Outcome::Checked(Ok(Some(release()))));
    assert_eq!(s.wait, Wait::Download { release: release() });
    let s = step(s.next, quiet(), Outcome::Downloaded(Err("boom".to_string())));
    let (_, s, slept) = sleep_through(s.next, quiet());
    assert_eq!(slept + 1, 30);
    assert_eq!(s.wait, Wait::Download { release: release() });
    let s = step(s.next, quiet(), Outcome::Downloaded(Err("boom".to_string())));
    let (_, s, slept) = sleep_through(s.next, quiet());
    assert_eq!(slept + 1, 60);
    let s = step(s.next, quiet(), Outcome::Downloaded(Ok("/tmp/a".to_string())));
    assert_eq!(
        s.effects,
        vec![
            Effect::SetStatus(UpdateStatus::Ready { version: "1.2.3".to_string(), path: "/tmp/a".to_string() }),
            Effect::Notify,
            Effect::MarkStopped,
        ]
    );
    assert_eq!(s.next, CheckerState::Stopped);
}

#[test]
fn third_failed_download_shows_error_then_idles() {
    let s = step(CheckerState::Downloading { release: release(), attempt: 2 }, quiet(), Outcome::Downloaded(Err("x".to_string())));
    assert_eq!(s.effects, vec![Effect::SetStatus(UpdateStatus::Failed { error: "x".to_string() }), Effect::Notify]);
    let failed = Observation { failed: true, ..quiet() };
    let mut state = s.next;
    for _ in 1..60 {
        let s = step(state, failed, Outcome::Slept);
        assert_eq!(s.wait, Wait::Sleep { secs: 1 });
        assert!(s.effects.is_empty());
        state = s.next;
    }
    let s = step(state, failed, Outcome::Slept);
    assert_eq!(s.effects, vec![Effect::SetStatus(UpdateStatus::Idle), Effect::Notify]);
    assert_eq!(s.wait, Wait::Sleep { secs: 60 });
    assert_eq!(s.next, CheckerState::DailyWait { slept: 1 });
}

#[test]
fn homebrew_reports_update_without_download() {
    let brew = Observation { homebrew: true, ..quiet() };
    let s = step(CheckerState::Checking, brew, Outcome::Checked(Ok(Some(release()))));
    assert_eq!(
        s.effects,
        vec![
            Effect::SetStatus(UpdateStatus::BrewUpdate { version: "1.2.3".to_string() }),
            Effect::Notify,
            Effect::MarkStopped,
        ]
    );
    assert_eq!(s.wait, Wait::Done);
}

#[test]
fn cancellation_stops_at_next_wait() {
    let cancelled = Observation { cancelled: true, ..quiet() };
    let s = step(CheckerState::DailyWait { slept: 10 }, cancelled, Outcome::Slept);
    assert_eq!(s.effects, vec![Effect::MarkStopped]);
    assert_eq!(s.next, CheckerState::Stopped);
    let s = step(CheckerState::Stopped, quiet(), Outcome::Slept);
    assert!(s.effects.is_empty());
    assert_eq!(s.wait, Wait::Done);
}

#[test]
fn manual_check_pauses_and_found_update_stops() {
    let manual = Observation { manual_active: true, ..quiet() };
    let s = step(CheckerState::DailyWait { slept: 1440 }, manual, Outcome::Slept);
    assert_eq!(s.next, CheckerState::ManualWait);
    let found = Observation { update_found: true, ..quiet() };
    let s = step(CheckerState::ManualWait, found, Outcome::Slept);
    assert_eq!(s.effects, vec![Effect::MarkStopped]);
    let s = step(CheckerState::Checking, quiet(), Outcome::Checked(Ok(None)));
    assert_eq!(s.effects, vec![Effect::SetStatus(UpdateStatus::Idle), Effect::Notify]);
    assert_eq!(s.wait, Wait::Sleep { secs: 60 });
}

use pager_theme::transparency::{Desired, PersistAction, PersistOutcome, PersistState};

/// Drive one task the way the writer loop does, with `disk` deciding each
/// write's result; returns the outcome and the values written.
fn run_task(
    state: &mut PersistState,
    value: bool,
    rollback_value: bool,
    generation: u64,
    disk: &mut dyn FnMut(bool) -> Result<(), String>,
) -> (PersistOutcome, Vec<bool>) {
    let mut writes = Vec::new();
    loop {
        match state.next_action(value, generation) {
            PersistAction::Report(outcome) => return (outcome, writes),
            PersistAction::Write(d) => {
                writes.push(d.value);
                let result = disk(d.value);
                if let Some(outcome) = state.complete_write(d, result, rollback_value, generation) {
                    return (outcome, writes);
                }
            }
        }
    }
}

#[test]
fn coalesce_writes_only_the_latest_value() {
    let mut state = PersistState::new();
    // Three toggles register before any writer gets the lock.
    state.request(true, false, 1);
    state.request(false, true, 2);
    state.request(true, false, 3);
    let mut ok = |_v: bool| Ok(());
    let (a, wa) = run_task(&mut state, true, false, 1, &mut ok);
    let (b, wb) = run_task(&mut state, false, true, 2, &mut ok);
    let (c, wc) = run_task(&mut state, true, false, 3, &mut ok);
    assert!(matches!(a, PersistOutcome::Persisted { generation: 1, .. }));
    assert!(matches!(b, PersistOutcome::Persisted { generation: 2, .. }));
    assert!(matches!(c, PersistOutcome::Persisted { value: true, generation: 3 }));
    // Only the final desired value reached the disk, once.
    let writes: Vec<bool> = wa.into_iter().chain(wb).chain(wc).collect();
    assert_eq!(writes, vec![true]);
    assert!(state.confirmed_or(false));
    assert!(!state.is_pending());
}

#[test]
fn failure_rolls_back_to_confirmed_not_effect_local_prev() {
    let mut state = PersistState::new();
    let mut calls = 0;
    let mut disk = |value: bool| {
        calls += 1;
        if calls == 1 {
            assert!(value, "first write should be true");
            Ok(())
        } else {
            Err("disk full".to_string())
        }
    };
    state.request(true, false, 1);
    let (ok, _) = run_task(&mut state, true, false, 1, &mut disk);
    assert!(matches!(ok, PersistOutcome::Persisted { value: true, generation: 1 }));
    assert!(state.confirmed_or(false));

    state.request(false, true, 2);
    let (fail, _) = run_task(&mut state, false, true, 2, &mut disk);
    match fail {
        PersistOutcome::Failed { rollback_value, generation: 2, error } => {
            assert!(rollback_value, "must roll back to confirmed true, not prev");
            assert_eq!(error, "disk full");
        }
        other => panic!("expected failure, got {other:?}"),
    }
    assert!(state.confirmed_or(false));
}

#[test]
fn newer_toggle_during_write_is_written_next() {
    let mut state = PersistState::new();
    state.request(true, false, 1);
    let first = match state.next_action(true, 1) {
        PersistAction::Write(d) => d,
        other => panic!("expected a write, got {other:?}"),
    };
    assert_eq!(first, Desired { value: true, generation: 1 });
    // A newer toggle lands while the write is in flight.
    state.request(false, true, 2);
    assert!(state.complete_write(first, Ok(()), false, 1).is_none());
    assert!(state.confirmed_or(false));
    match state.next_action(true, 1) {
        PersistAction::Write(d) => assert_eq!(d, Desired { value: false, generation: 2 }),
        other => panic!("expected a write, got {other:?}"),
    }
}

#[test]
fn stale_generation_does_not_replace_newer_desire() {
    let mut state = PersistState::new();
    state.request(true, false, 5);
    state.request(false, true, 3);
    assert_eq!(state.desired, Some(Desired { value: true, generation: 5 }));
    // The confirmed value was primed once, from the first request.
    assert_eq!(state.confirmed, Some(false));
    state.reset();
    assert_eq!(state.confirmed, None);
    assert!(!state.is_pending());
}

#[test]
fn failure_without_confirmed_uses_callers_rollback() {
    let mut state = PersistState::new();
    state.desired = Some(Desired { value: true, generation: 7 });
    let d = Desired { value: true, generation: 7 };
    match state.complete_write(d, Err("denied".to_string()), false, 7) {
        Some(PersistOutcome::Failed { rollback_value, generation, error }) => {
            assert!(!rollback_value);
            assert_eq!(generation, 7);
            assert_eq!(error, "denied");
        }
        other => panic!("expected failure, got {other:?}"),
    }
    assert!(!state.is_pending());
}

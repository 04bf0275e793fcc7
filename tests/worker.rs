use panacea::state::State;
use panacea::worker::{Action, Observation, Outcome, Phase, Worker};

/// Feeds the observations in turn and collects the actions.
fn drive(w: &mut Worker, obs: &[Observation]) -> Vec<Action> {
    obs.iter().map(|o| w.step(*o)).collect()
}

#[test]
fn two_handlers_succeed_without_producing() {
    let mut w = Worker::new().with_db();
    assert_eq!(w.start(), Action::ReadActiveness);
    let acts = drive(
        &mut w,
        &[
            Observation::Activeness(true),
            Observation::Fetched(true),
            Observation::Resolved(Some(2)),
            Observation::Opened(true),
            Observation::Handled(Some(0)),
            Observation::Handled(Some(0)),
            Observation::Committed(true),
            Observation::Activeness(true),
            Observation::Fetched(false),
        ],
    );
    assert_eq!(
        acts,
        vec![
            Action::Fetch,
            Action::Resolve,
            Action::Begin,
            Action::RunHandler(0),
            Action::RunHandler(1),
            Action::Commit,
            Action::Finalize(Outcome::Succeeded),
            Action::Fetch,
            Action::ReadActiveness,
        ]
    );
    assert_eq!(acts.iter().filter(|a| **a == Action::StoreProduced).count(), 0);
    assert_eq!(w.phase(), Phase::Boundary);
}

#[test]
fn second_handler_fails_after_first_produced() {
    let mut w = Worker::new().with_db();
    let acts = drive(
        &mut w,
        &[
            Observation::Activeness(true),
            Observation::Fetched(true),
            Observation::Resolved(Some(2)),
            Observation::Opened(true),
            Observation::Handled(Some(1)),
            Observation::Stored(true),
            Observation::Handled(None),
        ],
    );
    assert_eq!(
        acts,
        vec![
            Action::Fetch,
            Action::Resolve,
            Action::Begin,
            Action::RunHandler(0),
            Action::StoreProduced,
            Action::RunHandler(1),
            Action::Finalize(Outcome::Failed),
        ]
    );
    assert!(!acts.contains(&Action::Commit));
    assert_eq!(w.phase(), Phase::Boundary);
}

#[test]
fn produced_events_are_stored_one_by_one() {
    let mut w = Worker::new().with_db();
    let acts = drive(
        &mut w,
        &[
            Observation::Activeness(true),
            Observation::Fetched(true),
            Observation::Resolved(Some(1)),
            Observation::Opened(true),
            Observation::Handled(Some(3)),
            Observation::Stored(true),
            Observation::Stored(true),
            Observation::Stored(true),
            Observation::Committed(true),
        ],
    );
    assert_eq!(
        acts[4..].to_vec(),
        vec![
            Action::StoreProduced,
            Action::StoreProduced,
            Action::StoreProduced,
            Action::Commit,
            Action::Finalize(Outcome::Succeeded),
        ]
    );
}

#[test]
fn failed_store_fails_the_event() {
    let mut w = Worker::new().with_db();
    let acts = drive(
        &mut w,
        &[
            Observation::Activeness(true),
            Observation::Fetched(true),
            Observation::Resolved(Some(2)),
            Observation::Opened(true),
            Observation::Handled(Some(2)),
            Observation::Stored(false),
        ],
    );
    assert_eq!(acts[5], Action::Finalize(Outcome::Failed));
    assert_eq!(w.phase(), Phase::Boundary);
}

#[test]
fn event_without_handlers_is_skipped() {
    let mut w = Worker::new().with_db();
    let acts = drive(
        &mut w,
        &[Observation::Activeness(true), Observation::Fetched(true), Observation::Resolved(None)],
    );
    assert_eq!(acts, vec![Action::Fetch, Action::Resolve, Action::Finalize(Outcome::Skipped)]);
    assert!(!acts.contains(&Action::Begin));
}

#[test]
fn without_database_resolved_events_succeed() {
    let mut w = Worker::new();
    assert!(!w.has_db());
    let acts = drive(
        &mut w,
        &[Observation::Activeness(true), Observation::Fetched(true), Observation::Resolved(Some(3))],
    );
    assert_eq!(acts[2], Action::Finalize(Outcome::Succeeded));
}

#[test]
fn empty_handler_list_commits_at_once() {
    let mut w = Worker::new().with_db();
    let acts = drive(
        &mut w,
        &[
            Observation::Activeness(true),
            Observation::Fetched(true),
            Observation::Resolved(Some(0)),
            Observation::Opened(true),
            Observation::Committed(true),
        ],
    );
    assert_eq!(acts[3..].to_vec(), vec![Action::Commit, Action::Finalize(Outcome::Succeeded)]);
}

#[test]
fn stops_only_at_boundary() {
    let mut w = Worker::new().with_db();
    let acts = drive(
        &mut w,
        &[
            Observation::Activeness(true),
            Observation::Fetched(true),
            Observation::Resolved(Some(1)),
            Observation::Opened(true),
            Observation::Handled(Some(0)),
            Observation::Committed(true),
            Observation::Activeness(false),
            Observation::Activeness(true),
        ],
    );
    assert_eq!(acts[5], Action::Finalize(Outcome::Succeeded));
    assert_eq!(acts[6], Action::Stop);
    assert_eq!(acts[7], Action::Stop);
    assert_eq!(w.phase(), Phase::Stopped);
    assert_eq!(w.start(), Action::Stop);
}

#[test]
fn infrastructure_failures_halt() {
    let mut w = Worker::new().with_db();
    let acts = drive(
        &mut w,
        &[
            Observation::Activeness(true),
            Observation::Fetched(true),
            Observation::Resolved(Some(1)),
            Observation::Opened(false),
            Observation::Activeness(true),
        ],
    );
    assert_eq!(acts[3], Action::Halt);
    assert_eq!(acts[4], Action::Halt);
    assert_eq!(w.phase(), Phase::Halted);

    let mut w = Worker::new().with_db();
    let acts = drive(
        &mut w,
        &[
            Observation::Activeness(true),
            Observation::Fetched(true),
            Observation::Resolved(Some(0)),
            Observation::Opened(true),
            Observation::Committed(false),
        ],
    );
    assert_eq!(acts[4], Action::Halt);
}

#[test]
fn answer_that_does_not_fit_halts() {
    let mut w = Worker::new();
    assert_eq!(w.step(Observation::Fetched(true)), Action::Halt);
    assert_eq!(w.phase(), Phase::Halted);
}

#[test]
fn events_are_finalized_in_fetch_order() {
    let mut w = Worker::new().with_db();
    let mut obs = Vec::new();
    for _ in 0..3 {
        obs.push(Observation::Activeness(true));
        obs.push(Observation::Fetched(true));
        obs.push(Observation::Resolved(None));
    }
    let acts = drive(&mut w, &obs);
    let mut outstanding = 0;
    for a in &acts {
        match a {
            Action::Resolve => {
                assert_eq!(outstanding, 0);
                outstanding += 1;
            }
            Action::Finalize(_) => {
                assert_eq!(outstanding, 1);
                outstanding -= 1;
            }
            Action::Fetch => assert_eq!(outstanding, 0),
            _ => {}
        }
    }
    assert_eq!(acts.iter().filter(|a| **a == Action::Finalize(Outcome::Skipped)).count(), 3);
}

#[test]
fn state_changes_persist() {
    let mut s = State::new(1u32);
    *s.get_mut() += 1;
    assert_eq!(*s.get(), 2);
    *s += 1;
    assert_eq!(*s, 3);
    assert_eq!(s.into_inner(), 3);
}

#[test]
fn consumes_event_source() {
    // One pending event, no handlers resolved for it, then the flag goes down.
    let mut w = Worker::new();
    assert_eq!(w.start(), Action::ReadActiveness);
    let acts = drive(
        &mut w,
        &[
            Observation::Activeness(true),
            Observation::Fetched(true),
            Observation::Resolved(None),
            Observation::Activeness(true),
            Observation::Fetched(false),
            Observation::Activeness(false),
        ],
    );
    assert_eq!(
        acts,
        vec![
            Action::Fetch,
            Action::Resolve,
            Action::Finalize(Outcome::Skipped),
            Action::Fetch,
            Action::ReadActiveness,
            Action::Stop,
        ]
    );
    assert_eq!(w.phase(), Phase::Stopped);
}

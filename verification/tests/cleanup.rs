use witchcraft_server::logging::cleanup::{cleanup_action, CleanupAction, MAX_AGE_NANOS};

const SECOND: i128 = 1_000_000_000;

// A file written at `written`, looked at later.
fn decide(written: i128, now: i128) -> CleanupAction {
    cleanup_action(false, Some(written), now)
}

#[test]
fn delete_old_files() {
    let written = 1_700_000_000 * SECOND;
    let now = written + MAX_AGE_NANOS + 10 * SECOND;

    assert_eq!(decide(written, now), CleanupAction::Delete);
    assert_eq!(decide(written + 1, now), CleanupAction::Delete);
}

#[test]
fn preserve_new_files() {
    let written = 1_700_000_000 * SECOND;
    let now = written + MAX_AGE_NANOS - 10 * SECOND;

    assert_eq!(decide(written, now), CleanupAction::Keep);
    assert_eq!(decide(written + 1, now), CleanupAction::Keep);
}

#[test]
fn cleanup_edges() {
    let t = 1_700_000_000 * SECOND;
    assert_eq!(MAX_AGE_NANOS, 31 * 24 * 60 * 60 * SECOND);
    assert_eq!(cleanup_action(true, Some(0), t), CleanupAction::Keep);
    assert_eq!(cleanup_action(false, None, t), CleanupAction::Stop);
    assert_eq!(decide(t + SECOND, t), CleanupAction::Keep);
    assert_eq!(decide(t, t + MAX_AGE_NANOS), CleanupAction::Delete);
    assert_eq!(decide(t, t + MAX_AGE_NANOS - 1), CleanupAction::Keep);
}

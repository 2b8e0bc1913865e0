use whatstauri::wipe::{wipe_step, RemoveOutcome, WipeStep};

#[test]
fn wipe_retries_twice_then_gives_up() {
    assert_eq!(wipe_step(1, RemoveOutcome::Failed), WipeStep::Retry);
    assert_eq!(wipe_step(2, RemoveOutcome::Failed), WipeStep::Retry);
    assert_eq!(wipe_step(3, RemoveOutcome::Failed), WipeStep::GiveUp);
    assert_eq!(wipe_step(2, RemoveOutcome::NotFound), WipeStep::AlreadyGone);
    assert_eq!(wipe_step(1, RemoveOutcome::Removed), WipeStep::Wiped);
}

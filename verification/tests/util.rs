use edge_ascii::ffmpeg_encoder::{probe_wait_step, ENCODER_PROBE_SECS};
use edge_ascii::util::{
    run_succeeded, wait_step, ChildState, WaitStep, PROBE_TIMEOUT_SECS,
};

#[test]
fn a_child_that_exited_is_reported_however_late() {
    for success in [true, false] {
        for elapsed in [0, 5, 1000] {
            assert_eq!(
                wait_step(ChildState::Exited(success), elapsed, 5),
                WaitStep::Report(success)
            );
        }
    }
}

#[test]
fn a_running_child_is_killed_when_its_time_is_over() {
    assert_eq!(wait_step(ChildState::Running, 4, 5), WaitStep::Sleep(50));
    assert_eq!(wait_step(ChildState::Running, 5, 5), WaitStep::Kill);
    assert_eq!(wait_step(ChildState::Running, 6, 5), WaitStep::Kill);
}

#[test]
fn a_child_in_an_unknown_state() {
    assert_eq!(wait_step(ChildState::Unknown, 0, 5), WaitStep::Kill);
    assert_eq!(probe_wait_step(ChildState::Unknown, 9, 5), WaitStep::Abandon);
}

#[test]
fn test_runs_of_encoders_are_waited_for_in_the_same_way() {
    assert_eq!(probe_wait_step(ChildState::Running, 4, 5), WaitStep::Sleep(50));
    assert_eq!(probe_wait_step(ChildState::Running, 5, 5), WaitStep::Kill);
    assert_eq!(probe_wait_step(ChildState::Exited(true), 9, 5), WaitStep::Report(true));
    assert_eq!(PROBE_TIMEOUT_SECS, 5);
    assert_eq!(ENCODER_PROBE_SECS, 8);
}

#[test]
fn only_a_successful_run_succeeded() {
    assert!(run_succeeded(&Some((true, "noise".to_string()))));
    assert!(!run_succeeded(&Some((false, String::new()))));
    assert!(!run_succeeded(&None));
}

use rclrs_action_utils::{GoalActivity, GoalStatus, Termination};

#[test]
fn cancelling_is_reported_only_for_cancelling_goals() {
    assert!(!GoalActivity::Executing.is_cancelling());
    assert!(GoalActivity::Cancelling.is_cancelling());
    assert_eq!(GoalActivity::Executing.status(), GoalStatus::Executing);
    assert_eq!(GoalActivity::Cancelling.status(), GoalStatus::Cancelling);
}

#[test]
fn begin_cancelling_moves_only_executing_goals() {
    assert_eq!(GoalActivity::Executing.begin_cancelling(), vec![GoalStatus::Cancelling]);
    assert_eq!(GoalActivity::Cancelling.begin_cancelling(), Vec::<GoalStatus>::new());
}

#[test]
fn cancellation_can_be_rejected_only_while_executing() {
    assert!(GoalActivity::Executing.reject_cancellation());
    assert!(!GoalActivity::Cancelling.reject_cancellation());
}

#[test]
fn executing_goal_cancelled_passes_through_cancelling() {
    assert_eq!(
        GoalActivity::Executing.termination_route(Termination::Cancelled),
        vec![GoalStatus::Cancelling, GoalStatus::Cancelled]
    );
    assert_eq!(
        GoalActivity::Cancelling.termination_route(Termination::Cancelled),
        vec![GoalStatus::Cancelled]
    );
}

#[test]
fn success_and_abort_end_in_one_step() {
    for activity in [GoalActivity::Executing, GoalActivity::Cancelling] {
        assert_eq!(activity.termination_route(Termination::Succeeded), vec![GoalStatus::Succeeded]);
        assert_eq!(activity.termination_route(Termination::Aborted), vec![GoalStatus::Aborted]);
    }
}

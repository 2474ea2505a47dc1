use rclrs_action_utils::{
    serve_start, serve_step, FifoQueueInternal, GoalActivity, GoalStatus, ServeAction, ServeEvent,
    ServePhase, Termination,
};

#[test]
fn rejected_goal_is_rejected_and_stays_rejected() {
    let phase = serve_start();
    assert_eq!(phase, ServePhase::AwaitingVerdict);
    let (phase, action) = serve_step(phase, ServeEvent::Verdict(false));
    assert_eq!((phase, action), (ServePhase::Rejected, ServeAction::Reject));
    for event in [
        ServeEvent::Verdict(true),
        ServeEvent::Admitted(false),
        ServeEvent::TurnGranted,
        ServeEvent::ExecutionFinished,
        ServeEvent::TurnReleased,
    ] {
        assert_eq!(serve_step(phase, event), (ServePhase::Rejected, ServeAction::Ignore));
    }
}

#[test]
fn accepted_goal_on_idle_queue_executes_at_once() {
    let (phase, action) = serve_step(serve_start(), ServeEvent::Verdict(true));
    assert_eq!((phase, action), (ServePhase::Admitting, ServeAction::AcceptAndEnqueue));
    let (phase, action) = serve_step(phase, ServeEvent::Admitted(false));
    assert_eq!((phase, action), (ServePhase::Executing, ServeAction::Execute));
    let (phase, action) = serve_step(phase, ServeEvent::ExecutionFinished);
    assert_eq!((phase, action), (ServePhase::Releasing, ServeAction::ReleaseTurn));
    let (phase, action) = serve_step(phase, ServeEvent::TurnReleased);
    assert_eq!((phase, action), (ServePhase::Done, ServeAction::Finish));
    assert_eq!(serve_step(phase, ServeEvent::TurnGranted), (ServePhase::Done, ServeAction::Ignore));
}

#[test]
fn accepted_goal_behind_another_waits_for_its_turn() {
    let (phase, _) = serve_step(ServePhase::AwaitingVerdict, ServeEvent::Verdict(true));
    let (phase, action) = serve_step(phase, ServeEvent::Admitted(true));
    assert_eq!((phase, action), (ServePhase::WaitingForTurn, ServeAction::AwaitTurn));
    // Finishing is not possible before the turn comes.
    assert_eq!(
        serve_step(phase, ServeEvent::ExecutionFinished),
        (ServePhase::WaitingForTurn, ServeAction::Ignore)
    );
    let (phase, action) = serve_step(phase, ServeEvent::TurnGranted);
    assert_eq!((phase, action), (ServePhase::Executing, ServeAction::Execute));
}

/// The requests of orders 3, 1000, 10 and 10 reach a server that accepts
/// those under 100 and executes them one at a time: the first executes and
/// succeeds, the second executes next and is cancelled, the third executes
/// last and succeeds, and the queue is idle at the end.
#[test]
fn test_action_queue() {
    let mut queue = FifoQueueInternal::new();
    let orders = [3u32, 1000, 10, 10];
    let mut phases = Vec::new();
    let mut waiters = Vec::new();
    for order in orders {
        let (phase, action) = serve_step(serve_start(), ServeEvent::Verdict(order < 100));
        if action == ServeAction::AcceptAndEnqueue {
            let waiter = queue.add_to_queue().map(|w| w.into_receiver());
            let (phase, _) = serve_step(phase, ServeEvent::Admitted(waiter.is_some()));
            phases.push(phase);
            waiters.push(waiter);
        } else {
            assert_eq!(action, ServeAction::Reject);
            phases.push(phase);
            waiters.push(None);
        }
    }
    // The invalid goal is rejected; the first executes; the others wait.
    assert_eq!(
        phases,
        vec![
            ServePhase::Executing,
            ServePhase::Rejected,
            ServePhase::WaitingForTurn,
            ServePhase::WaitingForTurn,
        ]
    );
    assert!(waiters[2].as_mut().unwrap().try_recv().is_err());
    assert!(waiters[3].as_mut().unwrap().try_recv().is_err());

    // The first goal succeeds and gives up the turn: the second goal executes,
    // the third still waits.
    assert_eq!(
        GoalActivity::Executing.termination_route(Termination::Succeeded),
        vec![GoalStatus::Succeeded]
    );
    let (p, a) = serve_step(phases[0], ServeEvent::ExecutionFinished);
    assert_eq!((p, a), (ServePhase::Releasing, ServeAction::ReleaseTurn));
    queue.next();
    phases[0] = serve_step(p, ServeEvent::TurnReleased).0;
    assert_eq!(phases[0], ServePhase::Done);
    assert!(waiters[2].as_mut().unwrap().try_recv().is_ok());
    assert!(waiters[3].as_mut().unwrap().try_recv().is_err());
    phases[2] = serve_step(phases[2], ServeEvent::TurnGranted).0;
    assert_eq!(phases[2], ServePhase::Executing);

    // The second goal is cancelled while it executes: it begins cancelling,
    // ends cancelled, and gives up the turn; now the third goal executes.
    assert_eq!(
        GoalActivity::Executing.termination_route(Termination::Cancelled),
        vec![GoalStatus::Cancelling, GoalStatus::Cancelled]
    );
    let (p, _) = serve_step(phases[2], ServeEvent::ExecutionFinished);
    queue.next();
    phases[2] = serve_step(p, ServeEvent::TurnReleased).0;
    assert!(waiters[3].as_mut().unwrap().try_recv().is_ok());
    phases[3] = serve_step(phases[3], ServeEvent::TurnGranted).0;
    assert_eq!(
        phases,
        vec![ServePhase::Done, ServePhase::Rejected, ServePhase::Done, ServePhase::Executing]
    );

    // The third goal succeeds: nobody waits, the queue goes idle.
    let (p, _) = serve_step(phases[3], ServeEvent::ExecutionFinished);
    queue.next();
    phases[3] = serve_step(p, ServeEvent::TurnReleased).0;
    assert_eq!(phases[3], ServePhase::Done);
    assert!(queue.add_to_queue().is_none());
}

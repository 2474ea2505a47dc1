use crate::fifo_queue::{
    after_enqueue, after_release, idle_queue, lined_channels, queue_wf, release_outcome, QueueView,
    law_transitions_keep_wf,
};
use vstd::prelude::*;

verus! {

/// Where the handling of one goal request stands.
#[derive(Clone, Copy, Debug, PartialEq, Eq, Structural)]
pub enum ServePhase {
    /// The acceptance callback has not answered yet.
    AwaitingVerdict,
    /// The goal was accepted and is about to ask the queue for the turn.
    Admitting,
    /// The goal waits in the queue for its turn.
    WaitingForTurn,
    /// The goal holds the turn and its execution callback runs.
    Executing,
    /// The execution finished; the goal is about to give up the turn.
    Releasing,
    /// The goal was rejected. Nothing more happens to it.
    Rejected,
    /// The goal gave up the turn and its termination is handed back.
    Done,
}

/// What the outside world reports to the handling of one goal request.
#[derive(Clone, Copy, Debug, PartialEq, Eq, Structural)]
pub enum ServeEvent {
    /// The acceptance callback answered: accept the goal or not.
    Verdict(bool),
    /// The queue answered the request for the turn: whether the goal must wait.
    Admitted(bool),
    /// The signal that the goal's turn has come fired.
    TurnGranted,
    /// The execution callback finished.
    ExecutionFinished,
    /// The goal gave up the turn.
    TurnReleased,
}

/// What the handling of one goal request must do next.
#[derive(Clone, Copy, Debug, PartialEq, Eq, Structural)]
pub enum ServeAction {
    /// Reject the request and hand back its termination.
    Reject,
    /// Accept the request and ask the queue for the turn.
    AcceptAndEnqueue,
    /// Wait until the queue signals that the turn has come.
    AwaitTurn,
    /// Run the execution callback.
    Execute,
    /// Give the turn up to the queue.
    ReleaseTurn,
    /// Hand back the termination that the execution produced.
    Finish,
    /// The event does not belong to this phase: nothing to do.
    Ignore,
}

/// The protocol that one goal request follows, as a table from phase and
/// event to the next phase and the action to perform.
pub open spec fn serve_transition(phase: ServePhase, event: ServeEvent) -> (ServePhase, ServeAction) {
    match (phase, event) {
        (ServePhase::AwaitingVerdict, ServeEvent::Verdict(accepted)) => if accepted {
            (ServePhase::Admitting, ServeAction::AcceptAndEnqueue)
        } else {
            (ServePhase::Rejected, ServeAction::Reject)
        },
        (ServePhase::Admitting, ServeEvent::Admitted(must_wait)) => if must_wait {
            (ServePhase::WaitingForTurn, ServeAction::AwaitTurn)
        } else {
            (ServePhase::Executing, ServeAction::Execute)
        },
        (ServePhase::WaitingForTurn, ServeEvent::TurnGranted) => (
            ServePhase::Executing,
            ServeAction::Execute,
        ),
        (ServePhase::Executing, ServeEvent::ExecutionFinished) => (
            ServePhase::Releasing,
            ServeAction::ReleaseTurn,
        ),
        (ServePhase::Releasing, ServeEvent::TurnReleased) => (ServePhase::Done, ServeAction::Finish),
        _ => (phase, ServeAction::Ignore),
    }
}

/// The phase in which the handling of every goal request starts.
pub fn serve_start() -> (phase: ServePhase)
    ensures
        phase == ServePhase::AwaitingVerdict,
{
    ServePhase::AwaitingVerdict
}

/// Decide, from the phase of a goal request and what just happened, the next
/// phase and what to do. A goal whose acceptance callback says no is rejected
/// and never touches the queue; an accepted goal asks the queue for the turn,
/// waits for it when another goal holds it, executes, and then gives the turn
/// up before its termination is handed back.
pub fn serve_step(phase: ServePhase, event: ServeEvent) -> (next: (ServePhase, ServeAction))
    ensures
        next == serve_transition(phase, event),
{
    match (phase, event) {
        (ServePhase::AwaitingVerdict, ServeEvent::Verdict(accepted)) => {
            if accepted {
                (ServePhase::Admitting, ServeAction::AcceptAndEnqueue)
            } else {
                (ServePhase::Rejected, ServeAction::Reject)
            }
        },
        (ServePhase::Admitting, ServeEvent::Admitted(must_wait)) => {
            if must_wait {
                (ServePhase::WaitingForTurn, ServeAction::AwaitTurn)
            } else {
                (ServePhase::Executing, ServeAction::Execute)
            }
        },
        (ServePhase::WaitingForTurn, ServeEvent::TurnGranted) => {
            (ServePhase::Executing, ServeAction::Execute)
        },
        (ServePhase::Executing, ServeEvent::ExecutionFinished) => {
            (ServePhase::Releasing, ServeAction::ReleaseTurn)
        },
        (ServePhase::Releasing, ServeEvent::TurnReleased) => (ServePhase::Done, ServeAction::Finish),
        _ => (phase, ServeAction::Ignore),
    }
}

/// A rejected goal and a finished goal stay as they are, whatever happens.
pub proof fn law_final_phases_absorb(phase: ServePhase, event: ServeEvent)
    requires
        phase == ServePhase::Rejected || phase == ServePhase::Done,
    ensures
        serve_transition(phase, event) == (phase, ServeAction::Ignore),
{
}

/// Only an accepted goal asks the queue for the turn, and only a goal whose
/// execution finished gives it up.
pub proof fn law_queue_touched_only_by_accepted_goals(phase: ServePhase, event: ServeEvent)
    ensures
        serve_transition(phase, event).1 == ServeAction::AcceptAndEnqueue <==> (phase
            == ServePhase::AwaitingVerdict && event == ServeEvent::Verdict(true)),
        serve_transition(phase, event).1 == ServeAction::ReleaseTurn <==> (phase
            == ServePhase::Executing && event == ServeEvent::ExecutionFinished),
        serve_transition(phase, event).1 == ServeAction::Execute ==> serve_transition(
            phase,
            event,
        ).0 == ServePhase::Executing,
{
}

/// The action servers built on one queue, of whatever action types, seen as a
/// whole. Goals are numbered in the order in which they arrive, and the goals
/// that ask the queue for the turn get tickets in the order in which they ask.
///
/// The model covers goals that are dropped while they wait in line (`Abandon`).
/// It does not cover a goal that is dropped while it holds the turn (after its
/// signal was delivered, during its execution, or before it gives the turn
/// up): such a goal never gives the turn up, and the queue stays held.
pub struct ServerView {
    /// The queue.
    pub queue: QueueView,
    /// The phase of every goal that arrived.
    pub phase: Map<nat, ServePhase>,
    /// The ticket of every goal that asked the queue for the turn.
    pub ticket: Map<nat, nat>,
    /// The goals whose signals wait in the queue, oldest first.
    pub line: Seq<nat>,
    /// The goal that holds the turn: woken but not yet executing, executing,
    /// or about to give the turn up.
    pub holder: Option<nat>,
    /// The goals that were dropped while they waited in line.
    pub abandoned: Set<nat>,
    /// How many goals arrived.
    pub arrivals: nat,
    /// How many goals asked the queue for the turn.
    pub admissions: nat,
}

/// One step of the servers: a request arrives, or one goal moves on.
pub enum GoalMove {
    /// A new goal request arrives.
    Arrive,
    /// The acceptance callback of goal `nat` answers.
    Decide(nat, bool),
    /// The accepted goal `nat` asks the queue for the turn.
    Admit(nat),
    /// The goal that holds the turn sees the signal that its turn has come.
    Grant,
    /// The execution of the goal that holds the turn finishes.
    Finish,
    /// Goal `nat`, waiting in line, is dropped: its signal stays in the queue,
    /// but nobody will receive it.
    Abandon(nat),
    /// The goal that holds the turn gives it up; the release signals the `nat`
    /// oldest waiters, and the last of them took the turn or not as the `bool`
    /// says.
    Release(nat, bool),
}

/// The servers before any goal request arrived.
pub open spec fn initial_server() -> ServerView {
    ServerView {
        queue: idle_queue(),
        phase: Map::empty(),
        ticket: Map::empty(),
        line: Seq::empty(),
        holder: None,
        abandoned: Set::empty(),
        arrivals: 0,
        admissions: 0,
    }
}

/// Whether goal `g` is the one that holds the turn and is in phase `p`.
pub open spec fn holder_in(s: ServerView, p: ServePhase) -> bool {
    s.holder matches Some(h) && s.phase.dom().contains(h) && s.phase[h] == p
}

/// Whether a move can happen in a servers state. A release signals waiters
/// that were dropped and passes them over, up to the first that is still
/// there, which takes the turn; with nobody still there, all are passed over.
pub open spec fn move_enabled(s: ServerView, m: GoalMove) -> bool {
    match m {
        GoalMove::Arrive => true,
        GoalMove::Decide(g, _) => s.phase.dom().contains(g) && s.phase[g]
            == ServePhase::AwaitingVerdict,
        GoalMove::Admit(g) => s.phase.dom().contains(g) && s.phase[g] == ServePhase::Admitting,
        GoalMove::Grant => holder_in(s, ServePhase::WaitingForTurn),
        GoalMove::Finish => holder_in(s, ServePhase::Executing),
        GoalMove::Abandon(g) => s.line.contains(g) && !s.abandoned.contains(g),
        GoalMove::Release(k, delivered) => {
            &&& holder_in(s, ServePhase::Releasing)
            &&& release_outcome(s.queue, k, delivered)
            &&& forall|i: int| 0 <= i < k - 1 ==> s.abandoned.contains(#[trigger] s.line[i])
            &&& delivered ==> !s.abandoned.contains(s.line[k - 1])
            &&& !delivered ==> forall|i: int|
                0 <= i < s.line.len() ==> s.abandoned.contains(#[trigger] s.line[i])
        },
    }
}

/// The phase that goal `g` moves to on `event`, as `serve_transition` says.
pub open spec fn moved(s: ServerView, g: nat, event: ServeEvent) -> Map<nat, ServePhase> {
    s.phase.insert(g, serve_transition(s.phase[g], event).0)
}

/// The servers after a move: goals move as `serve_transition` says, and the
/// queue changes as `add_to_queue` and `next` change it.
pub open spec fn after_move(s: ServerView, m: GoalMove) -> ServerView {
    match m {
        GoalMove::Arrive => ServerView {
            phase: s.phase.insert(s.arrivals, ServePhase::AwaitingVerdict),
            arrivals: s.arrivals + 1,
            ..s
        },
        GoalMove::Decide(g, accepted) => ServerView {
            phase: moved(s, g, ServeEvent::Verdict(accepted)),
            ..s
        },
        GoalMove::Admit(g) => ServerView {
            queue: after_enqueue(s.queue),
            phase: moved(s, g, ServeEvent::Admitted(s.queue.active)),
            ticket: s.ticket.insert(g, s.admissions),
            line: if s.queue.active {
                s.line.push(g)
            } else {
                s.line
            },
            holder: if s.queue.active {
                s.holder
            } else {
                Some(g)
            },
            admissions: s.admissions + 1,
            ..s
        },
        GoalMove::Grant => ServerView {
            phase: moved(s, s.holder->0, ServeEvent::TurnGranted),
            ..s
        },
        GoalMove::Finish => ServerView {
            phase: moved(s, s.holder->0, ServeEvent::ExecutionFinished),
            ..s
        },
        GoalMove::Abandon(g) => ServerView { abandoned: s.abandoned.insert(g), ..s },
        GoalMove::Release(k, delivered) => ServerView {
            queue: after_release(s.queue, k, delivered),
            phase: moved(s, s.holder->0, ServeEvent::TurnReleased),
            line: s.line.skip(k as int),
            holder: if delivered {
                Some(s.line[k - 1])
            } else {
                None
            },
            ..s
        },
    }
}

/// Whether goal `g`'s phase is one of holding the turn.
pub open spec fn holds_phase(p: ServePhase) -> bool {
    p == ServePhase::WaitingForTurn || p == ServePhase::Executing || p == ServePhase::Releasing
}

/// The servers are in order:
/// - the queue is well formed and held exactly while some goal holds the turn;
/// - the line of goals matches the line of channels in the queue;
/// - the goal that holds the turn is in a holding phase, and it alone executes
///   or is about to give the turn up;
/// - every other waiting goal is in line, and the goals in line wait;
/// - tickets grow along the line, and the holder's ticket is below them all;
/// - every goal that asked for the turn holds it, is in line, is done, or was
///   dropped.
pub open spec fn server_inv(s: ServerView) -> bool {
    &&& queue_wf(s.queue)
    &&& s.queue.active <==> s.holder is Some
    &&& s.line.len() == s.queue.waiting.len()
    &&& forall|g: nat| s.phase.dom().contains(g) <==> g < s.arrivals
    &&& forall|g: nat| #[trigger] s.ticket.dom().contains(g) ==> s.phase.dom().contains(g)
    &&& forall|g: nat| #[trigger] s.ticket.dom().contains(g) ==> s.ticket[g] < s.admissions
    &&& forall|g: nat|
        s.phase.dom().contains(g) && (s.phase[g] == ServePhase::AwaitingVerdict || s.phase[g]
            == ServePhase::Admitting) ==> !(#[trigger] s.ticket.dom().contains(g))
    &&& s.holder matches Some(h) ==> {
        &&& s.phase.dom().contains(h)
        &&& holds_phase(s.phase[h])
        &&& s.ticket.dom().contains(h)
        &&& !s.abandoned.contains(h)
        &&& !s.line.contains(h)
        &&& forall|i: int| 0 <= i < s.line.len() ==> s.ticket[h] < s.ticket[#[trigger] s.line[i]]
    }
    &&& forall|g: nat|
        s.phase.dom().contains(g) && (s.phase[g] == ServePhase::Executing || s.phase[g]
            == ServePhase::Releasing) ==> s.holder == Some(g)
    &&& forall|g: nat|
        s.phase.dom().contains(g) && s.phase[g] == ServePhase::WaitingForTurn ==> (s.holder
            == Some(g) || s.line.contains(g) || s.abandoned.contains(g))
    &&& forall|i: int|
        0 <= i < s.line.len() ==> {
            &&& s.phase.dom().contains(#[trigger] s.line[i])
            &&& s.phase[s.line[i]] == ServePhase::WaitingForTurn
            &&& s.ticket.dom().contains(s.line[i])
        }
    &&& forall|i: int, j: int|
        0 <= i < j < s.line.len() ==> s.ticket[#[trigger] s.line[i]] < s.ticket[#[trigger] s.line[j]]
    &&& forall|g: nat|
        #[trigger] s.ticket.dom().contains(g) ==> (s.holder == Some(g) || s.line.contains(g)
            || s.phase[g] == ServePhase::Done || s.abandoned.contains(g))
    &&& forall|g: nat|
        #[trigger] s.abandoned.contains(g) ==> s.ticket.dom().contains(g) && s.phase[g]
            == ServePhase::WaitingForTurn
}

/// The servers that no request reached yet are in order.
pub proof fn law_initial_server_inv()
    ensures
        server_inv(initial_server()),
{
    assert(lined_channels(idle_queue()) =~= Seq::<int>::empty());
}

/// Every move keeps the servers in order.
pub proof fn law_moves_keep_server_inv(s: ServerView, m: GoalMove)
    requires
        server_inv(s),
        move_enabled(s, m),
    ensures
        server_inv(after_move(s, m)),
{
    let t = after_move(s, m);
    match m {
        GoalMove::Release(k, delivered) => {
            law_transitions_keep_wf(s.queue, k, delivered);
            assert forall|i: int| 0 <= i < t.line.len() implies t.line[i] == s.line[i + k] by {}
            assert forall|g: nat| #[trigger] s.line.contains(g) && !t.line.contains(g) implies exists|i: int|
                0 <= i < k && s.line[i] == g by {
                let i = choose|i: int| 0 <= i < s.line.len() && s.line[i] == g;
                if i >= k {
                    assert(t.line[i - k] == g);
                }
            }
        },
        GoalMove::Admit(g) => {
            law_transitions_keep_wf(s.queue, 0, false);
            if s.queue.active {
                assert(t.line[t.line.len() - 1] == g);
                assert(t.line.contains(g));
                assert forall|x: nat| s.line.contains(x) implies t.line.contains(x) by {
                    let i = choose|i: int| 0 <= i < s.line.len() && s.line[i] == x;
                    assert(t.line[i] == x);
                }
            }
            assert(server_inv(t));
        },
        _ => {},
    }
}

/// At most one goal executes at a time, across all servers that share the
/// queue, and while any goal waits in line, some goal holds the turn.
pub proof fn law_one_goal_executes_at_a_time(s: ServerView, g1: nat, g2: nat)
    requires
        server_inv(s),
        s.phase.dom().contains(g1),
        s.phase.dom().contains(g2),
        s.phase[g1] == ServePhase::Executing,
        s.phase[g2] == ServePhase::Executing,
    ensures
        g1 == g2,
        s.line.len() > 0 ==> s.queue.active && s.holder is Some,
{
}

/// Goals begin executing in the order in which they asked the queue for the
/// turn: while goal `g` executes, every goal that asked before it has finished
/// (given up the turn after its execution) or was dropped while it waited.
pub proof fn law_execution_order(s: ServerView, g: nat, a: nat)
    requires
        server_inv(s),
        s.phase.dom().contains(g),
        s.phase[g] == ServePhase::Executing,
        s.ticket.dom().contains(a),
        s.ticket[a] < s.ticket[g],
    ensures
        s.phase[a] == ServePhase::Done || s.abandoned.contains(a),
{
    if s.line.contains(a) {
        let i = choose|i: int| 0 <= i < s.line.len() && s.line[i] == a;
        assert(s.ticket[g] < s.ticket[s.line[i]]);
    }
}

/// How far the goal that holds the turn still is from giving it up: 2 while
/// it has not seen its signal, 1 while it executes, 0 once it has finished.
pub open spec fn holder_stage(s: ServerView) -> int {
    if holder_in(s, ServePhase::WaitingForTurn) {
        2
    } else if holder_in(s, ServePhase::Executing) {
        1
    } else {
        0
    }
}

/// Every accepted goal is served in the end, as long as executions finish: a
/// goal at position `p` of the line that is not dropped has the measure
/// `3 * p + holder_stage`. No move raises it, each move of the goal that holds
/// the turn (seeing its signal, finishing, giving the turn up) lowers it, and
/// when the goal leaves the line it holds the turn. So it holds the turn after
/// at most `3 * p + 2` moves of the holder.
pub proof fn law_waiting_goal_is_served(s: ServerView, m: GoalMove, g: nat, p: int)
    requires
        server_inv(s),
        move_enabled(s, m),
        0 <= p < s.line.len(),
        s.line[p] == g,
        !s.abandoned.contains(g),
        m != GoalMove::Abandon(g),
    ensures
        after_move(s, m).holder == Some(g) || exists|q: int|
            0 <= q < after_move(s, m).line.len() && after_move(s, m).line[q] == g
                && !after_move(s, m).abandoned.contains(g) && 3 * q + holder_stage(after_move(s, m))
                <= 3 * p + holder_stage(s) && ((m is Grant || m is Finish || m is Release) ==> 3 * q
                + holder_stage(after_move(s, m)) < 3 * p + holder_stage(s)),
{
    let t = after_move(s, m);
    match m {
        GoalMove::Release(k, delivered) => {
            assert(s.line.len() > 0);
            if p >= k {
                assert(t.line[p - k] == g);
            } else if p == k - 1 {
                assert(delivered);
            } else {
                assert(s.abandoned.contains(s.line[p]));
            }
        },
        GoalMove::Admit(x) => {
            assert(t.line[p] == g);
        },
        _ => {
            assert(t.line[p] == g);
        },
    }
}

/// The goal that holds the turn can always move on, except while it
/// executes, which only its execution finishing ends: it can see its signal,
/// or give the turn up with some outcome of the release.
pub proof fn law_holder_can_move(s: ServerView)
    requires
        server_inv(s),
        s.holder is Some,
    ensures
        holder_in(s, ServePhase::WaitingForTurn) ==> move_enabled(s, GoalMove::Grant),
        holder_in(s, ServePhase::Executing) ==> move_enabled(s, GoalMove::Finish),
        holder_in(s, ServePhase::Releasing) ==> exists|k: nat, delivered: bool|
            move_enabled(s, GoalMove::Release(k, delivered)),
{
    if holder_in(s, ServePhase::Releasing) {
        lemma_release_outcome_exists(s, 0);
    }
}

/// Scanning the line from position `j`, over which every goal before `j` was
/// dropped, some outcome of the release is possible.
proof fn lemma_release_outcome_exists(s: ServerView, j: int)
    requires
        server_inv(s),
        holder_in(s, ServePhase::Releasing),
        0 <= j <= s.line.len(),
        forall|i: int| 0 <= i < j ==> s.abandoned.contains(#[trigger] s.line[i]),
    ensures
        exists|k: nat, delivered: bool| move_enabled(s, GoalMove::Release(k, delivered)),
    decreases s.line.len() - j,
{
    if j == s.line.len() {
        assert(move_enabled(s, GoalMove::Release(s.line.len(), false)));
    } else if !s.abandoned.contains(s.line[j]) {
        assert(move_enabled(s, GoalMove::Release((j + 1) as nat, true)));
    } else {
        lemma_release_outcome_exists(s, j + 1);
    }
}

/// Once every goal that asked for the turn has finished or was dropped, the
/// queue is idle with nobody in line.
pub proof fn law_quiet_server_is_idle(s: ServerView)
    requires
        server_inv(s),
        forall|g: nat|
            #[trigger] s.ticket.dom().contains(g) ==> s.phase[g] == ServePhase::Done
                || s.abandoned.contains(g),
    ensures
        !s.queue.active,
        s.queue.waiting.len() == 0,
        s.line.len() == 0,
{
}

} // verus!

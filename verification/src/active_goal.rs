use vstd::prelude::*;

verus! {

/// The status of a goal on the server side once it runs, as the ROS 2 action
/// design names them.
#[derive(Clone, Copy, Debug, PartialEq, Eq, Structural)]
pub enum GoalStatus {
    Executing,
    Cancelling,
    Succeeded,
    Aborted,
    Cancelled,
}

/// Which status changes the ROS 2 goal state machine allows: an executing goal
/// may start cancelling, succeed or abort; a cancelling goal may succeed, abort
/// or end cancelled. A goal can only end cancelled from the cancelling status.
pub open spec fn status_step_allowed(from: GoalStatus, to: GoalStatus) -> bool {
    match (from, to) {
        (GoalStatus::Executing, GoalStatus::Cancelling) => true,
        (GoalStatus::Executing, GoalStatus::Succeeded) => true,
        (GoalStatus::Executing, GoalStatus::Aborted) => true,
        (GoalStatus::Cancelling, GoalStatus::Succeeded) => true,
        (GoalStatus::Cancelling, GoalStatus::Aborted) => true,
        (GoalStatus::Cancelling, GoalStatus::Cancelled) => true,
        _ => false,
    }
}

/// A status from which the goal never changes again.
pub open spec fn is_terminal(s: GoalStatus) -> bool {
    s == GoalStatus::Succeeded || s == GoalStatus::Aborted || s == GoalStatus::Cancelled
}

/// Whether going through the statuses of `route`, in order, starting at
/// `from`, takes only steps that the goal state machine allows.
pub open spec fn follows_route(from: GoalStatus, route: Seq<GoalStatus>) -> bool
    decreases route.len(),
{
    route.len() == 0 || (status_step_allowed(from, route[0]) && follows_route(
        route[0],
        route.drop_first(),
    ))
}

/// How a goal ends.
#[derive(Clone, Copy, Debug, PartialEq, Eq, Structural)]
pub enum Termination {
    Succeeded,
    Aborted,
    Cancelled,
}

impl Termination {
    /// The terminal status that this way of ending leads to.
    pub open spec fn end_status(self) -> GoalStatus {
        match self {
            Termination::Succeeded => GoalStatus::Succeeded,
            Termination::Aborted => GoalStatus::Aborted,
            Termination::Cancelled => GoalStatus::Cancelled,
        }
    }
}

/// A goal that is still active: either executing or cancelling.
#[derive(Clone, Copy, Debug, PartialEq, Eq, Structural)]
pub enum GoalActivity {
    Executing,
    Cancelling,
}

/// The statuses that a goal passes through when it begins cancelling: an
/// executing goal moves to cancelling, a cancelling goal stays as it is.
pub open spec fn begin_cancelling_route(a: GoalActivity) -> Seq<GoalStatus> {
    match a {
        GoalActivity::Executing => seq![GoalStatus::Cancelling],
        GoalActivity::Cancelling => Seq::empty(),
    }
}

/// The statuses that a goal passes through when it ends as `end` says: an
/// executing goal that ends cancelled first begins cancelling; every other
/// ending is one step.
pub open spec fn termination_route_of(a: GoalActivity, end: Termination) -> Seq<GoalStatus> {
    match (a, end) {
        (GoalActivity::Executing, Termination::Cancelled) => seq![
            GoalStatus::Cancelling,
            GoalStatus::Cancelled,
        ],
        _ => seq![end.end_status()],
    }
}

impl GoalActivity {
    /// The status of a goal in this activity.
    pub open spec fn status_of(self) -> GoalStatus {
        match self {
            GoalActivity::Executing => GoalStatus::Executing,
            GoalActivity::Cancelling => GoalStatus::Cancelling,
        }
    }

    /// The status of a goal in this activity.
    pub fn status(&self) -> (s: GoalStatus)
        ensures
            s == self.status_of(),
    {
        match self {
            GoalActivity::Executing => GoalStatus::Executing,
            GoalActivity::Cancelling => GoalStatus::Cancelling,
        }
    }

    /// Whether the goal is in a cancelling state. A cancelling goal answers a
    /// wait for a cancel request at once, without waiting.
    pub fn is_cancelling(&self) -> (c: bool)
        ensures
            c == (*self == GoalActivity::Cancelling),
    {
        match self {
            GoalActivity::Executing => false,
            GoalActivity::Cancelling => true,
        }
    }

    /// Whether a rejection of the open cancellation requests reaches the goal:
    /// only an executing goal can still reject them.
    pub fn reject_cancellation(&self) -> (forwarded: bool)
        ensures
            forwarded == (*self == GoalActivity::Executing),
    {
        match self {
            GoalActivity::Executing => true,
            GoalActivity::Cancelling => false,
        }
    }

    /// The status changes that beginning to cancel takes, in order.
    pub fn begin_cancelling(&self) -> (route: Vec<GoalStatus>)
        ensures
            route@ == begin_cancelling_route(*self),
    {
        let mut route = Vec::new();
        match self {
            GoalActivity::Executing => route.push(GoalStatus::Cancelling),
            GoalActivity::Cancelling => {},
        }
        route
    }

    /// The status changes that ending the goal as `end` says takes, in order.
    pub fn termination_route(&self, end: Termination) -> (route: Vec<GoalStatus>)
        ensures
            route@ == termination_route_of(*self, end),
    {
        let mut route = Vec::new();
        match (self, end) {
            (GoalActivity::Executing, Termination::Cancelled) => {
                route.push(GoalStatus::Cancelling);
                route.push(GoalStatus::Cancelled);
            },
            (_, Termination::Succeeded) => route.push(GoalStatus::Succeeded),
            (_, Termination::Aborted) => route.push(GoalStatus::Aborted),
            (GoalActivity::Cancelling, Termination::Cancelled) => route.push(GoalStatus::Cancelled),
        }
        proof {
            assert(route@ =~= termination_route_of(*self, end));
        }
        route
    }
}

/// Beginning to cancel takes only allowed steps, leaves the goal cancelling,
/// and does nothing to a goal that already cancels.
pub proof fn law_begin_cancelling_route(a: GoalActivity)
    ensures
        follows_route(a.status_of(), begin_cancelling_route(a)),
        begin_cancelling_route(a).len() > 0 ==> begin_cancelling_route(a).last()
            == GoalStatus::Cancelling,
        a == GoalActivity::Cancelling ==> begin_cancelling_route(a).len() == 0,
{
    reveal_with_fuel(follows_route, 2);
}

/// Ending a goal takes only steps that the goal state machine allows, ends in
/// the requested terminal status, and passes no terminal status before it.
pub proof fn law_termination_route(a: GoalActivity, end: Termination)
    ensures
        follows_route(a.status_of(), termination_route_of(a, end)),
        termination_route_of(a, end).len() > 0,
        termination_route_of(a, end).last() == end.end_status(),
        forall|i: int|
            0 <= i < termination_route_of(a, end).len() - 1 ==> !is_terminal(
                #[trigger] termination_route_of(a, end)[i],
            ),
{
    reveal_with_fuel(follows_route, 3);
    let r = termination_route_of(a, end);
    if r.len() == 2 {
        assert(r.drop_first() =~= seq![GoalStatus::Cancelled]);
        assert(r.drop_first().drop_first() =~= Seq::<GoalStatus>::empty());
    } else {
        assert(r.drop_first() =~= Seq::<GoalStatus>::empty());
    }
}

/// No executing goal can end cancelled in one step: every allowed way from
/// executing to cancelled passes through cancelling.
pub proof fn law_cancelled_only_after_cancelling(route: Seq<GoalStatus>)
    requires
        follows_route(GoalStatus::Executing, route),
        route.len() > 0,
        route.last() == GoalStatus::Cancelled,
    ensures
        route.contains(GoalStatus::Cancelling),
{
    reveal_with_fuel(follows_route, 2);
    assert(route[0] != GoalStatus::Cancelled);
    let rest = route.drop_first();
    if route[0] != GoalStatus::Cancelling {
        // From a terminal status nothing is allowed, so the route must have ended.
        assert(is_terminal(route[0]));
        if rest.len() > 0 {
            assert(!status_step_allowed(route[0], rest[0]));
        }
        assert(rest.len() == 0);
        assert(route.last() == route[0]);
    }
    assert(route[0] == GoalStatus::Cancelling);
}

} // verus!

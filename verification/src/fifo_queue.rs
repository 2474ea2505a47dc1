use crate::turn::{send_turn, tag_channel, turn_channel, SignalLog, TurnReceiver, TurnSender};
use std::collections::VecDeque;
use vstd::prelude::*;

verus! {

/// What a queue is, seen from outside: whether some goal currently holds the
/// right to execute, the channels of the goals that wait for it, oldest first,
/// every turn signal sent so far, oldest first, with whether its receiving end
/// was still there, and how many channels the queue has made. Channels are
/// numbered in the order in which the queue made them.
pub struct QueueView {
    pub active: bool,
    pub waiting: Seq<int>,
    pub signals: Seq<(int, bool)>,
    pub issued: nat,
}

/// The channels that the signals went out on, oldest first.
pub open spec fn signalled_channels(signals: Seq<(int, bool)>) -> Seq<int> {
    signals.map_values(|e: (int, bool)| e.0)
}

/// Every channel the queue ever put in line: those already signalled, then
/// those still waiting.
pub open spec fn lined_channels(v: QueueView) -> Seq<int> {
    signalled_channels(v.signals) + v.waiting
}

/// Nobody waits in an idle queue, and the channels put in line are distinct
/// channels that the queue made, in the order in which it made them.
pub open spec fn queue_wf(v: QueueView) -> bool {
    &&& v.waiting.len() > 0 ==> v.active
    &&& forall|i: int, j: int|
        0 <= i < j < lined_channels(v).len() ==> lined_channels(v)[i] < lined_channels(v)[j]
    &&& forall|i: int|
        0 <= i < lined_channels(v).len() ==> 0 <= #[trigger] lined_channels(v)[i] < v.issued
}

/// The queue that nobody has used yet.
pub open spec fn idle_queue() -> QueueView {
    QueueView { active: false, waiting: Seq::empty(), signals: Seq::empty(), issued: 0 }
}

/// The queue after a goal asks for its turn while nobody holds it: the goal
/// takes the turn at once.
pub open spec fn after_claim(v: QueueView) -> QueueView {
    QueueView { active: true, waiting: v.waiting, signals: v.signals, issued: v.issued }
}

/// The queue after a goal asks for its turn. When another goal holds the turn,
/// the queue makes a new channel for the newcomer and puts it at the back of
/// the line; otherwise the newcomer takes the turn at once.
pub open spec fn after_enqueue(v: QueueView) -> QueueView {
    if v.active {
        QueueView {
            active: true,
            waiting: v.waiting.push(v.issued as int),
            signals: v.signals,
            issued: v.issued + 1,
        }
    } else {
        after_claim(v)
    }
}

/// The signals that a release sends: one to each of the `k` oldest waiters,
/// in order, of which only the last may have been delivered, as `delivered`
/// says.
pub open spec fn release_signals(waiting: Seq<int>, k: nat, delivered: bool) -> Seq<(int, bool)> {
    Seq::new(k, |i: int| (waiting[i], i == k - 1 && delivered))
}

/// Which outcomes a release can have: it signals the `k` oldest waiters in
/// order and stops at the first whose receiving end was still there
/// (`delivered`); if none was, it has signalled every waiter.
pub open spec fn release_outcome(v: QueueView, k: nat, delivered: bool) -> bool {
    &&& k <= v.waiting.len()
    &&& delivered ==> k > 0
    &&& !delivered ==> k == v.waiting.len()
}

/// The queue after the goal that holds the turn gives it up, with the outcome
/// `k`, `delivered`: the `k` oldest waiters leave the line, each signalled in
/// order; the turn passes to the last of them if it was still there to take
/// it, and otherwise the queue goes idle.
pub open spec fn after_release(v: QueueView, k: nat, delivered: bool) -> QueueView {
    QueueView {
        active: delivered,
        waiting: v.waiting.skip(k as int),
        signals: v.signals + release_signals(v.waiting, k, delivered),
        issued: v.issued,
    }
}

/// The state that regulates which goal may execute: a flag that says whether
/// the turn is held, the senders that wake the waiting goals, oldest first,
/// and the record of the signals sent.
pub struct FifoQueueInternal {
    queue: VecDeque<TurnSender>,
    active: bool,
    log: SignalLog,
    issued: Ghost<nat>,
}

/// The channels of the senders in a line, oldest first.
pub open spec fn channels_of(line: Seq<TurnSender>) -> Seq<int> {
    line.map_values(|s: TurnSender| s.channel())
}

/// The keys of the senders in a line, oldest first.
pub open spec fn keys_of(line: Seq<TurnSender>) -> Seq<int> {
    line.map_values(|s: TurnSender| s.key())
}

impl View for FifoQueueInternal {
    type V = QueueView;

    closed spec fn view(&self) -> QueueView {
        QueueView {
            active: self.active,
            waiting: channels_of(self.queue@),
            signals: self.log.entries(),
            issued: self.issued@,
        }
    }
}

impl FifoQueueInternal {
    /// The keys of the waiting goals' channels, oldest first. A key is shared
    /// only by the two ends of one channel.
    pub closed spec fn waiting_keys(&self) -> Seq<int> {
        keys_of(self.queue@)
    }

    /// The keys of the channels that the signals went out on, oldest first.
    pub closed spec fn signal_keys(&self) -> Seq<int> {
        self.log.keys()
    }

    #[verifier::type_invariant]
    spec fn inv(self) -> bool {
        queue_wf(self@)
    }

    /// A queue in which no goal holds the turn and none waits.
    pub fn new() -> (q: Self)
        ensures
            q@ == idle_queue(),
    {
        let queue = VecDeque::new();
        let log = SignalLog::new();
        proof {
            assert(channels_of(queue@) =~= Seq::<int>::empty());
            assert(lined_channels(idle_queue()) =~= Seq::<int>::empty());
        }
        FifoQueueInternal { queue, active: false, log, issued: Ghost(0) }
    }

    /// Ask for the turn to execute. If no goal holds it, the caller takes it at
    /// once and gets `None`. Otherwise the caller is put at the back of the
    /// line and gets the receiving end of its own signal, on a channel newer
    /// than every other, which fires when its turn comes.
    pub fn add_to_queue(&mut self) -> (waiter: Option<TurnReceiver>)
        ensures
            waiter is Some <==> old(self)@.active,
            final(self)@ == after_enqueue(old(self)@),
            waiter matches Some(w) ==> w.channel() == old(self)@.issued,
            waiter matches Some(w) ==> final(self).waiting_keys() == old(self).waiting_keys().push(
                w.key(),
            ),
            waiter is None ==> final(self).waiting_keys() == old(self).waiting_keys(),
            final(self).signal_keys() == old(self).signal_keys(),
            queue_wf(final(self)@),
    {
        proof {
            use_type_invariant(&*self);
            lemma_enqueue_keeps_wf(self@);
        }
        let ghost start = self@;
        let ghost start_keys = self.waiting_keys();
        let mut taken = FifoQueueInternal::new();
        std::mem::swap(&mut taken, self);
        let FifoQueueInternal { mut queue, active, log, issued } = taken;
        if active {
            let ghost channel: int = issued@ as int;
            let (sender, receiver) = tag_channel(turn_channel(), Ghost(channel));
            queue.push_back(sender);
            proof {
                assert(channels_of(queue@) =~= start.waiting.push(channel));
                assert(keys_of(queue@) =~= start_keys.push(receiver.key()));
            }
            *self = FifoQueueInternal { queue, active: true, log, issued: Ghost(issued@ + 1) };
            return Some(receiver);
        }
        *self = FifoQueueInternal { queue, active: true, log, issued };
        None
    }

    /// Give up the turn. The waiters are signalled oldest first; a waiter that
    /// is no longer there (its receiving end was dropped) is passed over, and
    /// the first one still there takes the turn. With nobody left to take it,
    /// the queue goes idle.
    pub fn next(&mut self)
        ensures
            exists|k: nat, delivered: bool|
                {
                    &&& release_outcome(old(self)@, k, delivered)
                    &&& final(self)@ == after_release(old(self)@, k, delivered)
                    &&& final(self).waiting_keys() == old(self).waiting_keys().skip(k as int)
                    &&& final(self).signal_keys() == old(self).signal_keys() + old(
                        self,
                    ).waiting_keys().take(k as int)
                },
            queue_wf(final(self)@),
    {
        proof {
            use_type_invariant(&*self);
        }
        let ghost start = self@;
        let ghost start_keys = self.waiting_keys();
        let ghost start_signal_keys = self.signal_keys();
        let mut taken = FifoQueueInternal::new();
        std::mem::swap(&mut taken, self);
        let FifoQueueInternal { mut queue, active, mut log, issued } = taken;
        let ghost mut k: nat = 0;
        proof {
            assert(start.waiting.skip(0) =~= start.waiting);
            assert(start.signals + release_signals(start.waiting, 0, false) =~= start.signals);
            assert(start_keys.skip(0) =~= start_keys);
            assert(start_signal_keys + start_keys.take(0) =~= start_signal_keys);
        }
        loop
            invariant
                start == old(self)@,
                start_keys == old(self).waiting_keys(),
                start_signal_keys == old(self).signal_keys(),
                start_keys.len() == start.waiting.len(),
                keys_of(queue@) == start_keys.skip(k as int),
                log.keys() == start_signal_keys + start_keys.take(k as int),
                queue_wf(start),
                k <= start.waiting.len(),
                issued@ == start.issued,
                channels_of(queue@) == start.waiting.skip(k as int),
                log.entries() == start.signals + release_signals(start.waiting, k, false),
            decreases start.waiting.len() - k,
        {
            let ghost before = queue@;
            match queue.pop_front() {
                Some(sender) => {
                    proof {
                        assert(before.len() > 0);
                        assert(channels_of(before).len() == before.len());
                        assert(k < start.waiting.len());
                        assert(channels_of(before)[0] == before[0].channel());
                        assert(start.waiting.skip(k as int)[0] == start.waiting[k as int]);
                        assert(sender.channel() == start.waiting[k as int]);
                        assert(keys_of(before)[0] == before[0].key());
                        assert(start_keys.skip(k as int)[0] == start_keys[k as int]);
                        assert(sender.key() == start_keys[k as int]);
                    }
                    let sent = send_turn(sender);
                    let delivered = sent.delivered();
                    log.record(sent);
                    proof {
                        assert(channels_of(queue@) =~= channels_of(before).drop_first());
                        assert(channels_of(queue@) =~= start.waiting.skip(k + 1int));
                        assert(keys_of(queue@) =~= keys_of(before).drop_first());
                        assert(keys_of(queue@) =~= start_keys.skip(k + 1int));
                        assert(log.keys() =~= start_signal_keys + start_keys.take(k + 1int));
                        assert(log.entries() =~= start.signals + release_signals(
                            start.waiting,
                            (k + 1) as nat,
                            delivered,
                        ));
                        k = (k + 1) as nat;
                    }
                    if delivered {
                        proof {
                            assert(release_outcome(start, k, true));
                            law_transitions_keep_wf(start, k, true);
                        }
                        *self = FifoQueueInternal { queue, active: true, log, issued };
                        return;
                    }
                    assert(log.entries() =~= start.signals + release_signals(
                        start.waiting,
                        k,
                        false,
                    ));
                },
                None => {
                    proof {
                        assert(channels_of(before).len() == 0);
                        assert(release_outcome(start, k, false));
                        law_transitions_keep_wf(start, k, false);
                    }
                    *self = FifoQueueInternal { queue, active: false, log, issued };
                    return;
                },
            }
        }
    }
}

impl Default for FifoQueueInternal {
    fn default() -> (q: Self)
        ensures
            q@ == idle_queue(),
    {
        FifoQueueInternal::new()
    }
}

/// Asking for the turn keeps the queue well formed: a newly made channel is
/// newer than all that are in line.
proof fn lemma_enqueue_keeps_wf(v: QueueView)
    requires
        queue_wf(v),
    ensures
        queue_wf(after_enqueue(v)),
{
    if v.active {
        let w = after_enqueue(v);
        assert(lined_channels(w) =~= lined_channels(v).push(v.issued as int));
    } else {
        assert(lined_channels(after_enqueue(v)) =~= lined_channels(v));
    }
}


/// A release, whatever its outcome, keeps the channels in line as they were:
/// the signalled ones move from the front of the line to the end of the
/// record, in order.
proof fn lemma_release_keeps_line(v: QueueView, k: nat, delivered: bool)
    requires
        release_outcome(v, k, delivered),
    ensures
        lined_channels(after_release(v, k, delivered)) == lined_channels(v),
{
    let w = after_release(v, k, delivered);
    let fresh = release_signals(v.waiting, k, delivered);
    assert(signalled_channels(fresh) =~= v.waiting.take(k as int));
    assert(signalled_channels(w.signals) =~= signalled_channels(v.signals) + signalled_channels(
        fresh,
    ));
    assert(v.waiting.take(k as int) + v.waiting.skip(k as int) =~= v.waiting);
    assert(lined_channels(w) =~= lined_channels(v));
}

/// Every way of changing a queue keeps it well formed, whatever the outcome of
/// a release.
pub proof fn law_transitions_keep_wf(v: QueueView, k: nat, delivered: bool)
    requires
        queue_wf(v),
    ensures
        queue_wf(after_enqueue(v)),
        queue_wf(after_claim(v)),
        release_outcome(v, k, delivered) ==> queue_wf(after_release(v, k, delivered)),
{
    lemma_enqueue_keeps_wf(v);
    assert(lined_channels(after_claim(v)) =~= lined_channels(v));
    if release_outcome(v, k, delivered) {
        lemma_release_keeps_line(v, k, delivered);
    }
}

/// First in, first out: a goal that must wait gets a channel newer than every
/// channel in line and goes to the end of the line; taking the turn at once
/// and releasing it, whatever the outcome, keep the line as it is. So the
/// signals go out in the order in which the goals were queued, none skipped
/// and none twice.
pub proof fn law_first_in_first_out(v: QueueView, k: nat, delivered: bool)
    requires
        queue_wf(v),
    ensures
        v.active ==> lined_channels(after_enqueue(v)) == lined_channels(v).push(v.issued as int),
        forall|i: int| 0 <= i < lined_channels(v).len() ==> #[trigger] lined_channels(v)[i] < v.issued,
        lined_channels(after_claim(v)) == lined_channels(v),
        release_outcome(v, k, delivered) ==> lined_channels(after_release(v, k, delivered))
            == lined_channels(v),
{
    if v.active {
        assert(lined_channels(after_enqueue(v)) =~= lined_channels(v).push(v.issued as int));
    }
    assert(lined_channels(after_claim(v)) =~= lined_channels(v));
    if release_outcome(v, k, delivered) {
        lemma_release_keeps_line(v, k, delivered);
    }
}

/// A release signals only the waiters it takes out of the line: the channel
/// of every waiter that stays in line is none of the channels it signals.
pub proof fn law_release_leaves_later_waiters_alone(
    v: QueueView,
    k: nat,
    delivered: bool,
    p: int,
    i: int,
)
    requires
        queue_wf(v),
        release_outcome(v, k, delivered),
        k <= p < v.waiting.len(),
        0 <= i < k,
    ensures
        release_signals(v.waiting, k, delivered)[i].0 != v.waiting[p],
{
    let n = v.signals.len() as int;
    assert(lined_channels(v)[n + i] == v.waiting[i]);
    assert(lined_channels(v)[n + p] == v.waiting[p]);
}

/// A release hands the turn over or leaves the queue idle: if the turn is
/// still held afterwards, the last signal was delivered to the waiter that now
/// holds it and every waiter passed over was gone; otherwise nobody waits and
/// every signal of the release found its waiter gone.
pub proof fn law_release_hands_over(v: QueueView, k: nat, delivered: bool)
    requires
        release_outcome(v, k, delivered),
    ensures
        after_release(v, k, delivered).active ==> after_release(v, k, delivered).signals.last() == (
        v.waiting[k - 1], true),
        forall|i: int|
            0 <= i < k - 1 ==> #[trigger] release_signals(v.waiting, k, delivered)[i] == (
            v.waiting[i], false),
        !after_release(v, k, delivered).active ==> after_release(v, k, delivered).waiting.len() == 0,
        !after_release(v, k, delivered).active ==> forall|i: int|
            0 <= i < k ==> !(#[trigger] release_signals(v.waiting, k, delivered)[i]).1,
{
}

/// Each release moves the line on: while anybody waits, at least one waiter
/// leaves the line, and a waiter at position `p` that stays is at position
/// `p - k` afterwards. So a waiter at position `p` is signalled within `p + 1`
/// releases.
pub proof fn law_release_advances_line(v: QueueView, k: nat, delivered: bool, p: int)
    requires
        release_outcome(v, k, delivered),
        v.waiting.len() > 0,
        k <= p < v.waiting.len(),
    ensures
        k >= 1,
        after_release(v, k, delivered).waiting.len() < v.waiting.len(),
        after_release(v, k, delivered).waiting[p - k] == v.waiting[p],
{
}

/// The queue after `j` releases in a row, each of which found its oldest
/// waiter still there.
pub open spec fn after_live_releases(v: QueueView, j: nat) -> QueueView
    decreases j,
{
    if j == 0 {
        v
    } else {
        after_release(after_live_releases(v, (j - 1) as nat), 1, true)
    }
}

/// With every waiter still there, `j` releases in a row are each a possible
/// outcome of `next`, and they signal exactly the `j` oldest waiters, one per
/// release and in order, delivering each; the others still wait and the turn
/// stays held.
pub proof fn law_live_releases(v: QueueView, j: nat)
    requires
        queue_wf(v),
        v.active,
        j <= v.waiting.len(),
    ensures
        after_live_releases(v, j) == (QueueView {
            active: true,
            waiting: v.waiting.skip(j as int),
            signals: v.signals + Seq::new(j, |i: int| (v.waiting[i], true)),
            issued: v.issued,
        }),
        j < v.waiting.len() ==> release_outcome(after_live_releases(v, j), 1, true),
    decreases j,
{
    if j == 0 {
        assert(v.waiting.skip(0) =~= v.waiting);
        assert(v.signals + Seq::new(0, |i: int| (v.waiting[i], true)) =~= v.signals);
    } else {
        let jm = (j - 1) as nat;
        law_live_releases(v, jm);
        let u = after_live_releases(v, jm);
        assert(u.waiting.skip(1) =~= v.waiting.skip(j as int));
        assert(release_signals(u.waiting, 1, true) =~= seq![(v.waiting[jm as int], true)]);
        assert(u.signals + release_signals(u.waiting, 1, true) =~= v.signals + Seq::new(
            j,
            |i: int| (v.waiting[i], true),
        ));
    }
}

/// A goal that takes the turn of an idle queue and gives it up again leaves
/// the queue as it found it.
pub proof fn law_claim_then_release_is_identity(v: QueueView, k: nat, delivered: bool)
    requires
        queue_wf(v),
        !v.active,
        release_outcome(after_claim(v), k, delivered),
    ensures
        k == 0,
        !delivered,
        after_release(after_claim(v), k, delivered) == v,
{
    assert(v.waiting.skip(0) =~= v.waiting);
    assert(v.signals + release_signals(v.waiting, 0, false) =~= v.signals);
}

/// One release signals at most one waiter that is still there, the oldest
/// one: of the signals it sends, only the last can have been delivered, and
/// every waiter before it was gone. The queue stays held after it exactly when
/// a signal of it was delivered, and then the turn belongs to the waiter whose
/// channel got that signal. Every waiter that stays in line gets no signal.
/// With `signal_keys` and `waiting_keys` the keys that `next` keeps beside the
/// queue, the channels signalled are taken, by key, from the front of the line
/// and in its order, so the line of keys is kept.
pub proof fn law_release_signals_oldest_live_waiter(
    v: QueueView,
    signal_keys: Seq<int>,
    waiting_keys: Seq<int>,
    k: nat,
    delivered: bool,
)
    requires
        queue_wf(v),
        waiting_keys.len() == v.waiting.len(),
        release_outcome(v, k, delivered),
    ensures
        forall|i: int|
            0 <= i < k && (#[trigger] release_signals(v.waiting, k, delivered)[i]).1 ==> i == k - 1,
        after_release(v, k, delivered).active <==> exists|i: int|
            0 <= i < k && (#[trigger] release_signals(v.waiting, k, delivered)[i]).1,
        after_release(v, k, delivered).active ==> after_release(v, k, delivered).signals.last()
            == (v.waiting[k - 1], true),
        forall|p: int, i: int|
            k <= p < v.waiting.len() && 0 <= i < k ==> (#[trigger] release_signals(
                v.waiting,
                k,
                delivered,
            )[i]).0 != #[trigger] v.waiting[p],
        (signal_keys + waiting_keys.take(k as int)) + waiting_keys.skip(k as int) == signal_keys
            + waiting_keys,
{
    let n = v.signals.len() as int;
    assert forall|p: int, i: int|
        k <= p < v.waiting.len() && 0 <= i < k implies (#[trigger] release_signals(
        v.waiting,
        k,
        delivered,
    )[i]).0 != #[trigger] v.waiting[p] by {
        assert(lined_channels(v)[n + i] == v.waiting[i]);
        assert(lined_channels(v)[n + p] == v.waiting[p]);
    }
    if delivered {
        assert(release_signals(v.waiting, k, delivered)[k - 1].1);
    }
    assert(waiting_keys.take(k as int) + waiting_keys.skip(k as int) =~= waiting_keys);
    assert((signal_keys + waiting_keys.take(k as int)) + waiting_keys.skip(k as int) =~= signal_keys
        + waiting_keys);
}

/// A goal that must wait goes to the back of the line on a channel newer than
/// every channel signalled or in line, and its key goes to the back of the
/// line of keys: no signal was sent on its channel yet.
pub proof fn law_newcomer_waits_at_the_back(
    v: QueueView,
    signal_keys: Seq<int>,
    waiting_keys: Seq<int>,
    key: int,
)
    requires
        queue_wf(v),
        v.active,
    ensures
        after_enqueue(v).waiting.last() == v.issued,
        after_enqueue(v).waiting.drop_last() == v.waiting,
        forall|i: int|
            0 <= i < v.signals.len() ==> (#[trigger] v.signals[i]).0 != v.issued,
        signal_keys + waiting_keys.push(key) == (signal_keys + waiting_keys).push(key),
{
    assert(after_enqueue(v).waiting.drop_last() =~= v.waiting);
    assert forall|i: int| 0 <= i < v.signals.len() implies (#[trigger] v.signals[i]).0 != v.issued by {
        assert(lined_channels(v)[i] == v.signals[i].0);
    }
    assert(signal_keys + waiting_keys.push(key) =~= (signal_keys + waiting_keys).push(key));
}

/// A goal that asks for the turn while `n` others wait is signalled by none
/// of the next `n` releases in which every waiter is still there, and by the
/// release after them, which delivers its signal: it waits until every older
/// waiter has been signalled.
pub proof fn law_newcomer_signalled_after_all_older(v: QueueView, j: nat)
    requires
        queue_wf(v),
        v.active,
        j <= v.waiting.len(),
    ensures
        forall|i: int|
            0 <= i < after_live_releases(after_enqueue(v), j).signals.len() ==> (
            #[trigger] after_live_releases(after_enqueue(v), j).signals[i]).0 != v.issued,
        after_live_releases(after_enqueue(v), (v.waiting.len() + 1) as nat).signals.last() == (
        v.issued as int, true),
{
    let w = after_enqueue(v);
    law_transitions_keep_wf(v, 0, false);
    law_live_releases(w, j);
    law_live_releases(w, (v.waiting.len() + 1) as nat);
    let n = v.signals.len();
    assert forall|i: int|
        0 <= i < after_live_releases(w, j).signals.len() implies (
        #[trigger] after_live_releases(w, j).signals[i]).0 != v.issued by {
        if i < n {
            assert(lined_channels(v)[i] == v.signals[i].0);
        } else {
            assert(w.waiting[i - n] == v.waiting[i - n]);
            assert(lined_channels(v)[i] == v.waiting[i - n]);
        }
    }
}

} // verus!

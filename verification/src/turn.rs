use tokio::sync::oneshot::{Receiver, Sender};
use vstd::prelude::*;

verus! {

#[verifier::external_type_specification]
#[verifier::external_body]
#[verifier::reject_recursive_types(T)]
pub struct ExOneshotSender<T>(tokio::sync::oneshot::Sender<T>);

#[verifier::external_type_specification]
#[verifier::external_body]
#[verifier::reject_recursive_types(T)]
pub struct ExOneshotReceiver<T>(tokio::sync::oneshot::Receiver<T>);

// Declared because the output of `Receiver<T>` as a `Future` names this type.
#[verifier::external_type_specification]
#[verifier::external_body]
pub struct ExOneshotRecvError(tokio::sync::oneshot::error::RecvError);

/// The sending end of the signal that tells a waiting goal its turn has come,
/// tagged with the number that the queue gave its channel and with the key
/// that `turn_channel` gave it, which it shares only with its own receiving
/// end.
pub struct TurnSender {
    inner: Sender<()>,
    channel: Ghost<int>,
    key: Ghost<int>,
}

/// The receiving end of the signal that tells a waiting goal its turn has
/// come, tagged like its sending end.
pub struct TurnReceiver {
    inner: Receiver<()>,
    channel: Ghost<int>,
    key: Ghost<int>,
}

/// Proof that a turn signal was sent on a channel, and whether the receiving
/// end was still there to take it. Only `send_turn` makes one.
pub struct TurnSent {
    channel: Ghost<int>,
    key: Ghost<int>,
    delivered: bool,
}

impl TurnSender {
    /// The number of the channel that this sending end belongs to.
    pub closed spec fn channel(&self) -> int {
        self.channel@
    }

    /// The key of the channel that this sending end belongs to.
    pub closed spec fn key(&self) -> int {
        self.key@
    }

    /// The tokio sending end itself.
    pub closed spec fn sender_end(&self) -> Sender<()> {
        self.inner
    }
}

impl TurnReceiver {
    /// The number of the channel that this receiving end belongs to.
    pub closed spec fn channel(&self) -> int {
        self.channel@
    }

    /// The key of the channel that this receiving end belongs to.
    pub closed spec fn key(&self) -> int {
        self.key@
    }

    /// The tokio receiving end itself.
    pub closed spec fn receiver_end(&self) -> Receiver<()> {
        self.inner
    }

    /// The receiving end itself, to wait on.
    pub fn into_receiver(self) -> (r: Receiver<()>)
        ensures
            r == self.receiver_end(),
    {
        self.inner
    }
}

impl TurnSent {
    /// The number of the channel that the signal was sent on.
    pub closed spec fn channel(&self) -> int {
        self.channel@
    }

    /// The key of the channel that the signal was sent on.
    pub closed spec fn key(&self) -> int {
        self.key@
    }

    /// Whether the receiving end was still there when the signal was sent.
    pub closed spec fn was_delivered(&self) -> bool {
        self.delivered
    }

    /// Whether the receiving end was still there when the signal was sent.
    pub fn delivered(&self) -> (d: bool)
        ensures
            d == self.was_delivered(),
    {
        self.delivered
    }
}

/// Calls `tokio::sync::oneshot::channel`, which makes a fresh single-use
/// channel and hands back its sending and its receiving end. The claim is that
/// the two ends belong to the same channel: they carry the same number and the
/// same key. Nothing is claimed of the key's value, so no other end can be
/// shown to share it.
#[verifier::external_body]
pub fn turn_channel() -> (ends: (TurnSender, TurnReceiver))
    ensures
        ends.0.channel() == ends.1.channel(),
        ends.0.key() == ends.1.key(),
{
    let (inner_sender, inner_receiver) = tokio::sync::oneshot::channel();
    let channel: Ghost<int> = Ghost(arbitrary());
    let key: Ghost<int> = Ghost(arbitrary());
    (
        TurnSender { inner: inner_sender, channel, key },
        TurnReceiver { inner: inner_receiver, channel, key },
    )
}

/// Give both ends of one channel the channel number `channel`. The ends keep
/// their tokio ends and their keys, so they still belong together.
pub(crate) fn tag_channel(ends: (TurnSender, TurnReceiver), channel: Ghost<int>) -> (tagged: (
    TurnSender,
    TurnReceiver,
))
    requires
        ends.0.channel() == ends.1.channel(),
        ends.0.key() == ends.1.key(),
    ensures
        tagged.0.channel() == channel@,
        tagged.1.channel() == channel@,
        tagged.0.key() == ends.0.key(),
        tagged.1.key() == ends.1.key(),
        tagged.0.sender_end() == ends.0.sender_end(),
        tagged.1.receiver_end() == ends.1.receiver_end(),
{
    let (sender, receiver) = ends;
    (
        TurnSender { inner: sender.inner, channel, key: sender.key },
        TurnReceiver { inner: receiver.inner, channel, key: receiver.key },
    )
}

/// Calls `tokio::sync::oneshot::Sender::send` with the unit value, which
/// consumes the sending end. The send reports an error exactly when the
/// receiving end was dropped before; that outcome is carried in the returned
/// proof of the send, and nothing is claimed of it, since it depends on what
/// the task that holds the receiving end did. The claim is that the send went
/// out on the sender's own channel: same number, same key.
#[verifier::external_body]
pub fn send_turn(sender: TurnSender) -> (sent: TurnSent)
    ensures
        sent.channel() == sender.channel(),
        sent.key() == sender.key(),
{
    let delivered = sender.inner.send(()).is_ok();
    TurnSent { channel: sender.channel, key: sender.key, delivered }
}

/// The record of every turn signal sent, oldest first: the channel number and
/// whether its receiving end was still there, and the channel's key. An entry
/// goes in only with the proof that `send_turn` gives.
pub struct SignalLog {
    entries: Ghost<Seq<(int, bool)>>,
    keys: Ghost<Seq<int>>,
}

impl SignalLog {
    /// The signals sent so far, oldest first.
    pub closed spec fn entries(&self) -> Seq<(int, bool)> {
        self.entries@
    }

    /// The keys of the channels that the signals went out on, oldest first.
    pub closed spec fn keys(&self) -> Seq<int> {
        self.keys@
    }

    /// The record of a queue that has sent no signal yet.
    pub fn new() -> (log: Self)
        ensures
            log.entries() == Seq::<(int, bool)>::empty(),
            log.keys() == Seq::<int>::empty(),
    {
        SignalLog { entries: Ghost(Seq::empty()), keys: Ghost(Seq::empty()) }
    }

    /// Put a sent signal on record.
    pub fn record(&mut self, sent: TurnSent)
        ensures
            final(self).entries() == old(self).entries().push((sent.channel(), sent.was_delivered())),
            final(self).keys() == old(self).keys().push(sent.key()),
    {
        self.entries = Ghost(self.entries@.push((sent.channel@, sent.delivered)));
        self.keys = Ghost(self.keys@.push(sent.key@));
    }
}

} // verus!

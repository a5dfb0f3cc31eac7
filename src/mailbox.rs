use crate::game::message::Message;
use rtic_sync::channel::{Channel, ReceiveError, Receiver, Sender, TrySendError};
use vstd::prelude::*;

verus! {

/// Capacity of the mailbox that feeds the game driver.
pub const MAILBOX_CAPACITY: usize = 4;

/// rtic_sync's error of `try_send`, with its variants `NoReceiver` and
/// `Full`, each handing the message back.
#[verifier::external_type_specification]
#[verifier::reject_recursive_types(T)]
pub struct ExTrySendError<T>(TrySendError<T>);

/// rtic_sync's error of `try_recv`, with its variants `NoSender` and `Empty`.
#[verifier::external_type_specification]
pub struct ExReceiveError(ReceiveError);

/// A bounded first-in first-out queue of [`Message`]s. It owns both ends of
/// a channel that lives as long as the program, so neither end can be
/// dropped while the other is in use.
#[verifier::external_body]
pub struct Mailbox {
    tx: Sender<'static, Message, MAILBOX_CAPACITY>,
    rx: Receiver<'static, Message, MAILBOX_CAPACITY>,
}

/// The messages that a mailbox holds, oldest first.
pub uninterp spec fn queued(m: Mailbox) -> Seq<Message>;

/// Relies on rtic_sync::channel::Channel::new and Channel::split: a new
/// channel holds no message. The channel is leaked, so both ends stay valid.
#[verifier::external_body]
fn channel_open() -> (r: Mailbox)
    ensures
        queued(r) == Seq::<Message>::empty(),
{
    let channel: &'static mut Channel<Message, MAILBOX_CAPACITY> = Box::leak(
        Box::new(Channel::new()),
    );
    let (tx, rx) = channel.split();
    Mailbox { tx, rx }
}

/// Relies on rtic_sync::channel::Sender::try_send: with the receiver alive
/// and no sender suspended in `send`, the message is queued unless all slots
/// are taken, in which case it is handed back in `Full`.
#[verifier::external_body]
fn channel_try_send(m: &mut Mailbox, msg: Message) -> (r: Result<(), TrySendError<Message>>)
    ensures
        queued(*old(m)).len() < MAILBOX_CAPACITY ==> r is Ok,
        queued(*old(m)).len() < MAILBOX_CAPACITY ==> queued(*final(m)) == queued(*old(m)).push(msg),
        queued(*old(m)).len() >= MAILBOX_CAPACITY ==> r is Err && r->Err_0 == TrySendError::Full(msg),
        queued(*old(m)).len() >= MAILBOX_CAPACITY ==> queued(*final(m)) == queued(*old(m)),
{
    m.tx.try_send(msg)
}

/// Relies on rtic_sync::channel::Receiver::try_recv: with a sender alive, the
/// oldest message is taken out, or `Empty` comes back when there is none.
#[verifier::external_body]
fn channel_try_recv(m: &mut Mailbox) -> (r: Result<Message, ReceiveError>)
    ensures
        queued(*old(m)).len() > 0 ==> r is Ok && r->Ok_0 == queued(*old(m))[0],
        queued(*old(m)).len() > 0 ==> queued(*final(m)) == queued(*old(m)).drop_first(),
        queued(*old(m)).len() == 0 ==> r is Err && r->Err_0 == ReceiveError::Empty,
        queued(*old(m)).len() == 0 ==> queued(*final(m)) == queued(*old(m)),
{
    m.rx.try_recv()
}

/// What a mailbox holds after a `try_send` of `msg`.
pub open spec fn after_send(held: Seq<Message>, msg: Message) -> Seq<Message> {
    if held.len() < MAILBOX_CAPACITY {
        held.push(msg)
    } else {
        held
    }
}

/// What a mailbox that held `held` holds after a `try_send` of each of `msgs`,
/// in order, with no `try_recv` between them.
pub open spec fn after_sends(held: Seq<Message>, msgs: Seq<Message>) -> Seq<Message>
    decreases msgs.len(),
{
    if msgs.len() == 0 {
        held
    } else {
        after_send(after_sends(held, msgs.drop_last()), msgs.last())
    }
}

/// Whether the `i`-th of those sends is accepted.
pub open spec fn send_accepted(held: Seq<Message>, msgs: Seq<Message>, i: int) -> bool {
    after_sends(held, msgs.take(i)).len() < MAILBOX_CAPACITY
}

/// The messages that `n` calls of `try_recv` take out of a mailbox that holds
/// `held`, in the order they come out.
pub open spec fn received(held: Seq<Message>, n: nat) -> Seq<Message>
    decreases n,
{
    if n == 0 || held.len() == 0 {
        Seq::empty()
    } else {
        seq![held[0]] + received(held.drop_first(), (n - 1) as nat)
    }
}

proof fn lemma_sends_prefix(msgs: Seq<Message>, i: int)
    requires
        0 <= i <= msgs.len(),
    ensures
        after_sends(Seq::empty(), msgs.take(i)) == msgs.take(
            if i < MAILBOX_CAPACITY {
                i
            } else {
                MAILBOX_CAPACITY as int
            },
        ),
    decreases i,
{
    if i > 0 {
        lemma_sends_prefix(msgs, i - 1);
        assert(msgs.take(i).drop_last() =~= msgs.take(i - 1));
        assert(msgs.take(i).last() == msgs[i - 1]);
        if i - 1 < MAILBOX_CAPACITY {
            assert(msgs.take(i - 1).push(msgs[i - 1]) =~= msgs.take(i));
        }
    } else {
        assert(msgs.take(0) =~= Seq::<Message>::empty());
    }
}

proof fn lemma_received_all(held: Seq<Message>)
    ensures
        received(held, held.len()) == held,
    decreases held.len(),
{
    if held.len() > 0 {
        lemma_received_all(held.drop_first());
        assert(seq![held[0]] + held.drop_first() =~= held);
    } else {
        assert(held =~= Seq::<Message>::empty());
    }
}

/// From an empty mailbox, of a run of `try_send`s with no `try_recv` between
/// them, exactly the first [`MAILBOX_CAPACITY`] are accepted and every later
/// one fails; the accepted messages then come out of `try_recv` in the order
/// they were sent.
pub proof fn lemma_capacity_and_order(msgs: Seq<Message>)
    ensures
        forall|i: int|
            0 <= i < msgs.len() ==> (send_accepted(Seq::empty(), msgs, i) <==> i
                < MAILBOX_CAPACITY),
        msgs.len() <= MAILBOX_CAPACITY ==> received(after_sends(Seq::empty(), msgs), msgs.len())
            == msgs,
        msgs.len() > MAILBOX_CAPACITY ==> received(after_sends(Seq::empty(), msgs), msgs.len())
            == msgs.take(MAILBOX_CAPACITY as int),
{
    assert forall|i: int| 0 <= i < msgs.len() implies (send_accepted(Seq::empty(), msgs, i) <==> i
        < MAILBOX_CAPACITY) by {
        lemma_sends_prefix(msgs, i);
    }
    lemma_sends_prefix(msgs, msgs.len() as int);
    assert(msgs.take(msgs.len() as int) =~= msgs);
    let held = after_sends(Seq::empty(), msgs);
    lemma_received_all(held);
    if msgs.len() > MAILBOX_CAPACITY {
        lemma_received_more(held, msgs.len());
    }
}

proof fn lemma_received_more(held: Seq<Message>, n: nat)
    requires
        n >= held.len(),
    ensures
        received(held, n) == received(held, held.len()),
    decreases held.len(),
{
    if held.len() > 0 {
        lemma_received_more(held.drop_first(), (n - 1) as nat);
    }
}

impl View for Mailbox {
    type V = Seq<Message>;

    closed spec fn view(&self) -> Seq<Message> {
        queued(*self)
    }
}

impl Mailbox {
    pub fn new() -> (r: Mailbox)
        ensures
            r@ == Seq::<Message>::empty(),
    {
        channel_open()
    }

    /// Queues `msg` without waiting: a full mailbox hands it back in
    /// `TrySendError::Full` and stays as it was.
    pub fn try_send(&mut self, msg: Message) -> (r: Result<(), TrySendError<Message>>)
        ensures
            final(self)@ == after_send(old(self)@, msg),
            old(self)@.len() < MAILBOX_CAPACITY ==> r is Ok && final(self)@
                == old(self)@.push(msg),
            old(self)@.len() >= MAILBOX_CAPACITY ==> r is Err && r->Err_0 == TrySendError::Full(msg) && final(self)@ == old(self)@,
    {
        channel_try_send(self, msg)
    }

    /// Takes out the oldest message, or reports `ReceiveError::Empty`.
    pub fn try_recv(&mut self) -> (r: Result<Message, ReceiveError>)
        ensures
            old(self)@.len() > 0 ==> received(old(self)@, 1) == seq![r->Ok_0],
            old(self)@.len() > 0 ==> r is Ok && r->Ok_0 == old(self)@[0]
                && final(self)@ == old(self)@.drop_first(),
            old(self)@.len() == 0 ==> r is Err && r->Err_0 == ReceiveError::Empty
                && final(self)@ == old(self)@,
    {
        let ghost held = self@;
        let r = channel_try_recv(self);
        proof {
            if held.len() > 0 {
                assert(received(held.drop_first(), 0) == Seq::<Message>::empty());
                assert(seq![held[0]] + Seq::<Message>::empty() =~= seq![held[0]]);
            }
        }
        r
    }
}

} // verus!

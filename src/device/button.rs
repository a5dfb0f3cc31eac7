use crate::game::message::Message;
use crate::mailbox::Mailbox;
use core::marker::PhantomData;
use rtic_sync::channel::TrySendError;
use vstd::prelude::*;

verus! {

/// The button's interrupt is armed.
pub struct Started;

/// The button is configured, its interrupt disarmed.
pub struct Stopped;

/// Turns presses of the rotation button into [`Message::BtnBPress`]. Whether
/// the button's interrupt is armed is its type parameter, so events can only
/// be handled once it is [`Started`].
pub struct RotationDriver<S> {
    s: PhantomData<S>,
}

impl RotationDriver<Stopped> {
    pub fn new() -> (r: Self) {
        RotationDriver { s: PhantomData }
    }

    /// Arms the interrupt; the last setup step for the button.
    pub fn start(self) -> (r: RotationDriver<Started>) {
        RotationDriver { s: PhantomData }
    }
}

impl RotationDriver<Started> {
    /// Disarms the interrupt.
    pub fn stop(self) -> (r: RotationDriver<Stopped>) {
        RotationDriver { s: PhantomData }
    }

    /// Handles an interrupt of the shared line. `pending` says whether the
    /// button's own channel signalled; if not, the event belongs to another
    /// device and is ignored. Otherwise one press is posted without waiting,
    /// and dropped if the mailbox is full.
    pub fn handle_button_event(&mut self, pending: bool, mailbox: &mut Mailbox) -> (r: Result<
        (),
        TrySendError<Message>,
    >)
        ensures
            !pending ==> r is Ok && final(mailbox)@ == old(mailbox)@,
            pending && old(mailbox)@.len() < crate::mailbox::MAILBOX_CAPACITY ==> r is Ok
                && final(mailbox)@ == old(mailbox)@.push(Message::BtnBPress),
            pending && old(mailbox)@.len() >= crate::mailbox::MAILBOX_CAPACITY ==> r
                == Err::<(), TrySendError<Message>>(TrySendError::Full(Message::BtnBPress))
                && final(mailbox)@ == old(mailbox)@,
    {
        if pending {
            mailbox.try_send(Message::BtnBPress)
        } else {
            Ok(())
        }
    }
}

} // verus!

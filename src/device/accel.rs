use crate::game::message::Message;
use crate::mailbox::{MAILBOX_CAPACITY, Mailbox};
use core::marker::PhantomData;
use rtic_sync::channel::TrySendError;
use vstd::prelude::*;

verus! {

/// The sensor samples and its data-ready interrupt is armed.
pub struct Started;

/// The sensor is identified and configured, its interrupt disarmed.
pub struct Stopped;

/// Why a tilt event could not be turned into a message.
pub enum AccelError<E> {
    /// The sensor could not be read.
    ProducerError(E),
    /// The mailbox refused the sample.
    ConsumerError(TrySendError<Message>),
}

/// Turns tilt samples into [`Message::AccelerometerData`]. Whether the
/// sensor's interrupt is armed is its type parameter, so events can only be
/// handled once it is [`Started`].
pub struct HorizontalMovementDriver<S> {
    s: PhantomData<S>,
}

impl HorizontalMovementDriver<Stopped> {
    pub fn new() -> (r: Self) {
        HorizontalMovementDriver { s: PhantomData }
    }

    /// Arms the data-ready interrupt; the last setup step for the sensor.
    pub fn start(self) -> (r: HorizontalMovementDriver<Started>) {
        HorizontalMovementDriver { s: PhantomData }
    }
}

impl HorizontalMovementDriver<Started> {
    /// Disarms the interrupt and powers the sensor down.
    pub fn stop(self) -> (r: HorizontalMovementDriver<Stopped>) {
        HorizontalMovementDriver { s: PhantomData }
    }

    /// Handles an interrupt of the shared line. `sample` is `None` when the
    /// sensor's own channel did not signal: the event belongs to another
    /// device and is ignored. Otherwise it is what reading the sensor gave,
    /// an `x` and a `z` component or the sensor's error; a sample is posted
    /// without waiting, and dropped if the mailbox is full.
    pub fn handle_accel_event<E>(
        &mut self,
        sample: Option<Result<(i16, i16), E>>,
        mailbox: &mut Mailbox,
    ) -> (r: Result<(), AccelError<E>>)
        ensures
            match sample {
                None => r is Ok && final(mailbox)@ == old(mailbox)@,
                Some(Err(e)) => (r matches Err(AccelError::ProducerError(f)) && f == e)
                    && final(mailbox)@ == old(mailbox)@,
                Some(Ok((x, z))) => if old(mailbox)@.len() < MAILBOX_CAPACITY {
                    r is Ok && final(mailbox)@ == old(mailbox)@.push(
                        Message::AccelerometerData { x, z },
                    )
                } else {
                    (r matches Err(AccelError::ConsumerError(TrySendError::Full(m))) && m == (
                    Message::AccelerometerData { x, z })) && final(mailbox)@ == old(mailbox)@
                },
            },
    {
        match sample {
            None => Ok(()),
            Some(Err(e)) => Err(AccelError::ProducerError(e)),
            Some(Ok((x, z))) => match mailbox.try_send(Message::acceleration(x, z)) {
                Ok(()) => Ok(()),
                Err(e) => Err(AccelError::ConsumerError(e)),
            },
        }
    }
}

} // verus!

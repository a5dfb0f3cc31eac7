use crate::game::message::Message;
use crate::mailbox::{MAILBOX_CAPACITY, Mailbox};
use core::marker::PhantomData;
use rtic_sync::channel::TrySendError;
use vstd::prelude::*;

verus! {

/// The tick timer runs and its interrupt is armed.
pub struct Started;

/// The tick timer is configured and halted, its interrupt disarmed.
pub struct Stopped;

/// Number of game ticks per second.
pub const GAME_TICK_FREQ: u32 = 3;

/// Turns the periods of the game-tick timer into [`Message::TimerTick`]s.
/// Whether the timer runs is its type parameter, so events can only be
/// handled once it is [`Started`].
pub struct GameTickDriver<S> {
    s: PhantomData<S>,
}

/// Timer counts per game tick, for a timer that counts `ticks_per_second`.
pub fn game_tick_cycles(ticks_per_second: u32) -> (r: u32)
    ensures
        r == ticks_per_second / GAME_TICK_FREQ,
{
    ticks_per_second / GAME_TICK_FREQ
}

impl GameTickDriver<Stopped> {
    pub fn new() -> (r: Self) {
        GameTickDriver { s: PhantomData }
    }

    /// Starts the periodic timer and arms its interrupt; the last setup step
    /// for the timer.
    pub fn start(self) -> (r: GameTickDriver<Started>) {
        GameTickDriver { s: PhantomData }
    }
}

impl GameTickDriver<Started> {
    /// Disarms the interrupt.
    pub fn stop(self) -> (r: GameTickDriver<Stopped>) {
        GameTickDriver { s: PhantomData }
    }

    /// Handles one period of the timer: posts one tick without waiting, and
    /// drops it if the mailbox is full.
    pub fn handle_timer_event(&mut self, mailbox: &mut Mailbox) -> (r: Result<
        (),
        TrySendError<Message>,
    >)
        ensures
            old(mailbox)@.len() < MAILBOX_CAPACITY
                ==> r is Ok && final(mailbox)@ == old(mailbox)@.push(Message::TimerTick),
            old(mailbox)@.len() >= MAILBOX_CAPACITY ==> r == Err::<(), TrySendError<Message>>(
                TrySendError::Full(Message::TimerTick),
            ) && final(mailbox)@ == old(mailbox)@,
    {
        mailbox.try_send(Message::TimerTick)
    }
}

} // verus!

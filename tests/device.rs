use microtile_app::device::accel::{AccelError, HorizontalMovementDriver};
use microtile_app::device::button::RotationDriver;
use microtile_app::device::timer::{game_tick_cycles, GameTickDriver};
use microtile_app::game::message::Message;
use microtile_app::mailbox::{Mailbox, MAILBOX_CAPACITY};
use microtile_app::util::{settle, Attempt, StringIter};
use rtic_sync::channel::{ReceiveError, TrySendError};

#[test]
fn button_ignores_foreign_events() {
    let mut mailbox = Mailbox::new();
    let mut driver = RotationDriver::new().start();
    assert!(driver.handle_button_event(false, &mut mailbox).is_ok());
    assert_eq!(mailbox.try_recv(), Err(ReceiveError::Empty));
    assert!(driver.handle_button_event(true, &mut mailbox).is_ok());
    assert_eq!(mailbox.try_recv(), Ok(Message::BtnBPress));
    let _stopped = driver.stop();
}

#[test]
fn button_drops_when_full() {
    let mut mailbox = Mailbox::new();
    let mut driver = RotationDriver::new().start();
    for _ in 0..MAILBOX_CAPACITY {
        assert!(driver.handle_button_event(true, &mut mailbox).is_ok());
    }
    match driver.handle_button_event(true, &mut mailbox) {
        Err(TrySendError::Full(m)) => assert_eq!(m, Message::BtnBPress),
        _ => panic!("a full mailbox must refuse the press"),
    }
}

#[test]
fn timer_posts_ticks() {
    let mut mailbox = Mailbox::new();
    let mut driver = GameTickDriver::new().start();
    assert!(driver.handle_timer_event(&mut mailbox).is_ok());
    assert!(driver.handle_timer_event(&mut mailbox).is_ok());
    assert_eq!(mailbox.try_recv(), Ok(Message::TimerTick));
    assert_eq!(mailbox.try_recv(), Ok(Message::TimerTick));
    assert_eq!(game_tick_cycles(1_000_000), 333_333);
}

#[test]
fn accel_posts_samples_and_reports_errors() {
    let mut mailbox = Mailbox::new();
    let mut driver = HorizontalMovementDriver::new().start();
    assert!(driver.handle_accel_event::<u8>(None, &mut mailbox).is_ok());
    assert_eq!(mailbox.try_recv(), Err(ReceiveError::Empty));
    match driver.handle_accel_event::<u8>(Some(Err(7)), &mut mailbox) {
        Err(AccelError::ProducerError(7)) => {}
        _ => panic!("a sensor error must be reported"),
    }
    assert!(driver.handle_accel_event::<u8>(Some(Ok((-100, 250))), &mut mailbox).is_ok());
    assert_eq!(mailbox.try_recv(), Ok(Message::AccelerometerData { x: -100, z: 250 }));
    for _ in 0..MAILBOX_CAPACITY {
        assert!(driver.handle_accel_event::<u8>(Some(Ok((1, 2))), &mut mailbox).is_ok());
    }
    match driver.handle_accel_event::<u8>(Some(Ok((5, 6))), &mut mailbox) {
        Err(AccelError::ConsumerError(TrySendError::Full(m))) => {
            assert_eq!(m, Message::acceleration(5, 6))
        }
        _ => panic!("a full mailbox must refuse the sample"),
    }
    let _stopped = driver.stop();
}

#[test]
fn bridge_retries_only_when_blocked() {
    assert!(matches!(settle::<u8, u8>(Ok(3)), Attempt::Ready(Ok(3))));
    assert!(matches!(settle::<u8, u8>(Err(nb::Error::WouldBlock)), Attempt::Retry));
    assert!(matches!(settle::<u8, u8>(Err(nb::Error::Other(9))), Attempt::Ready(Err(9))));
}

#[test]
fn string_iter_cuts_text() {
    let text = "0123456789abcdefghijklmnopqrstuvwxyz";
    let mut it = StringIter::from(text);
    let first = it.next().unwrap().unwrap();
    assert_eq!(first.as_str(), "0123456789abcdefghijklmnopqrstuv");
    let second = it.next().unwrap().unwrap();
    assert_eq!(second.as_str(), "wxyz");
    assert!(it.next().is_none());
    let mut empty = StringIter::from("");
    assert!(empty.next().is_none());
}

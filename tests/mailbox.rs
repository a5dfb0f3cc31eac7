use microtile_app::game::message::Message;
use microtile_app::mailbox::{Mailbox, MAILBOX_CAPACITY};
use rtic_sync::channel::{ReceiveError, TrySendError};

#[test]
fn mailbox_accepts_capacity_then_reports_full() {
    let mut mailbox = Mailbox::new();
    for i in 0..MAILBOX_CAPACITY {
        assert!(mailbox.try_send(Message::acceleration(i as i16, 0)).is_ok());
    }
    match mailbox.try_send(Message::TimerTick) {
        Err(TrySendError::Full(m)) => assert_eq!(m, Message::TimerTick),
        _ => panic!("the send past the capacity must fail with Full"),
    }
}

#[test]
fn mailbox_delivers_in_send_order() {
    let mut mailbox = Mailbox::new();
    assert!(mailbox.try_send(Message::TimerTick).is_ok());
    assert!(mailbox.try_send(Message::BtnBPress).is_ok());
    assert!(mailbox.try_send(Message::acceleration(3, -4)).is_ok());
    assert_eq!(mailbox.try_recv(), Ok(Message::TimerTick));
    assert_eq!(mailbox.try_recv(), Ok(Message::BtnBPress));
    assert_eq!(mailbox.try_recv(), Ok(Message::AccelerometerData { x: 3, z: -4 }));
    assert_eq!(mailbox.try_recv(), Err(ReceiveError::Empty));
}

#[test]
fn mailbox_dropped_message_leaves_no_trace() {
    let mut mailbox = Mailbox::new();
    for _ in 0..MAILBOX_CAPACITY {
        assert!(mailbox.try_send(Message::BtnBPress).is_ok());
    }
    assert!(mailbox.try_send(Message::TimerTick).is_err());
    for _ in 0..MAILBOX_CAPACITY {
        assert_eq!(mailbox.try_recv(), Ok(Message::BtnBPress));
    }
    assert_eq!(mailbox.try_recv(), Err(ReceiveError::Empty));
    assert!(mailbox.try_send(Message::TimerTick).is_ok());
    assert_eq!(mailbox.try_recv(), Ok(Message::TimerTick));
}

#[test]
fn mailbox_empty_receive() {
    let mut mailbox = Mailbox::new();
    assert_eq!(mailbox.try_recv(), Err(ReceiveError::Empty));
}

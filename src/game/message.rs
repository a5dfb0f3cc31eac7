use vstd::prelude::*;

verus! {

/// An event handed from an interrupt handler to the game driver.
#[derive(Debug, Clone, Copy, PartialEq, Eq, Structural)]
pub enum Message {
    TimerTick,
    BtnBPress,
    AccelerometerData { x: i16, z: i16 },
}

impl Message {
    pub fn acceleration(x: i16, z: i16) -> (r: Message)
        ensures
            r == (Message::AccelerometerData { x, z }),
    {
        Message::AccelerometerData { x, z }
    }
}

} // verus!

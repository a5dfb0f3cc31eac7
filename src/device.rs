pub mod cli;
pub mod display;
pub mod accel;
pub mod button;
pub mod timer;

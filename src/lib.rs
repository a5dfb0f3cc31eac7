//! Event-driven core of a falling-tile game for an LED-matrix board: bounded
//! mailboxes between interrupt handlers and tasks, typestate hardware driver
//! lifecycles, the game state machine, the frame compositor and the serial
//! command line.
pub mod device;
pub mod game;
pub mod mailbox;
pub mod util;

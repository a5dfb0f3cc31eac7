pub mod command;
pub mod downlink;
pub mod uplink;
pub mod receiver;

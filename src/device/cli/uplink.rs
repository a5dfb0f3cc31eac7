use vstd::prelude::*;

verus! {

/// Longest response chunk, in bytes.
pub const MESSAGE_LENGTH: usize = 32;

/// Capacity of the mailbox that carries response chunks to the uplink.
pub const MAILBOX_CAPACITY: usize = 32;

/// A chunk of a response, on its way to the serial uplink.
pub type Message = heapless::String<MESSAGE_LENGTH>;

} // verus!

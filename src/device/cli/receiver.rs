use super::command::Command;
use super::uplink::Message;
use crate::util::{chunk_edges_ok, chunk_edges_valid, chunks_bytes, split_chunks, split_text};
use vstd::prelude::*;
use vstd::string::*;

verus! {

/// Capacity of the buffer that the version response is formatted into.
pub const VERSION_BUFFER_SIZE: usize = 128;

/// The text of the help listing.
pub const HELP_TEXT: &'static str = "\r\n=== microtile ===\r\n\r\navailable commands:\r\n- help - prints this help message\r\n- version - prints VCS information\r\n\r\nsyntax:\r\n$ <cmd>;\n            where <cmd> is one of above commands\r\n\r\n==================\r\n";

/// The text before the build description in the version response.
pub const VERSION_PREFIX: &'static str = "\r\nThis microtile build is based on '";

/// The text after the build description in the version response.
pub const VERSION_SUFFIX: &'static str = "'.\r\n";

/// Why the command executor stopped.
#[derive(Debug, Clone, Copy, PartialEq, Eq, Structural)]
pub enum DriverError {
    DownlinkSenderDropped,
    UplinkReceiverDropped,
    Encoding,
}

/// The bytes held by the version response buffer.
pub uninterp spec fn formatted_bytes(s: heapless::String<VERSION_BUFFER_SIZE>) -> Seq<u8>;

/// Relies on heapless::String::new: a new string is empty.
#[verifier::external_body]
fn formatted_new() -> (r: heapless::String<VERSION_BUFFER_SIZE>)
    ensures
        formatted_bytes(r) == Seq::<u8>::empty(),
{
    heapless::String::new()
}

/// Relies on heapless::String::push_str: the text is appended when it fits in
/// the remaining capacity; otherwise nothing changes and `Err` comes back.
#[verifier::external_body]
fn formatted_push_str(s: &mut heapless::String<VERSION_BUFFER_SIZE>, t: &str) -> (r: Result<(), ()>)
    ensures
        formatted_bytes(*old(s)).len() + t.spec_bytes().len() <= VERSION_BUFFER_SIZE ==> r is Ok,
        formatted_bytes(*old(s)).len() + t.spec_bytes().len() <= VERSION_BUFFER_SIZE ==> formatted_bytes(*final(s)) == formatted_bytes(*old(s)) + t.spec_bytes(),
        formatted_bytes(*old(s)).len() + t.spec_bytes().len() > VERSION_BUFFER_SIZE ==> r is Err,
        formatted_bytes(*old(s)).len() + t.spec_bytes().len() > VERSION_BUFFER_SIZE ==> formatted_bytes(*final(s)) == formatted_bytes(*old(s)),
{
    s.push_str(t)
}

/// Relies on heapless::String::as_str: the text holds the buffer's bytes.
#[verifier::external_body]
fn formatted_as_str(s: &heapless::String<VERSION_BUFFER_SIZE>) -> (r: &str)
    ensures
        r.spec_bytes() == formatted_bytes(*s),
{
    s.as_str()
}

/// The bytes of the version response for the build description `describe`.
pub open spec fn version_bytes(describe: Seq<u8>) -> Seq<u8> {
    VERSION_PREFIX.spec_bytes() + describe + VERSION_SUFFIX.spec_bytes()
}

/// The bytes of the response to `cmd`, or `None` when it does not fit in the
/// response buffer.
pub open spec fn response_bytes(cmd: Command, describe: Seq<u8>) -> Option<Seq<u8>> {
    match cmd {
        Command::Help => Some(HELP_TEXT.spec_bytes()),
        Command::Version => if version_bytes(describe).len() <= VERSION_BUFFER_SIZE {
            Some(version_bytes(describe))
        } else {
            None
        },
    }
}

/// Formats the version response for the build description `describe`; a
/// response that does not fit in [`VERSION_BUFFER_SIZE`] bytes is an
/// encoding error.
pub fn version_text(describe: &str) -> (r: Result<heapless::String<VERSION_BUFFER_SIZE>, DriverError>)
    ensures
        version_bytes(describe.spec_bytes()).len() <= VERSION_BUFFER_SIZE ==> r is Ok
            && formatted_bytes(r->Ok_0) == version_bytes(describe.spec_bytes()),
        version_bytes(describe.spec_bytes()).len() > VERSION_BUFFER_SIZE ==> r == Err::<
            heapless::String<VERSION_BUFFER_SIZE>,
            DriverError,
        >(DriverError::Encoding),
{
    let mut formatted = formatted_new();
    if formatted_push_str(&mut formatted, VERSION_PREFIX).is_err() {
        return Err(DriverError::Encoding);
    }
    if formatted_push_str(&mut formatted, describe).is_err() {
        return Err(DriverError::Encoding);
    }
    if formatted_push_str(&mut formatted, VERSION_SUFFIX).is_err() {
        return Err(DriverError::Encoding);
    }
    proof {
        assert(formatted_bytes(formatted) =~= version_bytes(describe.spec_bytes()));
    }
    Ok(formatted)
}

/// Cuts a response into chunks, or reports an encoding error when a chunk
/// edge would split a character.
fn chunk_response(text: &str) -> (r: Result<Vec<Message>, DriverError>)
    ensures
        chunk_edges_ok(text.spec_bytes()) ==> r is Ok && chunks_bytes(r->Ok_0@) == split_chunks(
            text.spec_bytes(),
        ),
        !chunk_edges_ok(text.spec_bytes()) ==> r == Err::<Vec<Message>, DriverError>(
            DriverError::Encoding,
        ),
{
    if chunk_edges_valid(text) {
        Ok(split_text(text))
    } else {
        Err(DriverError::Encoding)
    }
}

/// The chunks, in order, that answer `cmd`, where `describe` names the build.
pub fn execute(cmd: Command, describe: &str) -> (r: Result<Vec<Message>, DriverError>)
    ensures
        match response_bytes(cmd, describe.spec_bytes()) {
            Some(text) => if chunk_edges_ok(text) {
                r is Ok && chunks_bytes(r->Ok_0@) == split_chunks(text)
            } else {
                r == Err::<Vec<Message>, DriverError>(DriverError::Encoding)
            },
            None => r == Err::<Vec<Message>, DriverError>(DriverError::Encoding),
        },
{
    match cmd {
        Command::Help => chunk_response(HELP_TEXT),
        Command::Version => {
            let formatted = version_text(describe)?;
            chunk_response(formatted_as_str(&formatted))
        },
    }
}

} // verus!

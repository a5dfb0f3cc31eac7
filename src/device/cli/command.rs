use vstd::prelude::*;

verus! {

/// Why a byte sequence could not be decoded into a [`Command`].
pub enum CommandError {
    InvalidCommand,
}

/// A command of the serial command line.
#[derive(Debug, PartialEq, Eq, Structural)]
pub enum Command {
    Version,
    Help,
}

/// The keyword that requests the version string.
pub open spec fn version_keyword() -> Seq<u8> {
    seq![0x76u8, 0x65u8, 0x72u8]
}

/// The keyword that requests the help listing.
pub open spec fn help_keyword() -> Seq<u8> {
    seq![0x68u8, 0x65u8, 0x6cu8, 0x70u8]
}

/// The command that a delimited byte sequence names, if any.
pub open spec fn command_of(text: Seq<u8>) -> Option<Command> {
    if text == version_keyword() {
        Some(Command::Version)
    } else if text == help_keyword() {
        Some(Command::Help)
    } else {
        None
    }
}

/// The outcome of decoding the text of one command.
pub open spec fn decode_spec(text: Seq<u8>) -> Result<Command, CommandError> {
    match command_of(text) {
        Some(c) => Ok(c),
        None => Err(CommandError::InvalidCommand),
    }
}

impl Command {
    /// Decodes the text of one command, without its delimiter.
    pub fn parse(value: &[u8]) -> (r: Result<Command, CommandError>)
        ensures
            r == decode_spec(value@),
    {
        if value.len() == 3 && value[0] == 0x76u8 && value[1] == 0x65u8 && value[2] == 0x72u8 {
            assert(value@ =~= version_keyword());
            Ok(Command::Version)
        } else if value.len() == 4 && value[0] == 0x68u8 && value[1] == 0x65u8 && value[2]
            == 0x6cu8 && value[3] == 0x70u8 {
            assert(value@ =~= help_keyword());
            Ok(Command::Help)
        } else {
            assert(value@ != version_keyword() && value@ != help_keyword()) by {
                if value@ == version_keyword() {
                    assert(value@[0] == version_keyword()[0]);
                }
                if value@ == help_keyword() {
                    assert(value@[0] == help_keyword()[0]);
                }
            }
            Err(CommandError::InvalidCommand)
        }
    }
}

impl<'a> TryFrom<&'a [u8]> for Command {
    type Error = CommandError;

    fn try_from(value: &'a [u8]) -> (r: Result<Command, CommandError>)
        ensures
            r == decode_spec(value@),
    {
        Command::parse(value)
    }
}

impl<'a> vstd::std_specs::convert::TryFromSpecImpl<&'a [u8]> for Command {
    open spec fn obeys_try_from_spec() -> bool {
        true
    }

    open spec fn try_from_spec(v: &'a [u8]) -> Result<Command, CommandError> {
        decode_spec(v@)
    }
}

} // verus!

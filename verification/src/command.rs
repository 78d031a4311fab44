//! The control commands an operator can feed the coordinator.
//!
//! The host program reads lines from its command source and hands each line
//! here as bytes; end of input simply ends its read loop.  `help` asks for
//! usage, `stop` raises the stop signal and ends the read loop, and anything
//! else is an unrecognized command that the host reports and reads past.

use vstd::prelude::*;
use crate::stop::StopSignal;

verus! {

/// A parsed line of operator input.
#[derive(Clone, Copy, Debug, PartialEq, Eq, Structural)]
pub enum Command {
    /// Print the list of commands.
    Help,
    /// Raise the stop signal and end the read loop.
    Stop,
    /// Anything else: report it and keep reading.
    Unknown,
}

/// The bytes of the `help` command.
pub open spec fn help_bytes() -> Seq<u8> {
    seq![104u8, 101u8, 108u8, 112u8]
}

/// The bytes of the `stop` command.
pub open spec fn stop_bytes() -> Seq<u8> {
    seq![115u8, 116u8, 111u8, 112u8]
}

/// What a line of input means.
pub open spec fn spec_parse_command(line: Seq<u8>) -> Command {
    if line == help_bytes() {
        Command::Help
    } else if line == stop_bytes() {
        Command::Stop
    } else {
        Command::Unknown
    }
}

/// Parse one line of operator input, already stripped of its line ending.
pub fn parse_command(line: &Vec<u8>) -> (r: Command)
    ensures
        r == spec_parse_command(line@),
{
    if line.len() == 4 && line[0] == 104u8 && line[1] == 101u8 && line[2] == 108u8 && line[3]
        == 112u8 {
        proof {
            assert(line@ =~= help_bytes());
        }
        Command::Help
    } else if line.len() == 4 && line[0] == 115u8 && line[1] == 116u8 && line[2] == 111u8 && line[3]
        == 112u8 {
        proof {
            assert(line@ =~= stop_bytes());
        }
        Command::Stop
    } else {
        proof {
            if line@ == help_bytes() {
                assert(line@[0] == 104u8 && line@[1] == 101u8 && line@[2] == 108u8 && line@[3]
                    == 112u8);
            }
            if line@ == stop_bytes() {
                assert(line@[0] == 115u8 && line@[1] == 116u8 && line@[2] == 111u8 && line@[3]
                    == 112u8);
            }
        }
        Command::Unknown
    }
}

/// Apply one parsed command to the stop signal and say whether the read loop
/// goes on.  Only `stop` changes anything: it raises the signal, exactly
/// once no matter how often it is repeated, and ends the loop.
pub fn handle_command(signal: &mut StopSignal, cmd: Command) -> (keep_reading: bool)
    ensures
        cmd is Stop ==> final(signal).spec_raised() && !keep_reading,
        !(cmd is Stop) ==> *final(signal) == *old(signal) && keep_reading,
{
    match cmd {
        Command::Stop => {
            signal.stop();
            false
        },
        Command::Help => true,
        Command::Unknown => true,
    }
}

} // verus!

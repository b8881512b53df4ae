//! Parsing of raw command payloads from the wireless surface.
//!
//! The controller writes a fixed byte string to the command
//! characteristic; exactly the lowercase payload `open` yields a
//! command, every other payload is ignored without an error. The
//! lowercase form is the canonical one this implementation commits to.

use vstd::prelude::*;

verus! {

/// A request accepted by the actuation worker. The protocol knows a
/// single request: run one open cycle of the door.
#[derive(Clone, Copy, PartialEq, Eq, Structural, Debug)]
pub enum Command {
    Open,
}

/// The canonical byte payload that triggers `Command::Open`.
pub open spec fn open_payload() -> Seq<u8> {
    seq!['o' as u8, 'p' as u8, 'e' as u8, 'n' as u8]
}

/// Turn one raw payload into a command.
///
/// Returns `Some(Command::Open)` exactly when the payload is the
/// canonical `open` byte string; any other payload is silently ignored.
pub fn parse_command(data: &[u8]) -> (c: Option<Command>)
    ensures
        c == if data@ == open_payload() {
            Option::Some(Command::Open)
        } else {
            Option::None::<Command>
        },
{
    if data.len() == 4 && data[0] == 'o' as u8 && data[1] == 'p' as u8 && data[2] == 'e' as u8
        && data[3] == 'n' as u8 {
        proof {
            assert(data@ =~= open_payload());
        }
        Some(Command::Open)
    } else {
        None
    }
}

} // verus!

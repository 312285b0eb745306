//! Keyboard input decoding.
//!
//! One input event is either a single ASCII byte or a three-byte ANSI
//! cursor sequence `ESC [ direction`.  `decode_step` is the byte-stream
//! state machine; `read_key` decodes one buffered event the way the
//! interactive loop reads it: first byte, then — only after an escape
//! byte — up to two more.  Anything unrecognized or truncated decodes to
//! `Noop` and never fails.

use vstd::prelude::*;

use crate::viewport::Command;
use crate::viewport::Viewport;
use crate::viewport::apply_spec;

verus! {

/// The escape byte that opens an ANSI cursor sequence.
pub const ESC: u8 = 27;

/// The bracket byte expected right after `ESC`.
pub const BRACKET: u8 = 91;

/// The decoder's progress through an ANSI cursor sequence.
#[derive(Clone, Copy, PartialEq, Eq, Structural, Debug)]
pub enum DecodeState {
    /// Awaiting the first byte of an event.
    Idle,
    /// Seen `ESC`, awaiting `[`.
    SawEsc,
    /// Seen `ESC [`, awaiting the direction byte.
    SawBracket,
}

/// The command of a single byte read in the idle state; `ESC` is not a
/// command but the start of a cursor sequence.
pub open spec fn single_key_spec(b: u8) -> Command {
    if b == 113 || b == 81 || b == 3 {  // 'q', 'Q', Ctrl-C
        Command::Quit
    } else if b == 43 || b == 61 {  // '+', '='
        Command::ZoomIn
    } else if b == 45 || b == 95 {  // '-', '_'
        Command::ZoomOut
    } else if b == 114 || b == 82 {  // 'r', 'R'
        Command::Reset
    } else if b == 104 || b == 97 || b == 65 {  // 'h', 'a', 'A'
        Command::PanLeft
    } else if b == 108 || b == 100 || b == 68 {  // 'l', 'd', 'D'
        Command::PanRight
    } else if b == 107 || b == 119 || b == 87 {  // 'k', 'w', 'W'
        Command::PanUp
    } else if b == 106 || b == 115 || b == 83 {  // 'j', 's', 'S'
        Command::PanDown
    } else {
        Command::Noop
    }
}

/// The command of the direction byte that closes `ESC [`.
pub open spec fn arrow_key_spec(b: u8) -> Command {
    if b == 65 {  // 'A'
        Command::PanUp
    } else if b == 66 {  // 'B'
        Command::PanDown
    } else if b == 67 {  // 'C'
        Command::PanRight
    } else if b == 68 {  // 'D'
        Command::PanLeft
    } else {
        Command::Noop
    }
}

/// One transition of the decoder: the state after consuming `b` and the
/// command emitted, `Noop` while a sequence is still open or when a byte
/// is unrecognized.
pub open spec fn decode_step_spec(st: DecodeState, b: u8) -> (DecodeState, Command) {
    match st {
        DecodeState::Idle => {
            if b == ESC {
                (DecodeState::SawEsc, Command::Noop)
            } else {
                (DecodeState::Idle, single_key_spec(b))
            }
        },
        DecodeState::SawEsc => {
            if b == BRACKET {
                (DecodeState::SawBracket, Command::Noop)
            } else {
                (DecodeState::Idle, Command::Noop)
            }
        },
        DecodeState::SawBracket => (DecodeState::Idle, arrow_key_spec(b)),
    }
}

/// Feeds one byte to the decoder.
pub fn decode_step(st: DecodeState, b: u8) -> (r: (DecodeState, Command))
    ensures
        r == decode_step_spec(st, b),
{
    match st {
        DecodeState::Idle => {
            if b == ESC {
                (DecodeState::SawEsc, Command::Noop)
            } else {
                (DecodeState::Idle, single_key(b))
            }
        },
        DecodeState::SawEsc => {
            if b == BRACKET {
                (DecodeState::SawBracket, Command::Noop)
            } else {
                (DecodeState::Idle, Command::Noop)
            }
        },
        DecodeState::SawBracket => (DecodeState::Idle, arrow_key(b)),
    }
}

/// Maps a single idle-state byte to its command.
fn single_key(b: u8) -> (cmd: Command)
    ensures
        cmd == single_key_spec(b),
{
    if b == 113 || b == 81 || b == 3 {
        Command::Quit
    } else if b == 43 || b == 61 {
        Command::ZoomIn
    } else if b == 45 || b == 95 {
        Command::ZoomOut
    } else if b == 114 || b == 82 {
        Command::Reset
    } else if b == 104 || b == 97 || b == 65 {
        Command::PanLeft
    } else if b == 108 || b == 100 || b == 68 {
        Command::PanRight
    } else if b == 107 || b == 119 || b == 87 {
        Command::PanUp
    } else if b == 106 || b == 115 || b == 83 {
        Command::PanDown
    } else {
        Command::Noop
    }
}

/// Maps the direction byte of a cursor sequence to its command.
fn arrow_key(b: u8) -> (cmd: Command)
    ensures
        cmd == arrow_key_spec(b),
{
    if b == 65 {
        Command::PanUp
    } else if b == 66 {
        Command::PanDown
    } else if b == 67 {
        Command::PanRight
    } else if b == 68 {
        Command::PanLeft
    } else {
        Command::Noop
    }
}

/// The command decoded from the bytes of one input event: a single
/// non-escape byte maps directly; an escape byte needs `[` and a direction
/// byte to follow.  An empty, truncated, or unrecognized buffer decodes to
/// `Noop`.
pub open spec fn read_key_spec(bytes: Seq<u8>) -> Command {
    if bytes.len() == 0 {
        Command::Noop
    } else if bytes[0] != ESC {
        single_key_spec(bytes[0])
    } else if bytes.len() >= 3 && bytes[1] == BRACKET {
        arrow_key_spec(bytes[2])
    } else {
        Command::Noop
    }
}

/// Decodes the bytes of one input event.
pub fn read_key(bytes: &Vec<u8>) -> (cmd: Command)
    ensures
        cmd == read_key_spec(bytes@),
{
    if bytes.len() == 0 {
        Command::Noop
    } else if bytes[0] != ESC {
        single_key(bytes[0])
    } else if bytes.len() >= 3 && bytes[1] == BRACKET {
        arrow_key(bytes[2])
    } else {
        Command::Noop
    }
}

/// An escape sequence that is truncated (fewer than three bytes), missing
/// its bracket, or closed by an unrecognized direction byte decodes to
/// `Noop`, and `Noop` leaves any viewport unchanged.
pub proof fn lemma_truncated_escape_is_noop(bytes: Seq<u8>, vp: Viewport, init: Viewport)
    requires
        bytes.len() >= 1,
        bytes[0] == ESC,
        bytes.len() < 3 || bytes[1] != BRACKET || !(bytes[2] == 65 || bytes[2] == 66 || bytes[2]
            == 67 || bytes[2] == 68),
    ensures
        read_key_spec(bytes) == Command::Noop,
        apply_spec(vp, read_key_spec(bytes), init) == vp,
{
}

/// `read_key` agrees with the state machine: a non-escape event is one
/// idle transition, and a full cursor sequence is three transitions whose
/// last emits the command; both leave the decoder idle again.
pub proof fn lemma_read_key_matches_decoder(bytes: Seq<u8>)
    requires
        bytes.len() == 1 && bytes[0] != ESC || bytes.len() == 3 && bytes[0] == ESC && bytes[1]
            == BRACKET,
    ensures
        bytes.len() == 1 ==> decode_step_spec(DecodeState::Idle, bytes[0]) == (
            DecodeState::Idle,
            read_key_spec(bytes),
        ),
        bytes.len() == 3 ==> {
            let s1 = decode_step_spec(DecodeState::Idle, bytes[0]).0;
            let s2 = decode_step_spec(s1, bytes[1]).0;
            decode_step_spec(s2, bytes[2]) == (DecodeState::Idle, read_key_spec(bytes))
        },
{
}

} // verus!

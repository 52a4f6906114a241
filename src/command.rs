//! The operations the terminal is driven with, and the control sequences
//! that carry them.

use vstd::prelude::*;

use crate::color::Color;

verus! {

/// One operation on the terminal.
#[derive(Clone, Copy, Debug, PartialEq, Eq, Structural)]
pub enum Command {
    /// Erase the whole screen.
    Clear,
    /// Save the cursor and switch to the alternate screen buffer.
    EnterAltScreen,
    /// Switch back to the normal screen buffer and restore the cursor.
    LeaveAltScreen,
    HideCursor,
    ShowCursor,
    /// Move the cursor to a zero-indexed (row, column).
    MoveCursor(u16, u16),
    SetFg(Color),
    SetBg(Color),
    /// Write one character at the cursor.
    Put(char),
    /// Push buffered output to the terminal.
    Flush,
}

pub open spec fn esc() -> u8 {
    0x1b
}

/// Decimal digits of `n`, most significant first, without leading zeros.
pub open spec fn decimal(n: nat) -> Seq<u8>
    decreases n,
{
    if n < 10 {
        seq![(48 + n) as u8]
    } else {
        decimal(n / 10).push((48 + n % 10) as u8)
    }
}

/// The control sequence that carries a command, where it is one of the fixed
/// or cursor-addressing sequences; the terminal is one-indexed.
pub open spec fn sequence_of(c: Command) -> Option<Seq<u8>> {
    match c {
        Command::Clear => Some(seq![esc(), 0x5b, 0x32, 0x4a]),
        Command::EnterAltScreen => Some(seq![esc(), 0x37, esc(), 0x5b, 0x3f, 0x34, 0x37, 0x68]),
        Command::LeaveAltScreen => Some(seq![esc(), 0x5b, 0x3f, 0x34, 0x37, 0x6c, esc(), 0x38]),
        Command::HideCursor => Some(seq![esc(), 0x5b, 0x3f, 0x32, 0x35, 0x6c]),
        Command::ShowCursor => Some(seq![esc(), 0x5b, 0x3f, 0x32, 0x35, 0x68]),
        Command::MoveCursor(row, col) => Some(
            seq![esc(), 0x5b] + decimal((row + 1) as nat) + seq![0x3b] + decimal((col + 1) as nat) + seq![0x48],
        ),
        _ => None,
    }
}

/// Appends the decimal digits of `n` to `out`.
fn push_decimal(out: &mut Vec<u8>, n: u32)
    ensures
        final(out)@ == old(out)@ + decimal(n as nat),
    decreases n,
{
    if n >= 10 {
        push_decimal(out, n / 10);
    }
    out.push(0x30u8 + (n % 10) as u8);
    proof {
        assert(final(out)@ =~= old(out)@ + decimal(n as nat));
    }
}

impl Command {
    /// The bytes that carry this command, for every command with a control
    /// sequence of its own; colors, characters and flushing go through the
    /// terminal's own handle.
    pub fn control_sequence(&self) -> (r: Option<Vec<u8>>)
        ensures
            r.is_some() == sequence_of(*self).is_some(),
            r.is_some() ==> r.unwrap()@ == sequence_of(*self).unwrap(),
    {
        // The bytes are ASCII: 0x1b is ESC, 0x5b '[', 0x3f '?', 0x3b ';'.
        let r = match *self {
            Command::Clear => Some(vec![0x1bu8, 0x5bu8, 0x32u8, 0x4au8]),
            Command::EnterAltScreen => Some(vec![0x1bu8, 0x37u8, 0x1bu8, 0x5bu8, 0x3fu8, 0x34u8, 0x37u8, 0x68u8]),
            Command::LeaveAltScreen => Some(vec![0x1bu8, 0x5bu8, 0x3fu8, 0x34u8, 0x37u8, 0x6cu8, 0x1bu8, 0x38u8]),
            Command::HideCursor => Some(vec![0x1bu8, 0x5bu8, 0x3fu8, 0x32u8, 0x35u8, 0x6cu8]),
            Command::ShowCursor => Some(vec![0x1bu8, 0x5bu8, 0x3fu8, 0x32u8, 0x35u8, 0x68u8]),
            Command::MoveCursor(row, col) => {
                let mut out = vec![0x1bu8, 0x5bu8];
                push_decimal(&mut out, row as u32 + 1);
                out.push(0x3bu8);
                push_decimal(&mut out, col as u32 + 1);
                out.push(0x48u8);
                Some(out)
            },
            _ => None,
        };
        proof {
            if r.is_some() {
                assert(r.unwrap()@ =~= sequence_of(*self).unwrap());
            }
        }
        r
    }
}

} // verus!

//! The screen facade: keeps the diff cache, the known terminal size and the
//! operations owed to the terminal consistent with each other.
//!
//! The facade does not write to the terminal itself. Each operation queues
//! the commands it owes; whoever owns the terminal takes them with
//! `take_commands` and carries them out in order.

use vstd::prelude::*;

use crate::buffer::{linear_index, paint, resized, span_of, update_changes, char_width_of, Entry, ScreenBuffer};
use crate::color::Color;
use crate::command::Command;
use crate::geometry::{Cell, Size};

verus! {

/// The commands that draw `character` in `fg` on `bg` at `cell`.
pub open spec fn draw_commands(cell: Cell, character: char, fg: Color, bg: Color) -> Seq<Command> {
    seq![
        Command::MoveCursor(cell.0, cell.1),
        Command::SetFg(fg),
        Command::SetBg(bg),
        Command::Put(character),
    ]
}

/// The commands that prepare the terminal for drawing.
pub open spec fn setup_commands() -> Seq<Command> {
    seq![Command::EnterAltScreen, Command::HideCursor, Command::Clear]
}

/// The commands that give the terminal back as it was found.
pub open spec fn teardown_commands() -> Seq<Command> {
    seq![Command::Clear, Command::ShowCursor, Command::LeaveAltScreen]
}

/// The output surface: characters can be put within its borders and
/// cleared again.
pub struct Screen {
    size: Size,
    buffer: ScreenBuffer,
    pending: Vec<Command>,
}

impl Screen {
    /// The size last reported by the terminal.
    pub closed spec fn current_size(&self) -> Size {
        self.size
    }

    /// What each cell last showed, row by row.
    pub closed spec fn cache(&self) -> Seq<Entry> {
        self.buffer@
    }

    /// The commands owed to the terminal and not yet taken.
    pub closed spec fn pending(&self) -> Seq<Command> {
        self.pending@
    }

    /// The cache holds one entry per cell of the current size.
    pub closed spec fn wf(&self) -> bool {
        &&& self.buffer.wf()
        &&& self.buffer.dims() == self.size
    }

    /// A screen of no cells, with the terminal switched to the alternate
    /// screen, its cursor hidden and cleared.
    pub fn setup() -> (r: Screen)
        ensures
            r.wf(),
            r.current_size() == Size(0, 0),
            r.cache() == Seq::<Entry>::empty(),
            r.pending() == setup_commands(),
    {
        let pending = vec![Command::EnterAltScreen, Command::HideCursor, Command::Clear];
        proof {
            assert(pending@ =~= setup_commands());
        }
        Screen { size: Size(0, 0), buffer: ScreenBuffer::new(), pending }
    }

    /// Takes in the size the terminal reports, if it reported one; the cache
    /// follows a new size. Returns whether the size changed.
    pub fn update_size(&mut self, reported: Option<Size>) -> (r: bool)
        requires
            old(self).wf(),
        ensures
            final(self).wf(),
            final(self).pending() == old(self).pending(),
            r == (reported.is_some() && reported.unwrap() != old(self).current_size()),
            r ==> final(self).current_size() == reported.unwrap() && final(self).cache() == resized(
                old(self).cache(),
                (reported.unwrap().0 * reported.unwrap().1) as nat,
            ),
            !r ==> final(self).current_size() == old(self).current_size() && final(self).cache()
                == old(self).cache(),
    {
        match reported {
            Some(new_size) => {
                if new_size == self.size {
                    false
                } else {
                    self.buffer.resize(new_size);
                    self.size = new_size;
                    true
                }
            },
            None => false,
        }
    }

    /// The size last reported by the terminal.
    pub fn size(&self) -> (r: Size)
        ensures
            r == self.current_size(),
    {
        self.size
    }

    /// Clears the terminal and forgets everything drawn.
    pub fn clear(&mut self)
        requires
            old(self).wf(),
        ensures
            final(self).wf(),
            final(self).current_size() == old(self).current_size(),
            final(self).cache() == Seq::new(old(self).cache().len(), |j: int| None::<(char, Color, Color)>),
            final(self).pending() == old(self).pending().push(Command::Clear),
    {
        self.pending.push(Command::Clear);
        self.buffer.clear();
    }

    /// Draws `character` in `fg` on `bg` at `position`, unless it is already
    /// there. Outside the screen this does nothing.
    pub fn put(&mut self, position: Cell, character: char, fg: Color, bg: Color)
        requires
            old(self).wf(),
        ensures
            final(self).wf(),
            final(self).current_size() == old(self).current_size(),
            !position.is_within(old(self).current_size()) ==> final(self).cache() == old(self).cache()
                && final(self).pending() == old(self).pending(),
            position.is_within(old(self).current_size()) ==> {
                let idx = linear_index(position, old(self).current_size().1);
                let entry = Some((character, fg, bg));
                let span = span_of(char_width_of(character));
                &&& final(self).cache() == paint(old(self).cache(), idx, entry, span)
                &&& final(self).pending() == if update_changes(old(self).cache(), idx, entry, span) {
                    old(self).pending() + draw_commands(position, character, fg, bg)
                } else {
                    old(self).pending()
                }
            },
    {
        if let Some(Cell(row, col)) = position.within(self.size) {
            if self.buffer.update(position, character, fg, bg) {
                self.pending.push(Command::MoveCursor(row, col));
                self.pending.push(Command::SetFg(fg));
                self.pending.push(Command::SetBg(bg));
                self.pending.push(Command::Put(character));
                proof {
                    assert(self.pending@ =~= old(self).pending() + draw_commands(
                        position,
                        character,
                        fg,
                        bg,
                    ));
                }
            }
        }
    }

    /// Moves the cursor to `position`; outside the screen this does nothing.
    pub fn set_cursor_position(&mut self, position: Cell)
        requires
            old(self).wf(),
        ensures
            final(self).wf(),
            final(self).current_size() == old(self).current_size(),
            final(self).cache() == old(self).cache(),
            final(self).pending() == if position.is_within(old(self).current_size()) {
                old(self).pending().push(Command::MoveCursor(position.0, position.1))
            } else {
                old(self).pending()
            },
    {
        if let Some(Cell(row, col)) = position.within(self.size) {
            self.pending.push(Command::MoveCursor(row, col));
        }
    }

    /// Asks for buffered output to reach the terminal.
    pub fn flush(&mut self)
        requires
            old(self).wf(),
        ensures
            final(self).wf(),
            final(self).current_size() == old(self).current_size(),
            final(self).cache() == old(self).cache(),
            final(self).pending() == old(self).pending().push(Command::Flush),
    {
        self.pending.push(Command::Flush);
    }

    /// Gives the terminal back: clears it, shows the cursor and leaves the
    /// alternate screen, whatever happened before.
    pub fn teardown(&mut self)
        requires
            old(self).wf(),
        ensures
            final(self).wf(),
            final(self).current_size() == old(self).current_size(),
            final(self).cache() == old(self).cache(),
            final(self).pending() == old(self).pending() + teardown_commands(),
    {
        self.pending.push(Command::Clear);
        self.pending.push(Command::ShowCursor);
        self.pending.push(Command::LeaveAltScreen);
        proof {
            assert(self.pending@ =~= old(self).pending() + teardown_commands());
        }
    }

    /// Hands out the commands owed to the terminal, oldest first, and
    /// forgets them.
    pub fn take_commands(&mut self) -> (r: Vec<Command>)
        requires
            old(self).wf(),
        ensures
            final(self).wf(),
            final(self).current_size() == old(self).current_size(),
            final(self).cache() == old(self).cache(),
            r@ == old(self).pending(),
            final(self).pending() == Seq::<Command>::empty(),
    {
        let mut out: Vec<Command> = Vec::new();
        std::mem::swap(&mut self.pending, &mut out);
        out
    }
}

/// On a screen that was set up and then learned its size, the first drawing
/// of a character at a cell within that size is owed to the terminal, and the
/// same drawing repeated right after is not.
pub proof fn lemma_first_draw_then_repeat(size: Size, position: Cell, character: char, fg: Color, bg: Color)
    requires
        position.is_within(size),
    ensures
        ({
            let fresh = resized(Seq::<Entry>::empty(), (size.0 * size.1) as nat);
            let idx = linear_index(position, size.1);
            let entry = Some((character, fg, bg));
            let span = span_of(char_width_of(character));
            &&& update_changes(fresh, idx, entry, span)
            &&& !update_changes(paint(fresh, idx, entry, span), idx, entry, span)
        }),
{
    crate::buffer::lemma_index_in_grid(position, size);
    let fresh = resized(Seq::<Entry>::empty(), (size.0 * size.1) as nat);
    let idx = linear_index(position, size.1);
    let entry = Some((character, fg, bg));
    let span = span_of(char_width_of(character));
    crate::buffer::lemma_resize_keeps_and_pads(Seq::<Entry>::empty(), (size.0 * size.1) as nat);
    assert(fresh[idx].is_none());
    crate::buffer::lemma_repeat_update_unchanged(fresh, idx, entry, span);
}

} // verus!

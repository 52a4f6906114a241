//! The diff cache: what was last drawn in each cell of the grid.

use vstd::prelude::*;

use crate::color::Color;
use crate::geometry::{Cell, Size};

verus! {

/// What a cell last showed: a character with its foreground and background,
/// or nothing (never drawn, or covered by a wide character to its left).
pub type Entry = Option<(char, Color, Color)>;

/// Display width of a character in columns, as `unicode_width` reports it.
pub uninterp spec fn char_width_of(c: char) -> Option<usize>;

/// Relies on `unicode_width::UnicodeWidthChar::width` for `char`: the number
/// of columns the character occupies, `None` for a control character. The
/// answer depends on the character alone.
#[verifier::external_body]
fn char_width(c: char) -> (r: Option<usize>)
    ensures
        r == char_width_of(c),
{
    unicode_width::UnicodeWidthChar::width(c)
}

/// Columns a character with the reported width takes up: at least one.
pub open spec fn span_of(width: Option<usize>) -> nat {
    match width {
        Some(w) => if w >= 1 {
            w as nat
        } else {
            1
        },
        None => 1,
    }
}

/// Whether a cell after `idx` lies under the footprint of a character of
/// `span` columns drawn at `idx`, clipped to `len` cells.
pub open spec fn covered(idx: int, span: nat, len: int, j: int) -> bool {
    idx < j < idx + span && j < len
}

/// Whether drawing `entry` over `span` columns at `idx` changes anything.
pub open spec fn update_changes(s: Seq<Entry>, idx: int, entry: Entry, span: nat) -> bool {
    s[idx] != entry || exists|j: int| #[trigger] covered(idx, span, s.len() as int, j) && s[j].is_some()
}

/// The cache after drawing `entry` over `span` columns at `idx`: the entry at
/// `idx`, nothing in the cells it covers, everything else as it was.
pub open spec fn paint(s: Seq<Entry>, idx: int, entry: Entry, span: nat) -> Seq<Entry> {
    Seq::new(
        s.len(),
        |j: int|
            if j == idx {
                entry
            } else if covered(idx, span, s.len() as int, j) {
                None
            } else {
                s[j]
            },
    )
}

/// The cache resized to `n` cells: surviving cells kept in place, new ones empty.
pub open spec fn resized(s: Seq<Entry>, n: nat) -> Seq<Entry> {
    if n <= s.len() {
        s.take(n as int)
    } else {
        s + Seq::new((n - s.len()) as nat, |j: int| None)
    }
}

/// Row-major position of `cell` in a grid `width` columns wide.
pub open spec fn linear_index(cell: Cell, width: u16) -> int {
    cell.0 * width + cell.1
}

fn same_entry(a: Entry, b: Entry) -> (r: bool)
    ensures
        r == (a == b),
{
    match (a, b) {
        (Some((c1, f1, b1)), Some((c2, f2, b2))) => c1 == c2 && f1 == f2 && b1 == b2,
        (None, None) => true,
        _ => false,
    }
}

pub(crate) proof fn lemma_index_in_grid(cell: Cell, size: Size)
    requires
        cell.is_within(size),
    ensures
        0 <= linear_index(cell, size.1) < size.0 * size.1,
        size.0 * size.1 <= u16::MAX * u16::MAX,
{
    let (r, c, rows, cols) = (cell.0 as int, cell.1 as int, size.0 as int, size.1 as int);
    assert(0 <= r * cols + c < rows * cols) by (nonlinear_arith)
        requires
            0 <= r < rows,
            0 <= c < cols,
    ;
    assert(rows * cols <= 65535 * 65535) by (nonlinear_arith)
        requires
            0 <= rows <= 65535,
            0 <= cols <= 65535,
    ;
}

/// Mirrors what is known to be on the terminal, so that only what changed
/// is drawn again.
pub struct ScreenBuffer {
    cells: Vec<Entry>,
    width: u16,
    rows: u16,
}

impl View for ScreenBuffer {
    type V = Seq<Entry>;

    closed spec fn view(&self) -> Seq<Entry> {
        self.cells@
    }
}

impl ScreenBuffer {
    /// The grid extent the cache was last sized to.
    pub closed spec fn dims(&self) -> Size {
        Size(self.rows, self.width)
    }

    /// One entry per cell of the grid.
    pub open spec fn wf(&self) -> bool {
        self@.len() == self.dims().0 * self.dims().1
    }

    pub fn new() -> (r: ScreenBuffer)
        ensures
            r.wf(),
            r.dims() == Size(0, 0),
            r@ == Seq::<Entry>::empty(),
    {
        ScreenBuffer { cells: Vec::new(), width: 0, rows: 0 }
    }

    /// The grid extent the cache was last sized to.
    pub fn size(&self) -> (r: Size)
        ensures
            r == self.dims(),
    {
        Size(self.rows, self.width)
    }

    /// The entry at a position of the grid.
    pub fn get(&self, cell: Cell) -> (r: Entry)
        requires
            self.wf(),
            cell.is_within(self.dims()),
        ensures
            r == self@[linear_index(cell, self.dims().1)],
    {
        proof {
            lemma_index_in_grid(cell, self.dims());
        }
        self.cells[cell.0 as usize * self.width as usize + cell.1 as usize]
    }

    /// Grows the cache with empty cells, or cuts it short, to `size`.
    pub fn resize(&mut self, size: Size)
        requires
            old(self).wf(),
        ensures
            final(self).wf(),
            final(self).dims() == size,
            final(self)@ == resized(old(self)@, (size.0 * size.1) as nat),
    {
        let Size(rows, cols) = size;
        proof {
            assert(rows * cols <= 65535 * 65535) by (nonlinear_arith)
                requires
                    rows <= 65535,
                    cols <= 65535,
            ;
        }
        let current_size = self.cells.len();
        let new_size = rows as usize * cols as usize;
        if new_size > current_size {
            let ghost before = self.cells@;
            while self.cells.len() < new_size
                invariant
                    current_size <= self.cells.len() <= new_size,
                    current_size == before.len(),
                    self.cells@ == before + Seq::new(
                        (self.cells.len() - current_size) as nat,
                        |j: int| None::<(char, Color, Color)>,
                    ),
                decreases new_size - self.cells.len(),
            {
                self.cells.push(None);
                assert(self.cells@ =~= before + Seq::new(
                    (self.cells.len() - current_size) as nat,
                    |j: int| None::<(char, Color, Color)>,
                ));
            }
        } else if new_size < current_size {
            self.cells.truncate(new_size);
        }
        self.width = cols;
        self.rows = rows;
        proof {
            assert(self@ =~= resized(old(self)@, (size.0 * size.1) as nat));
        }
    }

    /// Forgets everything drawn: every cell becomes empty.
    pub fn clear(&mut self)
        requires
            old(self).wf(),
        ensures
            final(self).wf(),
            final(self).dims() == old(self).dims(),
            final(self)@ == Seq::new(old(self)@.len(), |j: int| None::<(char, Color, Color)>),
    {
        let n = self.cells.len();
        for i in 0..n
            invariant
                n == self.cells.len(),
                self.rows == old(self).rows,
                self.width == old(self).width,
                n == old(self)@.len(),
                forall|j: int| 0 <= j < i ==> self.cells@[j].is_none(),
        {
            self.cells.set(i, None);
        }
        proof {
            assert(self@ =~= Seq::new(old(self)@.len(), |j: int| None::<(char, Color, Color)>));
        }
    }

    /// Records `character` in `fg` on `bg` at `cell`, the character reported
    /// `width` columns wide; reports whether that changed what the cell, or a
    /// cell the character now covers, held before.
    pub fn update_with_width(
        &mut self,
        cell: Cell,
        character: char,
        fg: Color,
        bg: Color,
        width: Option<usize>,
    ) -> (r: bool)
        requires
            old(self).wf(),
            cell.is_within(old(self).dims()),
        ensures
            final(self).wf(),
            final(self).dims() == old(self).dims(),
            r == update_changes(
                old(self)@,
                linear_index(cell, old(self).dims().1),
                Some((character, fg, bg)),
                span_of(width),
            ),
            final(self)@ == paint(
                old(self)@,
                linear_index(cell, old(self).dims().1),
                Some((character, fg, bg)),
                span_of(width),
            ),
    {
        proof {
            lemma_index_in_grid(cell, self.dims());
        }
        let entry = Some((character, fg, bg));
        let idx = cell.0 as usize * self.width as usize + cell.1 as usize;
        let len = self.cells.len();
        let span: usize = match width {
            Some(w) => if w >= 1 {
                w
            } else {
                1
            },
            None => 1,
        };
        let end: usize = if span <= len - idx {
            idx + span
        } else {
            len
        };
        let ghost s = self.cells@;
        let mut changed = !same_entry(self.cells[idx], entry);
        let mut j: usize = idx + 1;
        while j < end
            invariant
                self.cells@ == s,
                self.rows == old(self).rows,
                self.width == old(self).width,
                len == s.len(),
                idx < len,
                idx + 1 <= j <= end || (end == idx + 1 && j == idx + 1),
                end <= len,
                end == if span <= len - idx { idx + span } else { len as int },
                changed == (s[idx as int] != entry || exists|k: int|
                    #[trigger] covered(idx as int, span as nat, len as int, k) && k < j
                        && s[k].is_some()),
            decreases end - j,
        {
            if self.cells[j].is_some() {
                changed = true;
                assert(covered(idx as int, span as nat, len as int, j as int));
            }
            j = j + 1;
        }
        if changed {
            self.cells.set(idx, entry);
            let mut k: usize = idx + 1;
            while k < end
                invariant
                    self.cells@.len() == len,
                    self.rows == old(self).rows,
                    self.width == old(self).width,
                    s == old(self)@,
                    idx < len,
                    idx + 1 <= k <= end || (end == idx + 1 && k == idx + 1),
                    end <= len,
                    end == if span <= len - idx { idx + span } else { len as int },
                    forall|m: int|
                        0 <= m < len ==> #[trigger] self.cells@[m] == if m == idx {
                            entry
                        } else if covered(idx as int, span as nat, len as int, m) && m < k {
                            None
                        } else {
                            s[m]
                        },
                decreases end - k,
            {
                self.cells.set(k, None);
                k = k + 1;
            }
        }
        proof {
            assert(span as nat == span_of(width));
            let p = paint(s, idx as int, entry, span as nat);
            if !changed {
                assert forall|m: int| 0 <= m < len implies s[m] == p[m] by {
                    if covered(idx as int, span as nat, len as int, m) {
                        assert(s[m].is_none());
                    }
                }
            }
            assert(self.cells@ =~= p);
        }
        changed
    }

    /// Records `character` in `fg` on `bg` at `cell` and reports whether that
    /// changed the cache; a character wider than one column also empties the
    /// cells it covers to its right, up to the end of the cache.
    pub fn update(&mut self, cell: Cell, character: char, fg: Color, bg: Color) -> (r: bool)
        requires
            old(self).wf(),
            cell.is_within(old(self).dims()),
        ensures
            final(self).wf(),
            final(self).dims() == old(self).dims(),
            r == update_changes(
                old(self)@,
                linear_index(cell, old(self).dims().1),
                Some((character, fg, bg)),
                span_of(char_width_of(character)),
            ),
            final(self)@ == paint(
                old(self)@,
                linear_index(cell, old(self).dims().1),
                Some((character, fg, bg)),
                span_of(char_width_of(character)),
            ),
    {
        let width = char_width(character);
        self.update_with_width(cell, character, fg, bg, width)
    }
}

/// A cell that was never drawn changes when something is drawn in it, and
/// drawing the same thing there again right after changes nothing, leaving
/// the cache as it was.
pub proof fn lemma_repeat_update_unchanged(s: Seq<Entry>, idx: int, entry: Entry, span: nat)
    requires
        0 <= idx < s.len(),
        entry.is_some(),
    ensures
        s[idx].is_none() ==> update_changes(s, idx, entry, span),
        !update_changes(paint(s, idx, entry, span), idx, entry, span),
        paint(paint(s, idx, entry, span), idx, entry, span) == paint(s, idx, entry, span),
{
    let p = paint(s, idx, entry, span);
    assert(p[idx] == entry);
    assert forall|j: int| #[trigger] covered(idx, span, p.len() as int, j) implies p[j].is_none() by {}
    assert(paint(p, idx, entry, span) =~= p);
}

/// A character two columns wide leaves the cell to its right empty, and
/// drawing anything in that cell afterwards is a change.
pub proof fn lemma_wide_glyph_covers_next(
    s: Seq<Entry>,
    idx: int,
    entry: Entry,
    next: Entry,
    span: nat,
)
    requires
        0 <= idx,
        idx + 1 < s.len(),
        next.is_some(),
    ensures
        paint(s, idx, entry, 2)[idx + 1].is_none(),
        update_changes(paint(s, idx, entry, 2), idx + 1, next, span),
{
    assert(covered(idx, 2, s.len() as int, idx + 1));
}

/// Resizing keeps every cell that still fits where it was, and every cell
/// added is empty.
pub proof fn lemma_resize_keeps_and_pads(s: Seq<Entry>, n: nat)
    ensures
        resized(s, n).len() == n,
        forall|j: int| 0 <= j < n && j < s.len() ==> #[trigger] resized(s, n)[j] == s[j],
        forall|j: int| s.len() <= j < n ==> (#[trigger] resized(s, n)[j]).is_none(),
{
}

} // verus!

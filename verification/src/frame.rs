//! Which terminal rows a frame has to redraw, and the reusable row buffers.

use vstd::prelude::*;

verus! {

/// Columns of one line that changed: `left..=right`.
#[derive(Clone, Copy, Debug, PartialEq, Eq, Structural)]
pub struct LineDamageBounds {
    pub line: usize,
    pub left: usize,
    pub right: usize,
}

/// Which terminal rows changed since the last frame.
#[derive(Clone, Debug)]
pub enum FrameDamage {
    Full,
    Partial(Vec<LineDamageBounds>),
    /// The terminal woke up but reported no changed rows.
    Unchanged,
}

impl Default for FrameDamage {
    fn default() -> (r: Self)
        ensures
            r is Full,
    {
        FrameDamage::Full
    }
}

/// The damaged lines that lie in a grid of `row_count` rows, in order.
pub open spec fn lines_in_grid(lines: Seq<LineDamageBounds>, row_count: usize) -> Seq<usize>
    decreases lines.len(),
{
    if lines.len() == 0 {
        Seq::empty()
    } else {
        let prev = lines_in_grid(lines.drop_last(), row_count);
        if lines.last().line < row_count {
            prev.push(lines.last().line)
        } else {
            prev
        }
    }
}

/// The rows to redraw in a grid of `row_count` rows, in order: all of them,
/// the damaged lines that lie in the grid, or none.
pub open spec fn damaged_rows_spec(damage: FrameDamage, row_count: usize) -> Seq<usize> {
    match damage {
        FrameDamage::Full => Seq::new(row_count as nat, |i: int| i as usize),
        FrameDamage::Partial(lines) => lines_in_grid(lines@, row_count),
        FrameDamage::Unchanged => Seq::empty(),
    }
}

impl FrameDamage {
    pub fn is_full(&self) -> (r: bool)
        ensures
            r == (*self is Full),
    {
        match self {
            FrameDamage::Full => true,
            _ => false,
        }
    }

    pub fn is_unchanged(&self) -> (r: bool)
        ensures
            r == (*self is Unchanged),
    {
        match self {
            FrameDamage::Unchanged => true,
            _ => false,
        }
    }

    /// The damaged lines of a partial damage.
    pub fn damaged_lines(&self) -> (r: Option<&[LineDamageBounds]>)
        ensures
            match *self {
                FrameDamage::Partial(lines) => r matches Some(s) && s@ == lines@,
                _ => r is None,
            },
    {
        match self {
            FrameDamage::Partial(lines) => Some(lines.as_slice()),
            _ => None,
        }
    }

    /// The rows to redraw (see `damaged_rows_spec`).
    pub fn damaged_rows(&self, row_count: usize) -> (r: Vec<usize>)
        ensures
            r@ == damaged_rows_spec(*self, row_count),
            forall|i: int| 0 <= i < r@.len() ==> #[trigger] r@[i] < row_count,
    {
        let mut rows: Vec<usize> = Vec::new();
        match self {
            FrameDamage::Full => {
                let mut row: usize = 0;
                while row < row_count
                    invariant
                        row <= row_count,
                        rows@ == Seq::new(row as nat, |i: int| i as usize),
                        forall|k: int| 0 <= k < rows@.len() ==> #[trigger] rows@[k] < row_count,
                    decreases row_count - row,
                {
                    rows.push(row);
                    row += 1;
                    assert(rows@ =~= Seq::new(row as nat, |i: int| i as usize));
                }
            },
            FrameDamage::Partial(lines) => {
                let mut i: usize = 0;
                while i < lines.len()
                    invariant
                        i <= lines@.len(),
                        rows@ == lines_in_grid(lines@.take(i as int), row_count),
                        forall|k: int| 0 <= k < rows@.len() ==> #[trigger] rows@[k] < row_count,
                    decreases lines@.len() - i,
                {
                    let bounds = lines[i];
                    let ghost before = lines@.take(i as int);
                    assert(lines@.take(i + 1) =~= before.push(bounds));
                    assert(before.push(bounds).drop_last() =~= before);
                    if bounds.line < row_count {
                        rows.push(bounds.line);
                    }
                    i += 1;
                }
                assert(lines@.take(lines@.len() as int) =~= lines@);
            },
            FrameDamage::Unchanged => {},
        }
        rows
    }
}

/// Makes `buffer` hold `row_count` rows, each of them empty.
pub fn ensure_row_buffer<T>(buffer: &mut Vec<Vec<T>>, row_count: usize)
    ensures
        final(buffer)@.len() == row_count,
        forall|i: int| 0 <= i < row_count ==> (#[trigger] final(buffer)@[i])@.len() == 0,
{
    if buffer.len() > row_count {
        buffer.truncate(row_count);
    }
    while buffer.len() < row_count
        invariant
            buffer@.len() <= row_count,
        decreases row_count - buffer@.len(),
    {
        buffer.push(Vec::new());
    }
    let mut i: usize = 0;
    while i < buffer.len()
        invariant
            buffer@.len() == row_count,
            i <= row_count,
            forall|k: int| 0 <= k < i ==> (#[trigger] buffer@[k])@.len() == 0,
        decreases row_count - i,
    {
        let mut row: Vec<T> = Vec::new();
        std::mem::swap(&mut buffer[i], &mut row);
        i += 1;
    }
}

/// What decides whether a frame must be drawn, besides the panes' damage.
#[derive(Clone, Copy, Debug, PartialEq, Eq, Structural)]
pub struct RedrawCauses {
    /// A full capture was asked for.
    pub force_full: bool,
    /// The blink phase changed since the last frame.
    pub blink_phase_changed: bool,
    /// The tab strip or title bar changed.
    pub chrome_changed: bool,
    /// The bell flash shows now, or showed in the last frame.
    pub bell_active: bool,
    pub bell_was_active: bool,
    /// The menu, search bar, rename field, palette or perf overlay is open.
    pub overlay_open: bool,
    /// Ctrl is held over the terminal (links are highlighted).
    pub link_hover: bool,
}

/// A frame can be skipped when no pane changed, nothing forces a capture or
/// a blink, the chrome did not change, no bell flash shows or just ended,
/// no overlay is open and no link hover shows.
pub open spec fn frame_skippable(damage: Seq<FrameDamage>, c: RedrawCauses) -> bool {
    let terminal_changed = c.force_full || c.blink_phase_changed || exists|i: int|
        0 <= i < damage.len() && !(#[trigger] damage[i] is Unchanged);
    !terminal_changed && !c.chrome_changed && !c.bell_active && !c.bell_was_active && !c.overlay_open
        && !c.link_hover
}

/// Whether the frame can be skipped (see `frame_skippable`); `damage` holds
/// each pane's damage.
pub fn can_skip_frame(damage: &[FrameDamage], causes: RedrawCauses) -> (r: bool)
    ensures
        r == frame_skippable(damage@, causes),
{
    let mut any_changed = false;
    let mut i: usize = 0;
    while i < damage.len()
        invariant
            i <= damage@.len(),
            any_changed == exists|k: int| 0 <= k < i && !(#[trigger] damage@[k] is Unchanged),
        decreases damage@.len() - i,
    {
        if !damage[i].is_unchanged() {
            any_changed = true;
        }
        i += 1;
    }
    let terminal_changed = causes.force_full || causes.blink_phase_changed || any_changed;
    !terminal_changed && !causes.chrome_changed && !causes.bell_active && !causes.bell_was_active
        && !causes.overlay_open && !causes.link_hover
}

} // verus!

//! Highlight spans in the visible grid (search matches, hovered links) and
//! the word test used by whole-word search.

use vstd::prelude::*;

verus! {

/// A highlighted run of columns `[start_col, end_col)` in one visible row.
#[derive(Debug, Clone, Copy, PartialEq, Eq, Structural)]
pub struct SearchMatch {
    pub row: usize,
    pub start_col: usize,
    pub end_col: usize,
}

/// `m` covers cell `(row, col)`.
pub open spec fn span_covers(m: SearchMatch, row: usize, col: usize) -> bool {
    m.row == row && m.start_col <= col && col < m.end_col
}

/// Some span covers cell `(row, col)`.
pub fn search_match_contains(matches: &[SearchMatch], row: usize, col: usize) -> (r: bool)
    ensures
        r == exists|i: int| 0 <= i < matches@.len() && span_covers(#[trigger] matches@[i], row, col),
{
    let mut i: usize = 0;
    while i < matches.len()
        invariant
            i <= matches@.len(),
            forall|k: int| 0 <= k < i ==> !span_covers(#[trigger] matches@[k], row, col),
        decreases matches@.len() - i,
    {
        let m = matches[i];
        if m.row == row && col >= m.start_col && col < m.end_col {
            assert(span_covers(matches@[i as int], row, col));
            return true;
        }
        i += 1;
    }
    false
}

/// The active span (if any) covers cell `(row, col)`.
pub fn search_active_match_contains(matches: &[SearchMatch], active: Option<usize>, row: usize, col: usize) -> (r: bool)
    ensures
        r == (active matches Some(i) && i < matches@.len() && span_covers(matches@[i as int], row, col)),
{
    match active {
        Some(index) => {
            if index < matches.len() {
                let m = matches[index];
                m.row == row && col >= m.start_col && col < m.end_col
            } else {
                false
            }
        },
        None => false,
    }
}

/// Some hovered-link span covers cell `(row, col)`.
pub fn link_match_contains(matches: &[SearchMatch], row: usize, col: usize) -> (r: bool)
    ensures
        r == exists|i: int| 0 <= i < matches@.len() && span_covers(#[trigger] matches@[i], row, col),
{
    search_match_contains(matches, row, col)
}

} // verus!

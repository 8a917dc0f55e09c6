//! The pane grid of the grid view.

use vstd::prelude::*;

verus! {

/// The most panes the grid view shows.
pub const MAX_GRID_PANES: usize = 9;

/// The columns of the pane grid: the least `c >= 1` with `c * c >= n`
/// (the square root of `n`, rounded up).
pub open spec fn grid_cols(n: nat, c: nat) -> bool {
    c >= 1 && c * c >= n && (c == 1 || (c - 1) * (c - 1) < n)
}

/// The grid for `n` panes: `(cols, rows)` with `cols` the square root of `n`
/// rounded up and `rows` just enough rows for `n` panes; `(1, 1)` for none.
pub fn grid_dims(n: usize) -> (r: (usize, usize))
    ensures
        n == 0 ==> r == (1usize, 1usize),
        n > 0 ==> grid_cols(n as nat, r.0 as nat) && r.1 == (n + r.0 - 1) / (r.0 as int),
        r.0 * r.1 >= n,
{
    if n == 0 {
        return (1, 1);
    }
    let mut c: u64 = 1;
    loop
        invariant
            1 <= c <= n,
            c == 1 || (c - 1) * (c - 1) < n,
        ensures
            1 <= c <= n,
            c == 1 || (c - 1) * (c - 1) < n,
            c * c >= n,
        decreases n - c,
    {
        assert((c as u128) * (c as u128) <= (u64::MAX as u128) * (u64::MAX as u128)) by (nonlinear_arith)
            requires
                c <= u64::MAX,
        ;
        let sq: u128 = (c as u128) * (c as u128);
        if sq >= n as u128 {
            break;
        }
        assert(sq >= c) by (nonlinear_arith)
            requires
                c >= 1,
                sq == c * c,
        ;
        c = c + 1;
    }
    let cols = c as usize;
    let q = n / cols;
    let extra: usize = if n % cols != 0 { 1 } else { 0 };
    assert(q + extra <= n) by (nonlinear_arith)
        requires
            cols >= 1,
            n >= 1,
            q == n / cols,
            extra == (if n % cols != 0 { 1int } else { 0 }),
    ;
    let rows = q + extra;
    assert(rows == (n + cols - 1) / (cols as int)) by (nonlinear_arith)
        requires
            cols >= 1,
            rows == n / cols + if n % cols != 0 { 1int } else { 0 },
    ;
    assert(cols * rows >= n) by (nonlinear_arith)
        requires
            cols >= 1,
            rows == n / cols + if n % cols != 0 { 1int } else { 0 },
    ;
    (cols, rows)
}

} // verus!

use vstd::prelude::*;
use crate::cell::{Cell, cell_of_digit};
use crate::grid::Grid;

verus! {

/// Side of the grids that the levels are drawn on.
pub const MAP_SIZE: usize = 20;

/// Why level text was refused.
#[derive(Clone, Copy, Debug, PartialEq, Eq, Structural)]
pub enum LevelError {
    /// The text ends before the last row is complete.
    Truncated,
    /// The character at this row (from the top) and column is not a digit.
    BadCell { row: usize, col: usize },
}

/// The text with each CR LF pair turned into a single LF.
pub open spec fn normalize(s: Seq<u8>) -> Seq<u8>
    decreases s.len(),
{
    if s.len() == 0 {
        Seq::empty()
    } else if s.len() >= 2 && s[0] == 13 && s[1] == 10 {
        seq![10u8] + normalize(s.subrange(2, s.len() as int))
    } else {
        seq![s[0]] + normalize(s.drop_first())
    }
}

/// Where the character of row `i` (from the top), column `j` stands in
/// text of `n` rows of `n` digits, each row ended by a line feed.
pub open spec fn text_pos(n: int, i: int, j: int) -> int {
    i * (n + 1) + j
}

/// Whether the text is long enough to hold every row.
pub open spec fn long_enough(t: Seq<u8>, n: int) -> bool {
    t.len() + 1 >= n * (n + 1)
}

/// Whether every cell of the text is a digit.
pub open spec fn all_digits(t: Seq<u8>, n: int) -> bool {
    forall|i: int, j: int| 0 <= i < n && 0 <= j < n ==> (#[trigger] cell_of_digit(t[text_pos(n, i, j)])) is Some
}

/// The cell that the text gives for column `x`, row `y`, counting rows from
/// the bottom: the last line of the text is row 0.
pub open spec fn cell_at(t: Seq<u8>, n: int, x: int, y: int) -> Cell {
    cell_of_digit(t[text_pos(n, n - 1 - y, x)])->Some_0
}

/// Turns each CR LF pair of `text` into a single LF.
pub fn normalize_line_endings(text: &[u8]) -> (r: Vec<u8>)
    ensures
        r@ == normalize(text@),
{
    let mut out: Vec<u8> = Vec::new();
    let mut i: usize = 0;
    let len = text.len();
    proof {
        assert(text@.subrange(0, len as int) =~= text@);
    }
    while i < len
        invariant
            len == text@.len(),
            i <= len,
            normalize(text@) == out@ + normalize(text@.subrange(i as int, len as int)),
        decreases len - i,
    {
        let ghost rest = text@.subrange(i as int, len as int);
        if i + 1 < len && text[i] == 13 && text[i + 1] == 10 {
            out.push(10);
            proof {
                assert(rest.subrange(2, rest.len() as int) =~= text@.subrange(i + 2, len as int));
                assert(normalize(rest) == seq![10u8] + normalize(rest.subrange(2, rest.len() as int)));
            }
            i = i + 2;
        } else {
            out.push(text[i]);
            proof {
                assert(rest.drop_first() =~= text@.subrange(i + 1, len as int));
                assert(normalize(rest) == seq![text@[i as int]] + normalize(rest.drop_first()));
            }
            i = i + 1;
        }
        proof {
            assert(out@ + normalize(text@.subrange(i as int, len as int)) =~= normalize(text@));
        }
    }
    proof {
        assert(text@.subrange(len as int, len as int) =~= Seq::<u8>::empty());
        assert(out@ =~= out@ + normalize(text@.subrange(i as int, len as int)));
    }
    out
}

proof fn lemma_text_pos(n: int, i: int, j: int)
    requires
        0 <= i < n,
        0 <= j < n,
    ensures
        0 <= text_pos(n, i, j) < n * (n + 1) - 1,
{
    assert(0 <= i * (n + 1) + j < n * (n + 1) - 1) by (nonlinear_arith)
        requires
            0 <= i < n,
            0 <= j < n,
    ;
}

/// Reads a level: `size` rows of `size` digits, top row first, rows ended
/// by LF or CR LF. Each digit names a cell; the last row of the text becomes
/// row 0 of the grid.
pub fn parse_level(text: &[u8], size: usize) -> (r: Result<Grid, LevelError>)
    requires
        (size + 1) * (size + 1) <= usize::MAX,
    ensures
        ({
            let t = normalize(text@);
            let n = size as int;
            &&& r is Ok <==> long_enough(t, n) && all_digits(t, n)
            &&& r == Err::<Grid, LevelError>(LevelError::Truncated) <==> !long_enough(t, n)
            &&& r matches Err(LevelError::BadCell { row, col }) ==> {
                &&& row < n && col < n
                &&& cell_of_digit(t[text_pos(n, row as int, col as int)]) is None
                &&& forall|i: int, j: int|
                    0 <= j < n && (0 <= i < row || (i == row && j < col)) ==> (
                    #[trigger] cell_of_digit(t[text_pos(n, i, j)])) is Some
            }
            &&& r matches Ok(g) ==> {
                &&& g.wf()
                &&& g.size == size
                &&& forall|x: int, y: int| g.in_bounds(x, y) ==> #[trigger] g@[(x, y)] == cell_at(t, n, x, y)
            }
        }),
{
    let t = normalize_line_endings(text);
    let ghost tg = t@;
    let ghost n = size as int;
    proof {
        assert(size + 1 <= (size + 1) * (size + 1)) by (nonlinear_arith);
        assert(size * size <= (size + 1) * (size + 1)) by (nonlinear_arith);
        assert(size * (size + 1) <= (size + 1) * (size + 1)) by (nonlinear_arith);
    }
    let need: usize = size * (size + 1);
    if need > 0 && t.len() < need - 1 {
        return Err(LevelError::Truncated);
    }
    let mut grid = Grid::filled(size, Cell::Blank);
    let mut i: usize = 0;
    while i < size
        invariant
            tg == t@,
            tg == normalize(text@),
            n == size,
            long_enough(tg, n),
            size + 1 <= usize::MAX,
            size * (size + 1) <= usize::MAX,
            grid.wf(),
            grid.size == size,
            i <= size,
            forall|a: int, b: int| 0 <= a < i && 0 <= b < n ==> (#[trigger] cell_of_digit(tg[text_pos(n, a, b)])) is Some,
            forall|x: int, y: int|
                grid.in_bounds(x, y) && n - 1 - y < i ==> #[trigger] grid@[(x, y)] == cell_at(tg, n, x, y),
        decreases size - i,
    {
        let mut j: usize = 0;
        while j < size
            invariant
                tg == t@,
                tg == normalize(text@),
                n == size,
                long_enough(tg, n),
                size + 1 <= usize::MAX,
                size * (size + 1) <= usize::MAX,
                grid.wf(),
                grid.size == size,
                i < size,
                j <= size,
                forall|a: int, b: int| 0 <= a < i && 0 <= b < n ==> (#[trigger] cell_of_digit(tg[text_pos(n, a, b)])) is Some,
                forall|b: int| 0 <= b < j ==> (#[trigger] cell_of_digit(tg[text_pos(n, i as int, b)])) is Some,
                forall|x: int, y: int|
                    grid.in_bounds(x, y) && (n - 1 - y < i || (n - 1 - y == i && x < j)) ==> #[trigger] grid@[(x, y)] == cell_at(tg, n, x, y),
            decreases size - j,
        {
            proof {
                lemma_text_pos(n, i as int, j as int);
                assert(i * (size + 1) <= i * (size + 1) + j);
            }
            let k: usize = i * (size + 1) + j;
            match Cell::from_digit(t[k]) {
                None => {
                    assert(cell_of_digit(tg[text_pos(n, i as int, j as int)]) is None);
                    assert(!all_digits(tg, n));
                    return Err(LevelError::BadCell { row: i, col: j });
                },
                Some(c) => {
                    grid.set(j, size - 1 - i, c);
                },
            }
            j = j + 1;
        }
        i = i + 1;
    }
    Ok(grid)
}

} // verus!

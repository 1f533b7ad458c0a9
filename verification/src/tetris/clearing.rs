//! What clearing rows does to a field: how many tiles stay taken, where the
//! rows that stay come to lie, and that no full row is left.

use vstd::prelude::*;
use crate::tetris::piece::Piece;
use crate::tetris::surface::{
    ascending, blank_row, blank_surface, compacted, covers, full_rows_of, gone_below, inside,
    kept_below, lemma_blank_surface, lemma_full_rows_below, lemma_with_piece, listed, moved_to,
    no_full_row, occupied_count, piece_inside, rectangular, row_count, row_full, rows_within,
    settled, settled_at, with_piece,
};
use crate::tetris::tile::Tile;

verus! {

/// How many of the rows that `rows` lists lie below row `r` in a field of
/// `height` rows, each counted once.
pub open spec fn cleared_under(rows: Seq<usize>, r: int, height: nat) -> int {
    gone_below(rows, height) - gone_below(rows, (r + 1) as nat)
}

/// The taken tiles of the rows of `g` with the indices in `at`, a row counted
/// as often as `at` names it.
pub open spec fn count_in_rows(g: Seq<Seq<Tile>>, at: Seq<int>) -> nat
    decreases at.len(),
{
    if at.len() == 0 {
        0
    } else {
        count_in_rows(g, at.drop_last()) + row_count(g[at.last()])
    }
}

/// The rows that are kept are rows below `n` that are not listed, in
/// ascending order, and every such row is among them.
pub proof fn lemma_kept_below(rows: Seq<usize>, n: nat)
    ensures
        kept_below(rows, n).len() <= n,
        forall|j: int|
            0 <= j < kept_below(rows, n).len() ==> 0 <= #[trigger] kept_below(rows, n)[j] < n
                && !listed(rows, kept_below(rows, n)[j]),
        forall|i: int, j: int|
            0 <= i < j < kept_below(rows, n).len() ==> kept_below(rows, n)[i] < kept_below(
                rows,
                n,
            )[j],
        forall|r: int| 0 <= r < n && !listed(rows, r) ==> kept_below(rows, n).contains(r),
    decreases n,
{
    if n > 0 {
        let m = (n - 1) as nat;
        lemma_kept_below(rows, m);
        let before = kept_below(rows, m);
        let now = kept_below(rows, n);
        assert forall|r: int| 0 <= r < n && !listed(rows, r) implies now.contains(r) by {
            if r == m {
                assert(now[before.len() as int] == r);
            } else {
                let k = choose|k: int| 0 <= k < before.len() && before[k] == r;
                assert(now[k] == r);
            }
        }
    }
}

/// The rows kept below `n` are the first of the rows kept below any greater
/// index, and at most one more row is kept for every index in between.
pub proof fn lemma_kept_prefix(rows: Seq<usize>, n: nat, h: nat)
    requires
        n <= h,
    ensures
        kept_below(rows, n).len() <= kept_below(rows, h).len() <= kept_below(rows, n).len() + (h
            - n),
        forall|j: int|
            0 <= j < kept_below(rows, n).len() ==> #[trigger] kept_below(rows, h)[j] == kept_below(
                rows,
                n,
            )[j],
    decreases h - n,
{
    if n < h {
        lemma_kept_prefix(rows, n, (h - 1) as nat);
    }
}

/// A row that is kept has as many kept rows above it as its place among the
/// kept rows says.
pub proof fn lemma_kept_place(rows: Seq<usize>, r: int, h: nat)
    requires
        0 <= r < h,
        !listed(rows, r),
    ensures
        kept_below(rows, r as nat).len() < kept_below(rows, h).len(),
        kept_below(rows, h)[kept_below(rows, r as nat).len() as int] == r,
        r + cleared_under(rows, r, h) == gone_below(rows, h) + kept_below(rows, r as nat).len(),
        0 <= cleared_under(rows, r, h),
        r + cleared_under(rows, r, h) < h,
{
    let above = kept_below(rows, r as nat);
    let with = kept_below(rows, (r + 1) as nat);
    assert(with == above.push(r));
    assert(with[above.len() as int] == r);
    lemma_kept_prefix(rows, (r + 1) as nat, h);
    lemma_kept_below(rows, r as nat);
    lemma_kept_below(rows, h);
}

/// Of ascending rows, those below index `n` are the first so many, and so
/// many rows below `n` are listed.
pub proof fn lemma_gone_count(rows: Seq<usize>, n: nat) -> (m: nat)
    requires
        ascending(rows),
    ensures
        m <= rows.len(),
        gone_below(rows, n) == m,
        forall|k: int| 0 <= k < m ==> #[trigger] rows[k] < n,
        forall|k: int| m <= k < rows.len() ==> #[trigger] rows[k] >= n,
    decreases n,
{
    if n == 0 {
        0
    } else {
        let before = lemma_gone_count(rows, (n - 1) as nat);
        lemma_kept_below(rows, (n - 1) as nat);
        if listed(rows, n - 1) {
            let j = choose|j: int| 0 <= j < rows.len() && #[trigger] rows[j] == n - 1;
            assert(j >= before) by {
                if j < before {
                    assert(rows[j] < n - 1);
                }
            }
            assert(j == before) by {
                if j > before {
                    assert(rows[before as int] < rows[j]);
                    assert(rows[before as int] >= n - 1);
                }
            }
            assert forall|k: int| before + 1 <= k < rows.len() implies #[trigger] rows[k] >= n by {
                assert(rows[before as int] < rows[k]);
            }
            before + 1
        } else {
            assert forall|k: int| before <= k < rows.len() implies #[trigger] rows[k] >= n by {
                assert(rows[k] >= n - 1);
                if rows[k] == n - 1 {
                    assert(listed(rows, n - 1));
                }
            }
            before
        }
    }
}

/// Ascending rows of a field are all different, so as many rows are cleared
/// as are listed.
pub proof fn lemma_ascending_rows_all_count(rows: Seq<usize>, height: nat)
    requires
        ascending(rows),
        rows_within(rows, height),
    ensures
        gone_below(rows, height) == rows.len(),
{
    let m = lemma_gone_count(rows, height);
    if m < rows.len() {
        assert(rows[m as int] >= height);
    }
}

/// A row that is tagged with a new index has as many taken tiles as before.
pub proof fn lemma_row_count_moved(row: Seq<Tile>, r: int)
    ensures
        row_count(moved_to(row, r)) == row_count(row),
    decreases row.len(),
{
    if row.len() > 0 {
        lemma_row_count_moved(row.drop_last(), r);
        assert(moved_to(row, r).drop_last() =~= moved_to(row.drop_last(), r));
    }
}

/// A blank row has no taken tile.
pub proof fn lemma_row_count_blank(r: int, width: nat)
    ensures
        row_count(blank_row(r, width)) == 0,
    decreases width,
{
    if width > 0 {
        lemma_row_count_blank(r, (width - 1) as nat);
        assert(blank_row(r, width).drop_last() =~= blank_row(r, (width - 1) as nat));
    }
}

/// In a row every tile of which is taken, as many tiles are taken as the row
/// is long.
pub proof fn lemma_row_count_full(row: Seq<Tile>)
    requires
        forall|c: int| 0 <= c < row.len() ==> !(#[trigger] row[c]).empty,
    ensures
        row_count(row) == row.len(),
    decreases row.len(),
{
    if row.len() > 0 {
        lemma_row_count_full(row.drop_last());
    }
}

/// The taken tiles of the first `n + 1` rows are those of the first `n` rows
/// and those of row `n`.
pub proof fn lemma_count_next_row(g: Seq<Seq<Tile>>, n: int)
    requires
        0 <= n < g.len(),
    ensures
        occupied_count(g.take(n + 1)) == occupied_count(g.take(n)) + row_count(g[n]),
{
    assert(g.take(n + 1).drop_last() =~= g.take(n));
}

/// Clearing rows keeps the shape of the field.
pub proof fn lemma_compacted_shape(g: Seq<Seq<Tile>>, height: nat, width: nat, rows: Seq<usize>)
    requires
        rectangular(g, height, width),
    ensures
        rectangular(compacted(g, rows), height, width),
{
    lemma_kept_below(rows, height);
}

/// Where the listed rows are full, the tiles taken in the first `n` rows are
/// those of the rows kept and a row's width for each row listed.
proof fn lemma_count_split(g: Seq<Seq<Tile>>, height: nat, width: nat, rows: Seq<usize>, n: nat)
    requires
        rectangular(g, height, width),
        forall|r: int| 0 <= r < height && listed(rows, r) ==> row_full(g, r),
        n <= height,
    ensures
        count_in_rows(g, kept_below(rows, n)) + width * gone_below(rows, n) == occupied_count(
            g.take(n as int),
        ),
    decreases n,
{
    if n == 0 {
        assert(g.take(0) =~= Seq::<Seq<Tile>>::empty());
        assert(width * 0 == 0) by (nonlinear_arith);
    } else {
        let m = (n - 1) as nat;
        lemma_count_split(g, height, width, rows, m);
        lemma_count_next_row(g, m as int);
        lemma_kept_below(rows, m);
        if listed(rows, m as int) {
            lemma_row_count_full(g[m as int]);
            assert(width * (gone_below(rows, m) + 1) == width * gone_below(rows, m) + width)
                by (nonlinear_arith);
        } else {
            assert(kept_below(rows, n).drop_last() =~= kept_below(rows, m));
        }
    }
}

/// Once rows were cleared, the topmost rows hold no taken tile.
proof fn lemma_count_blank_top(g: Seq<Seq<Tile>>, rows: Seq<usize>, i: nat)
    requires
        i <= gone_below(rows, g.len()),
    ensures
        occupied_count(compacted(g, rows).take(i as int)) == 0,
    decreases i,
{
    let res = compacted(g, rows);
    lemma_kept_below(rows, g.len());
    if i == 0 {
        assert(res.take(0) =~= Seq::<Seq<Tile>>::empty());
    } else {
        lemma_count_blank_top(g, rows, (i - 1) as nat);
        lemma_count_next_row(res, i - 1);
        lemma_row_count_blank(i - 1, g[0].len());
    }
}

/// Once rows were cleared, the tiles taken down to the `m`-th of the rows
/// kept are those of these rows.
proof fn lemma_count_kept(g: Seq<Seq<Tile>>, rows: Seq<usize>, m: nat)
    requires
        m <= kept_below(rows, g.len()).len(),
    ensures
        occupied_count(compacted(g, rows).take((gone_below(rows, g.len()) + m) as int)) == count_in_rows(
            g,
            kept_below(rows, g.len()).take(m as int),
        ),
    decreases m,
{
    let res = compacted(g, rows);
    let kept = kept_below(rows, g.len());
    let gone = gone_below(rows, g.len());
    lemma_kept_below(rows, g.len());
    if m == 0 {
        lemma_count_blank_top(g, rows, gone);
        assert(kept.take(0) =~= Seq::<int>::empty());
    } else {
        lemma_count_kept(g, rows, (m - 1) as nat);
        lemma_count_next_row(res, gone + m - 1);
        lemma_row_count_moved(g[kept[m - 1]], gone + m - 1);
        assert(kept.take(m as int).drop_last() =~= kept.take(m - 1));
    }
}

/// Clearing full rows, in whatever order they are listed.
///
/// For every row cleared a row's width fewer tiles are taken. The topmost
/// rows, as many as were cleared, are blank. Every row that was not cleared
/// comes to lie lower by the number of cleared rows below it, with its tiles
/// as they were but for the row that they are tagged with.
pub proof fn lemma_clear_full_rows(g: Seq<Seq<Tile>>, height: nat, width: nat, rows: Seq<usize>)
    requires
        rectangular(g, height, width),
        forall|r: int| 0 <= r < height && listed(rows, r) ==> row_full(g, r),
    ensures
        rectangular(compacted(g, rows), height, width),
        gone_below(rows, height) <= height,
        occupied_count(compacted(g, rows)) == occupied_count(g) - width * gone_below(rows, height),
        forall|i: int|
            0 <= i < gone_below(rows, height) ==> #[trigger] compacted(g, rows)[i] == blank_row(
                i,
                width,
            ),
        forall|r: int|
            0 <= r < height && !listed(rows, r) ==> 0 <= #[trigger] cleared_under(rows, r, height)
                && r + cleared_under(rows, r, height) < height,
        forall|r: int|
            0 <= r < height && !listed(rows, r) ==> #[trigger] compacted(g, rows)[r + cleared_under(
                rows,
                r,
                height,
            )] == moved_to(g[r], r + cleared_under(rows, r, height)),
{
    let res = compacted(g, rows);
    let kept = kept_below(rows, height);
    let gone = gone_below(rows, height);
    lemma_kept_below(rows, height);
    lemma_compacted_shape(g, height, width, rows);
    lemma_count_split(g, height, width, rows, height);
    lemma_count_kept(g, rows, kept.len());
    assert(res.take(height as int) =~= res);
    assert(g.take(height as int) =~= g);
    assert(kept.take(kept.len() as int) =~= kept);
    assert forall|r: int| 0 <= r < height && !listed(rows, r) implies 0 <= #[trigger] cleared_under(
        rows,
        r,
        height,
    ) && r + cleared_under(rows, r, height) < height && res[r + cleared_under(rows, r, height)]
        == moved_to(g[r], r + cleared_under(rows, r, height)) by {
        lemma_kept_place(rows, r, height);
    }
}

/// Rows that stay keep their order when rows are cleared: of two rows that
/// are not cleared, the one that lay higher still lies higher.
pub proof fn lemma_clearing_keeps_order(rows: Seq<usize>, height: nat, r1: int, r2: int)
    requires
        0 <= r1 < r2 < height,
        !listed(rows, r1),
        !listed(rows, r2),
    ensures
        r1 + cleared_under(rows, r1, height) < r2 + cleared_under(rows, r2, height),
{
    lemma_kept_place(rows, r1, height);
    lemma_kept_place(rows, r2, height);
    lemma_kept_prefix(rows, (r1 + 1) as nat, r2 as nat);
    assert(kept_below(rows, (r1 + 1) as nat) == kept_below(rows, r1 as nat).push(r1));
}

/// Clearing one full row: a row's width fewer tiles are taken, every row
/// above the cleared one lies one row lower, the top row is blank, and the
/// rows below the cleared one are as they were.
pub proof fn lemma_clear_full_row(g: Seq<Seq<Tile>>, height: nat, width: nat, r: usize)
    requires
        rectangular(g, height, width),
        settled(g),
        r < height,
        row_full(g, r as int),
    ensures
        rectangular(compacted(g, seq![r]), height, width),
        occupied_count(compacted(g, seq![r])) == occupied_count(g) - width,
        compacted(g, seq![r])[0] == blank_row(0, width),
        forall|i: int| 0 < i <= r ==> #[trigger] compacted(g, seq![r])[i] == moved_to(g[i - 1], i),
        forall|i: int| r < i < height ==> #[trigger] compacted(g, seq![r])[i] == g[i],
{
    let rows = seq![r];
    let res = compacted(g, rows);
    assert(rows[0] == r);
    assert forall|x: int| listed(rows, x) <==> x == r by {
        if x == r {
            assert(rows[0] == x);
        }
    }
    lemma_clear_full_rows(g, height, width, rows);
    lemma_ascending_rows_all_count(rows, height);
    assert(width * 1 == width) by (nonlinear_arith);
    assert forall|i: int| 0 < i <= r implies #[trigger] res[i] == moved_to(g[i - 1], i) by {
        let m = lemma_gone_count(rows, i as nat);
        assert(m == 0) by {
            if m > 0 {
                assert(rows[0] < i);
            }
        }
        assert(cleared_under(rows, i - 1, height) == 1);
        assert(res[(i - 1) + cleared_under(rows, i - 1, height)] == moved_to(
            g[i - 1],
            (i - 1) + cleared_under(rows, i - 1, height),
        ));
    }
    assert forall|i: int| r < i < height implies #[trigger] res[i] == g[i] by {
        let m = lemma_gone_count(rows, (i + 1) as nat);
        assert(m == 1) by {
            if m == 0 {
                assert(rows[0] >= i + 1);
            }
        }
        assert(cleared_under(rows, i, height) == 0);
        assert(res[i + cleared_under(rows, i, height)] == moved_to(
            g[i],
            i + cleared_under(rows, i, height),
        ));
        assert forall|c: int| 0 <= c < g[i].len() implies g[i][c] == #[trigger] moved_to(g[i], i)[c] by {
            assert(settled_at(g[i][c], i, c));
        }
        assert(g[i] =~= moved_to(g[i], i));
    }
}

/// Once all the full rows of a field are cleared, none of its rows is full.
pub proof fn lemma_clearing_leaves_no_full_row(g: Seq<Seq<Tile>>, height: nat, width: nat)
    requires
        rectangular(g, height, width),
        height <= usize::MAX,
        1 <= width,
    ensures
        no_full_row(compacted(g, full_rows_of(g))),
{
    let rows = full_rows_of(g);
    let res = compacted(g, rows);
    let kept = kept_below(rows, height);
    let gone = height - kept.len();
    lemma_full_rows_below(g, height);
    lemma_kept_below(rows, height);
    assert forall|i: int| 0 <= i < res.len() implies !row_full(res, i) by {
        if i < gone {
            assert(res[i][0].empty);
        } else {
            let from = kept[i - gone];
            assert(!listed(rows, from));
            if row_full(g, from) {
                assert(rows.contains(from as usize));
                let k = choose|k: int| 0 <= k < rows.len() && rows[k] == from as usize;
                assert(rows[k] == from);
            }
            let c = choose|c: int| 0 <= c < g[from].len() && (#[trigger] g[from][c]).empty;
            assert(res[i][c].empty);
        }
    }
}

/// Clearing all the full rows of a field at once: for each of them a row's
/// width fewer tiles are taken, and no row is full any more.
pub proof fn lemma_clear_all_full_rows(g: Seq<Seq<Tile>>, height: nat, width: nat)
    requires
        rectangular(g, height, width),
        height <= usize::MAX,
        1 <= width,
    ensures
        occupied_count(compacted(g, full_rows_of(g))) == occupied_count(g) - width * full_rows_of(
            g,
        ).len(),
        no_full_row(compacted(g, full_rows_of(g))),
{
    let rows = full_rows_of(g);
    lemma_full_rows_below(g, height);
    assert forall|r: int| 0 <= r < height && listed(rows, r) implies row_full(g, r) by {
        let k = choose|k: int| 0 <= k < rows.len() && #[trigger] rows[k] == r;
        assert(rows[k] == r as usize);
        assert(rows.contains(r as usize));
    }
    lemma_clear_full_rows(g, height, width, rows);
    lemma_ascending_rows_all_count(rows, height);
    lemma_clearing_leaves_no_full_row(g, height, width);
}

/// A field that was just made has no full row.
pub proof fn lemma_blank_surface_has_no_full_row(height: nat, width: nat)
    requires
        height <= usize::MAX,
        1 <= width <= usize::MAX,
    ensures
        full_rows_of(blank_surface(height, width)) == Seq::<usize>::empty(),
{
    let g = blank_surface(height, width);
    let rows = full_rows_of(g);
    lemma_blank_surface(height, width);
    lemma_full_rows_below(g, height);
    if rows.len() > 0 {
        let r = rows[0] as int;
        assert(rows[0] == r as usize);
        assert(rows.contains(r as usize));
        assert(row_full(g, r));
    }
    assert(rows =~= Seq::<usize>::empty());
}

/// A row is full once a piece was laid down only if a tile of the piece lies
/// in it, or if it was full before.
pub proof fn lemma_full_row_holds_tile(g: Seq<Seq<Tile>>, p: Piece, r: int)
    requires
        piece_inside(g, p),
        0 <= r < g.len(),
        row_full(with_piece(g, p), r),
        !row_full(g, r),
    ensures
        p.tiles[0].row == r || p.tiles[1].row == r || p.tiles[2].row == r || p.tiles[3].row == r,
{
    lemma_with_piece(g, p);
    let h = with_piece(g, p);
    if !(p.tiles[0].row == r || p.tiles[1].row == r || p.tiles[2].row == r || p.tiles[3].row == r) {
        assert forall|c: int| 0 <= c < g[r].len() implies !(#[trigger] g[r][c]).empty by {
            assert(inside(g, r, c));
            assert(!covers(p, r, c));
            assert(h[r][c] == g[r][c]);
        }
    }
}

/// A piece that is laid on a field without a full row fills four rows at
/// most.
pub proof fn lemma_at_most_four_full(g: Seq<Seq<Tile>>, height: nat, width: nat, p: Piece)
    requires
        rectangular(g, height, width),
        height <= usize::MAX,
        piece_inside(g, p),
        no_full_row(g),
    ensures
        full_rows_of(with_piece(g, p)).len() <= 4,
{
    let h = with_piece(g, p);
    lemma_with_piece(g, p);
    let rows = full_rows_of(h);
    lemma_full_rows_below(h, height);
    if rows.len() >= 5 {
        assert forall|k: int| 0 <= k < 5 implies p.tiles[0].row == #[trigger] rows[k]
            || p.tiles[1].row == rows[k] || p.tiles[2].row == rows[k] || p.tiles[3].row
            == rows[k] by {
            let r = rows[k] as int;
            assert(rows[k] == r as usize);
            assert(rows.contains(r as usize));
            assert(row_full(h, r));
            lemma_full_row_holds_tile(g, p, r);
        }
        assert(rows[0] < rows[1] < rows[2] < rows[3] < rows[4]);
        assert(false);
    }
}

} // verus!

//! The field as a mathematical object: a sequence of rows of tiles, top row
//! first. Everything that the field's operations promise is said over it.

use vstd::prelude::*;
use crate::tetris::piece::Piece;
use crate::tetris::tile::Tile;

verus! {

/// Every row of `g` has `width` tiles, and there are `height` rows.
pub open spec fn rectangular(g: Seq<Seq<Tile>>, height: nat, width: nat) -> bool {
    &&& g.len() == height
    &&& forall|r: int| 0 <= r < g.len() ==> (#[trigger] g[r]).len() == width
}

/// A tile that lies at `(r, c)` says so itself, and if nothing lies on it, it
/// is the blank tile of that position.
pub open spec fn settled_at(t: Tile, r: int, c: int) -> bool {
    &&& t.row == r
    &&& t.column == c
    &&& t.empty ==> t == Tile::blank(t.row, t.column)
}

/// Every tile of `g` is settled where it lies.
pub open spec fn settled(g: Seq<Seq<Tile>>) -> bool {
    forall|r: int, c: int|
        0 <= r < g.len() && 0 <= c < g[r].len() ==> settled_at(#[trigger] g[r][c], r, c)
}

/// `(r, c)` is a position of `g`.
pub open spec fn inside(g: Seq<Seq<Tile>>, r: int, c: int) -> bool {
    0 <= r < g.len() && 0 <= c < g[r].len()
}

/// `(r, c)` is a position of `g` on which nothing lies.
pub open spec fn vacant(g: Seq<Seq<Tile>>, r: int, c: int) -> bool {
    inside(g, r, c) && g[r][c].empty
}

/// `g` with the tile at `(r, c)` replaced by `t`.
pub open spec fn with_tile(g: Seq<Seq<Tile>>, r: int, c: int, t: Tile) -> Seq<Seq<Tile>> {
    g.update(r, g[r].update(c, t))
}

/// `g` after `t` was laid on its own position: the position is taken and
/// shows the colour and glyph of `t`.
pub open spec fn placed(g: Seq<Seq<Tile>>, t: Tile) -> Seq<Seq<Tile>> {
    with_tile(g, t.row as int, t.column as int, t.solid())
}

/// `g` after whatever lay on `(r, c)` was taken away.
pub open spec fn lifted(g: Seq<Seq<Tile>>, r: int, c: int) -> Seq<Seq<Tile>> {
    with_tile(g, r, c, Tile::blank(r as usize, c as usize))
}

/// Every position of row `r` is taken.
pub open spec fn row_full(g: Seq<Seq<Tile>>, r: int) -> bool {
    forall|c: int| 0 <= c < g[r].len() ==> !(#[trigger] g[r][c]).empty
}

/// No row of `g` is full.
pub open spec fn no_full_row(g: Seq<Seq<Tile>>) -> bool {
    forall|r: int| 0 <= r < g.len() ==> !row_full(g, r)
}

/// The indices below `n` of the full rows of `g`, ascending.
pub open spec fn full_rows_below(g: Seq<Seq<Tile>>, n: nat) -> Seq<usize>
    decreases n,
{
    if n == 0 {
        Seq::empty()
    } else if row_full(g, n - 1) {
        full_rows_below(g, (n - 1) as nat).push((n - 1) as usize)
    } else {
        full_rows_below(g, (n - 1) as nat)
    }
}

/// The indices of the full rows of `g`, ascending.
pub open spec fn full_rows_of(g: Seq<Seq<Tile>>) -> Seq<usize> {
    full_rows_below(g, g.len())
}

/// A row of `width` blank tiles that lies at row `r`.
pub open spec fn blank_row(r: int, width: nat) -> Seq<Tile> {
    Seq::new(width, |c: int| Tile::blank(r as usize, c as usize))
}

/// A field of `height` rows of `width` tiles on which nothing lies.
pub open spec fn blank_surface(height: nat, width: nat) -> Seq<Seq<Tile>> {
    Seq::new(height, |r: int| blank_row(r, width))
}

/// `row` as it reads once it lies at row `r`: the same tiles, each tagged
/// with the new row.
pub open spec fn moved_to(row: Seq<Tile>, r: int) -> Seq<Tile> {
    Seq::new(row.len(), |c: int| row[c].at_row(r as usize))
}

/// Row `r` is one of the rows that `rows` lists.
pub open spec fn listed(rows: Seq<usize>, r: int) -> bool {
    exists|k: int| 0 <= k < rows.len() && #[trigger] rows[k] == r
}

/// The indices below `n` of the rows that `rows` does not list, ascending.
pub open spec fn kept_below(rows: Seq<usize>, n: nat) -> Seq<int>
    decreases n,
{
    if n == 0 {
        Seq::empty()
    } else if listed(rows, n - 1) {
        kept_below(rows, (n - 1) as nat)
    } else {
        kept_below(rows, (n - 1) as nat).push(n - 1)
    }
}

/// How many of the rows below index `n` are listed in `rows`, each counted
/// once.
pub open spec fn gone_below(rows: Seq<usize>, n: nat) -> nat {
    (n - kept_below(rows, n).len()) as nat
}

/// `g` after the rows that `rows` lists were cleared, in whatever order and
/// however often `rows` lists them. The rows that are not listed lie at the
/// bottom, in the order in which they lay, each tagged with the row where it
/// lies now. Above them the field is blank.
pub open spec fn compacted(g: Seq<Seq<Tile>>, rows: Seq<usize>) -> Seq<Seq<Tile>> {
    let kept = kept_below(rows, g.len());
    let gone = g.len() - kept.len();
    Seq::new(
        g.len(),
        |i: int|
            if i < gone {
                blank_row(i, g[0].len())
            } else {
                moved_to(g[kept[i - gone]], i)
            },
    )
}

/// How many tiles of `row` are taken.
pub open spec fn row_count(row: Seq<Tile>) -> nat
    decreases row.len(),
{
    if row.len() == 0 {
        0
    } else {
        row_count(row.drop_last()) + if row.last().empty { 0nat } else { 1nat }
    }
}

/// How many tiles of `g` are taken.
pub open spec fn occupied_count(g: Seq<Seq<Tile>>) -> nat
    decreases g.len(),
{
    if g.len() == 0 {
        0
    } else {
        occupied_count(g.drop_last()) + row_count(g.last())
    }
}

/// Every index in `rows` is a row of a field of `height` rows.
pub open spec fn rows_within(rows: Seq<usize>, height: nat) -> bool {
    forall|k: int| 0 <= k < rows.len() ==> (#[trigger] rows[k]) < height
}

/// `rows` is strictly ascending.
pub open spec fn ascending(rows: Seq<usize>) -> bool {
    forall|j: int, k: int| 0 <= j < k < rows.len() ==> rows[j] < rows[k]
}

/// Tile `t` lies on `(r, c)`.
pub open spec fn lies_on(t: Tile, r: int, c: int) -> bool {
    t.row == r && t.column == c
}

/// One of the tiles of `p` lies on `(r, c)`.
pub open spec fn covers(p: Piece, r: int, c: int) -> bool {
    lies_on(p.tiles[0], r, c) || lies_on(p.tiles[1], r, c) || lies_on(p.tiles[2], r, c) || lies_on(
        p.tiles[3],
        r,
        c,
    )
}

/// Every tile of `p` lies on a position of `g`.
pub open spec fn piece_inside(g: Seq<Seq<Tile>>, p: Piece) -> bool {
    &&& inside(g, p.tiles[0].row as int, p.tiles[0].column as int)
    &&& inside(g, p.tiles[1].row as int, p.tiles[1].column as int)
    &&& inside(g, p.tiles[2].row as int, p.tiles[2].column as int)
    &&& inside(g, p.tiles[3].row as int, p.tiles[3].column as int)
}

/// Every tile of `p` lies on a position of `g` on which nothing lies.
pub open spec fn piece_fits(g: Seq<Seq<Tile>>, p: Piece) -> bool {
    &&& vacant(g, p.tiles[0].row as int, p.tiles[0].column as int)
    &&& vacant(g, p.tiles[1].row as int, p.tiles[1].column as int)
    &&& vacant(g, p.tiles[2].row as int, p.tiles[2].column as int)
    &&& vacant(g, p.tiles[3].row as int, p.tiles[3].column as int)
}

/// There is room for `p` in `g` at `dr` rows further down and `dc` columns
/// further right: each of the four places lies in `g`, and nothing lies on
/// it.
pub open spec fn room_at(g: Seq<Seq<Tile>>, p: Piece, dr: int, dc: int) -> bool {
    &&& vacant(g, p.tiles[0].row + dr, p.tiles[0].column + dc)
    &&& vacant(g, p.tiles[1].row + dr, p.tiles[1].column + dc)
    &&& vacant(g, p.tiles[2].row + dr, p.tiles[2].column + dc)
    &&& vacant(g, p.tiles[3].row + dr, p.tiles[3].column + dc)
}

/// `g` after the four tiles of `p` were laid on their positions, in order.
pub open spec fn with_piece(g: Seq<Seq<Tile>>, p: Piece) -> Seq<Seq<Tile>> {
    placed(placed(placed(placed(g, p.tiles[0]), p.tiles[1]), p.tiles[2]), p.tiles[3])
}

/// `g` after whatever lay on the four positions of `p` was taken away.
pub open spec fn without_piece(g: Seq<Seq<Tile>>, p: Piece) -> Seq<Seq<Tile>> {
    lifted(
        lifted(
            lifted(
                lifted(g, p.tiles[0].row as int, p.tiles[0].column as int),
                p.tiles[1].row as int,
                p.tiles[1].column as int,
            ),
            p.tiles[2].row as int,
            p.tiles[2].column as int,
        ),
        p.tiles[3].row as int,
        p.tiles[3].column as int,
    )
}

/// What `p` shows on `(r, c)`: the last of its tiles that lies there, taken.
pub open spec fn shown_by(p: Piece, r: int, c: int) -> Tile
    recommends
        covers(p, r, c),
{
    if lies_on(p.tiles[3], r, c) {
        p.tiles[3].solid()
    } else if lies_on(p.tiles[2], r, c) {
        p.tiles[2].solid()
    } else if lies_on(p.tiles[1], r, c) {
        p.tiles[1].solid()
    } else {
        p.tiles[0].solid()
    }
}

/// `p` can lie `k` rows further down in `g`: its coordinates stay in range
/// and all four positions are free.
pub open spec fn rests(g: Seq<Seq<Tile>>, p: Piece, k: nat) -> bool {
    p.can_shift(k as int, 0) && piece_fits(g, p.shifted(k as int, 0))
}

/// How many rows below where it is `p` comes to rest in `g` if it has
/// already fallen `k` rows: it falls on row by row for as long as it can
/// lie one row further down. No piece falls further than `g` is high.
pub open spec fn descent(g: Seq<Seq<Tile>>, p: Piece, k: nat) -> nat
    decreases g.len() - k,
{
    if k < g.len() && rests(g, p, k + 1) {
        descent(g, p, k + 1)
    } else {
        k
    }
}

/// How many rows `p` can fall in `g` from where it is.
pub open spec fn drop_distance(g: Seq<Seq<Tile>>, p: Piece) -> nat {
    descent(g, p, 0)
}

/// Where `p` comes to rest in `g` if it falls straight down, drawn as
/// outlines.
pub open spec fn landing(g: Seq<Seq<Tile>>, p: Piece) -> Piece {
    p.shifted(drop_distance(g, p) as int, 0).outlined()
}

/// Laying a tile on a position of `g` changes that position alone.
pub proof fn lemma_with_tile(g: Seq<Seq<Tile>>, r: int, c: int, t: Tile)
    requires
        inside(g, r, c),
    ensures
        with_tile(g, r, c, t).len() == g.len(),
        forall|i: int| 0 <= i < g.len() ==> (#[trigger] with_tile(g, r, c, t)[i]).len() == g[i].len(),
        forall|i: int, j: int|
            inside(g, i, j) ==> #[trigger] with_tile(g, r, c, t)[i][j] == (if i == r && j == c {
                t
            } else {
                g[i][j]
            }),
{
}

/// A grid of settled tiles stays one when a tile is written where it is
/// settled.
pub proof fn lemma_settled_tile(g: Seq<Seq<Tile>>, r: int, c: int, t: Tile)
    requires
        settled(g),
        inside(g, r, c),
        settled_at(t, r, c),
    ensures
        settled(with_tile(g, r, c, t)),
{
    let h = with_tile(g, r, c, t);
    assert forall|i: int, j: int| 0 <= i < h.len() && 0 <= j < h[i].len() implies settled_at(
        #[trigger] h[i][j],
        i,
        j,
    ) by {
        assert(settled_at(g[i][j], i, j));
    }
}

/// Laying a piece on `g` changes the positions that it covers, and no other.
pub proof fn lemma_with_piece(g: Seq<Seq<Tile>>, p: Piece)
    requires
        piece_inside(g, p),
    ensures
        with_piece(g, p).len() == g.len(),
        forall|i: int| 0 <= i < g.len() ==> (#[trigger] with_piece(g, p)[i]).len() == g[i].len(),
        forall|i: int, j: int|
            inside(g, i, j) ==> #[trigger] with_piece(g, p)[i][j] == (if covers(p, i, j) {
                shown_by(p, i, j)
            } else {
                g[i][j]
            }),
{
    let g1 = placed(g, p.tiles[0]);
    let g2 = placed(g1, p.tiles[1]);
    let g3 = placed(g2, p.tiles[2]);
    lemma_with_tile(g, p.tiles[0].row as int, p.tiles[0].column as int, p.tiles[0].solid());
    lemma_with_tile(g1, p.tiles[1].row as int, p.tiles[1].column as int, p.tiles[1].solid());
    lemma_with_tile(g2, p.tiles[2].row as int, p.tiles[2].column as int, p.tiles[2].solid());
    lemma_with_tile(g3, p.tiles[3].row as int, p.tiles[3].column as int, p.tiles[3].solid());
}

/// Lifting a piece from `g` blanks the positions that it covers, and changes
/// no other.
pub proof fn lemma_without_piece(g: Seq<Seq<Tile>>, p: Piece)
    requires
        piece_inside(g, p),
    ensures
        without_piece(g, p).len() == g.len(),
        forall|i: int|
            0 <= i < g.len() ==> (#[trigger] without_piece(g, p)[i]).len() == g[i].len(),
        forall|i: int, j: int|
            inside(g, i, j) ==> #[trigger] without_piece(g, p)[i][j] == (if covers(p, i, j) {
                Tile::blank(i as usize, j as usize)
            } else {
                g[i][j]
            }),
{
    let t = p.tiles;
    let g1 = lifted(g, t[0].row as int, t[0].column as int);
    let g2 = lifted(g1, t[1].row as int, t[1].column as int);
    let g3 = lifted(g2, t[2].row as int, t[2].column as int);
    lemma_with_tile(g, t[0].row as int, t[0].column as int, Tile::blank(t[0].row, t[0].column));
    lemma_with_tile(g1, t[1].row as int, t[1].column as int, Tile::blank(t[1].row, t[1].column));
    lemma_with_tile(g2, t[2].row as int, t[2].column as int, Tile::blank(t[2].row, t[2].column));
    lemma_with_tile(g3, t[3].row as int, t[3].column as int, Tile::blank(t[3].row, t[3].column));
}

/// Two grids of the same shape that agree on every position are equal.
pub proof fn lemma_same_tiles(g: Seq<Seq<Tile>>, h: Seq<Seq<Tile>>)
    requires
        g.len() == h.len(),
        forall|i: int| 0 <= i < g.len() ==> (#[trigger] g[i]).len() == h[i].len(),
        forall|i: int, j: int| inside(g, i, j) ==> #[trigger] g[i][j] == h[i][j],
    ensures
        g == h,
{
    assert forall|i: int| 0 <= i < g.len() implies #[trigger] g[i] == h[i] by {
        assert forall|j: int| 0 <= j < g[i].len() implies #[trigger] g[i][j] == h[i][j] by {
            assert(inside(g, i, j));
        }
        assert(g[i] =~= h[i]);
    }
    assert(g =~= h);
}

/// A shadow and a piece that were laid where nothing lay can be lifted again,
/// and the grid is as it was.
pub proof fn lemma_lift_restores(g: Seq<Seq<Tile>>, s: Piece, a: Piece)
    requires
        settled(g),
        piece_fits(g, s),
        piece_fits(g, a),
    ensures
        piece_inside(with_piece(g, s), a),
        piece_inside(with_piece(with_piece(g, s), a), s),
        piece_inside(with_piece(with_piece(g, s), a), a),
        without_piece(without_piece(with_piece(with_piece(g, s), a), s), a) == g,
{
    let g1 = with_piece(g, s);
    lemma_with_piece(g, s);
    let g2 = with_piece(g1, a);
    lemma_with_piece(g1, a);
    let g3 = without_piece(g2, s);
    lemma_without_piece(g2, s);
    let g4 = without_piece(g3, a);
    lemma_without_piece(g3, a);
    assert forall|i: int, j: int| inside(g4, i, j) implies #[trigger] g4[i][j] == g[i][j] by {
        assert(inside(g, i, j) && inside(g1, i, j) && inside(g2, i, j) && inside(g3, i, j));
        assert(settled_at(g[i][j], i, j));
    }
    lemma_same_tiles(g4, g);
}

/// The row indices that `full_rows_below` lists are below `n`, ascend, and are
/// exactly the full rows below `n`.
pub proof fn lemma_full_rows_below(g: Seq<Seq<Tile>>, n: nat)
    requires
        n <= usize::MAX,
    ensures
        rows_within(full_rows_below(g, n), n),
        ascending(full_rows_below(g, n)),
        full_rows_below(g, n).len() <= n,
        forall|r: int|
            0 <= r < n ==> (row_full(g, r) <==> #[trigger] full_rows_below(g, n).contains(
                r as usize,
            )),
    decreases n,
{
    if n > 0 {
        let m = (n - 1) as nat;
        lemma_full_rows_below(g, m);
        let before = full_rows_below(g, m);
        let now = full_rows_below(g, n);
        assert forall|r: int| 0 <= r < n implies (row_full(g, r) <==> #[trigger] now.contains(
            r as usize,
        )) by {
            if row_full(g, m as int) {
                assert(now == before.push(m as usize));
                if r == m {
                    assert(now[before.len() as int] == m as usize);
                } else if before.contains(r as usize) {
                    let k = choose|k: int| 0 <= k < before.len() && before[k] == r as usize;
                    assert(now[k] == r as usize);
                } else if now.contains(r as usize) {
                    let k = choose|k: int| 0 <= k < now.len() && now[k] == r as usize;
                    assert(k < before.len());
                    assert(before[k] == r as usize);
                }
            }
        }
    }
}

/// In a field that is no larger than positions reach, a piece can be shifted
/// to where it fits if and only if there is room for it there. Where its
/// pivot comes to lie has no part in it.
pub proof fn lemma_room_is_all(g: Seq<Seq<Tile>>, height: nat, width: nat, p: Piece, dr: int, dc: int)
    requires
        rectangular(g, height, width),
        height <= usize::MAX,
        width <= usize::MAX,
    ensures
        room_at(g, p, dr, dc) <==> p.can_shift(dr, dc) && piece_fits(g, p.shifted(dr, dc)),
{
}

/// A piece that has not moved is where it was.
pub proof fn lemma_shifted_nowhere(p: Piece)
    ensures
        p.can_shift(0, 0),
        p.shifted(0, 0) == p,
{
    assert(p.shifted(0, 0).tiles =~= p.tiles);
}

/// A piece that can lie `k` rows further down comes to rest at least so far
/// down. It can lie in every row on its way there, and no row further.
pub proof fn lemma_descent_rests(g: Seq<Seq<Tile>>, p: Piece, k: nat)
    requires
        rests(g, p, k),
    ensures
        descent(g, p, k) >= k,
        rests(g, p, descent(g, p, k)),
        forall|j: nat| k <= j <= descent(g, p, k) ==> rests(g, p, j),
        !rests(g, p, descent(g, p, k) + 1),
    decreases g.len() - k,
{
    if k < g.len() && rests(g, p, k + 1) {
        lemma_descent_rests(g, p, k + 1);
    } else if rests(g, p, k + 1) {
        assert(inside(g, p.tiles[0].row + k + 1, p.tiles[0].column as int));
    }
}

/// A piece that lies free can lie in every row down to where it comes to
/// rest, and no row further. Where it comes to rest, its outline lies free
/// too.
pub proof fn lemma_landing_fits(g: Seq<Seq<Tile>>, p: Piece)
    requires
        piece_fits(g, p),
    ensures
        rests(g, p, drop_distance(g, p)),
        forall|j: nat| j <= drop_distance(g, p) ==> rests(g, p, j),
        !rests(g, p, drop_distance(g, p) + 1),
        piece_fits(g, landing(g, p)),
        landing(g, p).name == p.name,
{
    lemma_shifted_nowhere(p);
    lemma_descent_rests(g, p, 0);
}

/// The shadow of a piece lies as many rows below the piece as the piece can
/// fall, and the piece can be taken there.
pub proof fn lemma_shadow_below(g: Seq<Seq<Tile>>, p: Piece)
    requires
        piece_fits(g, p),
    ensures
        landing(g, p).tiles[0].row == p.tiles[0].row + drop_distance(g, p),
        p.can_shift(drop_distance(g, p) as int, 0),
        piece_fits(g, p.shifted(drop_distance(g, p) as int, 0)),
{
    lemma_landing_fits(g, p);
}

/// Two falls one after the other are one fall through the rows of both.
pub proof fn lemma_fall_twice(p: Piece, a: nat, b: nat)
    requires
        p.can_shift(a as int, 0),
    ensures
        p.shifted(a as int, 0).can_shift(b as int, 0) <==> p.can_shift((a + b) as int, 0),
        p.can_shift((a + b) as int, 0) ==> p.shifted(a as int, 0).shifted(b as int, 0)
            == p.shifted((a + b) as int, 0),
{
    if p.can_shift((a + b) as int, 0) {
        assert(p.shifted(a as int, 0).shifted(b as int, 0).tiles =~= p.shifted(
            (a + b) as int,
            0,
        ).tiles);
    }
}

/// A piece that has fallen `a` rows comes to rest where it would have come
/// to rest anyway.
pub proof fn lemma_descent_after_fall(g: Seq<Seq<Tile>>, p: Piece, a: nat, k: nat)
    requires
        p.can_shift(a as int, 0),
    ensures
        descent(g, p.shifted(a as int, 0), k) + a == descent(g, p, k + a),
    decreases g.len() - k,
{
    let fallen = p.shifted(a as int, 0);
    lemma_fall_twice(p, a, k + 1);
    if rests(g, fallen, k + 1) {
        assert(inside(g, p.tiles[0].row + a + k + 1, p.tiles[0].column as int));
        lemma_descent_after_fall(g, p, a, k + 1);
    }
}

/// The shadow is where the fall ends. A piece that lies free can fall a row
/// if and only if it does not lie where its shadow lies. When it has fallen
/// a row, its shadow is where it was. When it has fallen all the way, it
/// lies where its shadow lay and can fall no further.
pub proof fn lemma_fall_ends_at_shadow(g: Seq<Seq<Tile>>, p: Piece)
    requires
        piece_fits(g, p),
    ensures
        rests(g, p, 1) <==> drop_distance(g, p) >= 1,
        rests(g, p, 1) ==> drop_distance(g, p.shifted(1, 0)) == drop_distance(g, p) - 1
            && landing(g, p.shifted(1, 0)) == landing(g, p),
        drop_distance(g, p.shifted(drop_distance(g, p) as int, 0)) == 0,
        landing(g, p.shifted(drop_distance(g, p) as int, 0)) == landing(g, p),
        !rests(g, p.shifted(drop_distance(g, p) as int, 0), 1),
{
    let far = drop_distance(g, p);
    lemma_landing_fits(g, p);
    if rests(g, p, 1) {
        assert(inside(g, p.tiles[0].row + 1, p.tiles[0].column as int));
        lemma_descent_rests(g, p, 1);
        lemma_descent_after_fall(g, p, 1, 0);
        lemma_fall_twice(p, 1, (far - 1) as nat);
    }
    let landed = p.shifted(far as int, 0);
    lemma_descent_after_fall(g, p, far, 0);
    lemma_fall_twice(p, far, 0);
    lemma_fall_twice(p, far, 1);
    lemma_shifted_nowhere(landed);
}

/// On a blank field nothing is taken: no row is full, as long as a row has
/// a tile at all.
pub proof fn lemma_blank_surface(height: nat, width: nat)
    requires
        height <= usize::MAX,
        width <= usize::MAX,
    ensures
        rectangular(blank_surface(height, width), height, width),
        settled(blank_surface(height, width)),
        1 <= width ==> no_full_row(blank_surface(height, width)),
{
    let g = blank_surface(height, width);
    if 1 <= width {
        assert forall|r: int| 0 <= r < g.len() implies !row_full(g, r) by {
            assert(g[r][0].empty);
        }
    }
}

} // verus!

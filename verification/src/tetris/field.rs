//! The playing field: a grid of tiles of fixed size, in which pieces are laid
//! down, tested for room, and from which full rows are cleared.

use vstd::prelude::*;
use crate::tetris::piece::Piece;
use crate::tetris::clearing::{
    lemma_blank_surface_has_no_full_row, lemma_kept_below, lemma_kept_prefix,
};
use crate::tetris::surface::{
    ascending, blank_row, blank_surface, compacted, descent, full_rows_below, full_rows_of,
    inside, kept_below, landing, lemma_blank_surface, lemma_full_rows_below, lemma_same_tiles,
    lemma_settled_tile, lifted, listed, moved_to, occupied_count, piece_fits, piece_inside,
    placed, rectangular, row_count, row_full, rows_within, settled, settled_at, vacant,
    with_piece, with_tile, without_piece,
};
use crate::tetris::tile::Tile;

verus! {

/// The most tiles that a field may hold. The bound keeps the storage of any
/// field within what one allocation can address.
pub const MAX_TILES: usize = 16777216;

/// The tiles of a field in a two-dimensional array, indexed by row and column.
#[verifier::external_body]
pub struct TileStore {
    inner: ndarray::Array2<Tile>,
}

/// What a store holds: its rows from the top, each a sequence of tiles from
/// the left.
pub uninterp spec fn tiles_of(store: TileStore) -> Seq<Seq<Tile>>;

/// `ndarray::Array2::from_shape_fn` on the shape `(height, width)`: an array of
/// that shape whose element at `[row, column]` is what the closure gives for
/// that index, here the blank tile of the position. The call panics when the
/// number of elements does not fit; the bound on `height * width` rules that
/// out.
#[verifier::external_body]
fn store_new(height: usize, width: usize) -> (store: TileStore)
    requires
        1 <= height,
        1 <= width,
        height * width <= MAX_TILES,
    ensures
        rectangular(tiles_of(store), height as nat, width as nat),
        forall|r: int, c: int|
            0 <= r < height && 0 <= c < width ==> #[trigger] tiles_of(store)[r][c] == Tile::blank(
                r as usize,
                c as usize,
            ),
{
    TileStore {
        inner: ndarray::Array2::from_shape_fn((height, width), |(row, column)| Tile::new(row, column)),
    }
}

/// Indexing an `ndarray::Array2` by `[row, column]` for reading: the element at
/// that index. The index must lie within the array, else the call panics.
#[verifier::external_body]
fn store_get(store: &TileStore, row: usize, column: usize) -> (tile: Tile)
    requires
        inside(tiles_of(*store), row as int, column as int),
    ensures
        tile == tiles_of(*store)[row as int][column as int],
{
    store.inner[[row, column]]
}

/// Indexing an `ndarray::Array2` by `[row, column]` for writing: the element at
/// that index becomes `tile`, and every other element stays. The index must
/// lie within the array, else the call panics.
#[verifier::external_body]
fn store_set(store: &mut TileStore, row: usize, column: usize, tile: Tile)
    requires
        inside(tiles_of(*old(store)), row as int, column as int),
    ensures
        tiles_of(*final(store)) == tiles_of(*old(store)).update(
            row as int,
            tiles_of(*old(store))[row as int].update(column as int, tile),
        ),
{
    store.inner[[row, column]] = tile;
}

/// Whether `rows` lists row `r`.
fn listed_in(rows: &Vec<usize>, r: usize) -> (found: bool)
    ensures
        found == listed(rows@, r as int),
{
    let mut k: usize = 0;
    while k < rows.len()
        invariant
            k <= rows.len(),
            forall|j: int| 0 <= j < k ==> #[trigger] rows@[j] != r,
        decreases rows.len() - k,
    {
        if rows[k] == r {
            return true;
        }
        k += 1;
    }
    false
}

/// A grid of tiles, `height` rows of `width` tiles each. Its size never
/// changes.
pub struct Field {
    store: TileStore,
    width: usize,
    height: usize,
}

impl View for Field {
    type V = Seq<Seq<Tile>>;

    /// The rows of the field from the top, each from the left.
    closed spec fn view(&self) -> Seq<Seq<Tile>> {
        tiles_of(self.store)
    }
}

impl Field {
    /// The number of rows.
    pub closed spec fn spec_height(&self) -> usize {
        self.height
    }

    /// The number of tiles in a row.
    pub closed spec fn spec_width(&self) -> usize {
        self.width
    }

    /// The field has at least one tile and at most `MAX_TILES`, its rows have
    /// the length that it says, and every tile is settled where it lies.
    pub open spec fn wf(&self) -> bool {
        &&& 1 <= self.spec_height()
        &&& 1 <= self.spec_width()
        &&& self.spec_height() * self.spec_width() <= MAX_TILES
        &&& rectangular(self@, self.spec_height() as nat, self.spec_width() as nat)
        &&& settled(self@)
    }

    /// A field of `height` rows of `width` blank tiles, if that is at least
    /// one tile and at most `MAX_TILES`. No row of it is full.
    pub fn new(width: usize, height: usize) -> (made: Option<Field>)
        ensures
            made is Some <==> 1 <= width && 1 <= height && width * height <= MAX_TILES,
            made matches Some(field) ==> ({
                &&& field.wf()
                &&& field.spec_width() == width
                &&& field.spec_height() == height
                &&& field@ == blank_surface(height as nat, width as nat)
                &&& full_rows_of(field@) == Seq::<usize>::empty()
            }),
    {
        if width == 0 || height == 0 || width > MAX_TILES || height > MAX_TILES / width {
            proof {
                if width != 0 && height != 0 && width <= MAX_TILES {
                    assert(height >= MAX_TILES / width + 1);
                    assert(width * height > MAX_TILES) by (nonlinear_arith)
                        requires
                            height >= MAX_TILES / width + 1,
                            width >= 1,
                    ;
                } else if width > MAX_TILES && height != 0 {
                    assert(width * height > MAX_TILES) by (nonlinear_arith)
                        requires
                            width > MAX_TILES,
                            height >= 1,
                    ;
                }
            }
            return None;
        }
        assert(width * height <= MAX_TILES) by (nonlinear_arith)
            requires
                1 <= width,
                height <= MAX_TILES / width,
        ;
        assert(height * width == width * height) by (nonlinear_arith);
        let store = store_new(height, width);
        let field = Field { store, width, height };
        proof {
            lemma_blank_surface(height as nat, width as nat);
            lemma_same_tiles(field@, blank_surface(height as nat, width as nat));
            lemma_blank_surface_has_no_full_row(height as nat, width as nat);
        }
        Some(field)
    }

    /// The number of rows.
    #[verifier::when_used_as_spec(spec_height)]
    pub fn height(&self) -> (height: usize)
        ensures
            height == self.spec_height(),
    {
        self.height
    }

    /// The number of tiles in a row.
    #[verifier::when_used_as_spec(spec_width)]
    pub fn width(&self) -> (width: usize)
        ensures
            width == self.spec_width(),
    {
        self.width
    }

    /// Writes `tile` at `(row, column)`, where it is settled.
    fn put(&mut self, row: usize, column: usize, tile: Tile)
        requires
            old(self).wf(),
            row < old(self).spec_height(),
            column < old(self).spec_width(),
            settled_at(tile, row as int, column as int),
        ensures
            final(self).wf(),
            final(self).spec_height() == old(self).spec_height(),
            final(self).spec_width() == old(self).spec_width(),
            final(self)@ == with_tile(old(self)@, row as int, column as int, tile),
    {
        store_set(&mut self.store, row, column, tile);
        proof {
            lemma_settled_tile(old(self)@, row as int, column as int, tile);
        }
    }

    /// The tile at `(row, column)`.
    pub fn get(&self, row: usize, column: usize) -> (tile: Tile)
        requires
            self.wf(),
            row < self.spec_height(),
            column < self.spec_width(),
        ensures
            tile == self@[row as int][column as int],
    {
        store_get(&self.store, row, column)
    }

    /// Lays `tile` on its own position: the position is taken from now on and
    /// shows the colour and glyph of `tile`. The position must lie in the
    /// field.
    pub fn add_tile(&mut self, tile: Tile)
        requires
            old(self).wf(),
            tile.row < old(self).spec_height(),
            tile.column < old(self).spec_width(),
        ensures
            final(self).wf(),
            final(self).spec_height() == old(self).spec_height(),
            final(self).spec_width() == old(self).spec_width(),
            final(self)@ == placed(old(self)@, tile),
    {
        let solid = Tile { empty: false, ..tile };
        self.put(tile.row, tile.column, solid);
    }

    /// Takes away whatever lies on the position of `tile`, which must lie in
    /// the field: the position is blank from now on.
    pub fn remove_tile(&mut self, tile: Tile)
        requires
            old(self).wf(),
            tile.row < old(self).spec_height(),
            tile.column < old(self).spec_width(),
        ensures
            final(self).wf(),
            final(self).spec_height() == old(self).spec_height(),
            final(self).spec_width() == old(self).spec_width(),
            final(self)@ == lifted(old(self)@, tile.row as int, tile.column as int),
    {
        let blank = Tile::new(tile.row, tile.column);
        self.put(tile.row, tile.column, blank);
    }

    /// Whether the position of `tile` lies in the field and nothing lies on
    /// it.
    pub fn is_valid(&self, tile: Tile) -> (valid: bool)
        requires
            self.wf(),
        ensures
            valid == vacant(self@, tile.row as int, tile.column as int),
            valid == (tile.row < self.spec_height() && tile.column < self.spec_width()
                && !self@[tile.row as int][tile.column as int].occupied()),
    {
        if tile.row < self.height && tile.column < self.width {
            store_get(&self.store, tile.row, tile.column).empty
        } else {
            false
        }
    }

    /// Lays the four tiles of `piece` on their positions, which must lie in
    /// the field.
    pub fn add(&mut self, piece: &Piece)
        requires
            old(self).wf(),
            piece_inside(old(self)@, *piece),
        ensures
            final(self).wf(),
            final(self).spec_height() == old(self).spec_height(),
            final(self).spec_width() == old(self).spec_width(),
            final(self)@ == with_piece(old(self)@, *piece),
    {
        self.add_tile(piece.tiles[0]);
        self.add_tile(piece.tiles[1]);
        self.add_tile(piece.tiles[2]);
        self.add_tile(piece.tiles[3]);
    }

    /// Takes away whatever lies on the four positions of `piece`, which must
    /// lie in the field.
    pub fn remove(&mut self, piece: &Piece)
        requires
            old(self).wf(),
            piece_inside(old(self)@, *piece),
        ensures
            final(self).wf(),
            final(self).spec_height() == old(self).spec_height(),
            final(self).spec_width() == old(self).spec_width(),
            final(self)@ == without_piece(old(self)@, *piece),
    {
        self.remove_tile(piece.tiles[0]);
        self.remove_tile(piece.tiles[1]);
        self.remove_tile(piece.tiles[2]);
        self.remove_tile(piece.tiles[3]);
    }

    /// Whether every tile of `piece` lies on a position of the field on
    /// which nothing lies.
    pub fn fits(&self, piece: &Piece) -> (fits: bool)
        requires
            self.wf(),
        ensures
            fits == piece_fits(self@, *piece),
    {
        self.is_valid(piece.tiles[0]) && self.is_valid(piece.tiles[1]) && self.is_valid(
            piece.tiles[2],
        ) && self.is_valid(piece.tiles[3])
    }

    /// Where `piece` comes to rest if it falls straight down from where it
    /// is, drawn as outlines: it falls row by row for as long as all four
    /// positions one row further down are free.
    pub fn landing(&self, piece: &Piece) -> (shadow: Piece)
        requires
            self.wf(),
        ensures
            shadow == landing(self@, *piece),
    {
        let mut k: usize = 0;
        let mut falling = true;
        while falling && k < self.height
            invariant
                self.wf(),
                k <= self.spec_height(),
                piece.can_shift(k as int, 0),
                descent(self@, *piece, 0) == descent(self@, *piece, k as nat),
                !falling ==> descent(self@, *piece, k as nat) == k,
            decreases self.spec_height() - k + (if falling { 1int } else { 0int }),
        {
            let lower = match piece.shift(k + 1, 0, false) {
                Some(next) => self.fits(&next),
                None => false,
            };
            if lower {
                k += 1;
            } else {
                falling = false;
            }
        }
        match piece.shift(k, 0, false) {
            Some(rest) => rest.as_outline(),
            None => piece.as_outline(),
        }
    }

    /// Whether every position of row `row` is taken.
    pub fn is_row_full(&self, row: usize) -> (full: bool)
        requires
            self.wf(),
            row < self.spec_height(),
        ensures
            full == row_full(self@, row as int),
    {
        let mut c: usize = 0;
        while c < self.width
            invariant
                self.wf(),
                row < self.spec_height(),
                c <= self.spec_width(),
                forall|k: int| 0 <= k < c ==> !(#[trigger] self@[row as int][k]).empty,
            decreases self.spec_width() - c,
        {
            if store_get(&self.store, row, c).empty {
                return false;
            }
            c += 1;
        }
        true
    }

    /// The indices of the full rows, ascending: a row is listed if and only
    /// if every one of its positions is taken.
    pub fn full_rows(&self) -> (rows: Vec<usize>)
        requires
            self.wf(),
        ensures
            rows@ == full_rows_of(self@),
            rows_within(rows@, self.spec_height() as nat),
            ascending(rows@),
            forall|r: int|
                0 <= r < self.spec_height() ==> (row_full(self@, r) <==> #[trigger] rows@.contains(
                    r as usize,
                )),
    {
        let mut rows: Vec<usize> = Vec::new();
        let mut r: usize = 0;
        while r < self.height
            invariant
                self.wf(),
                r <= self.spec_height(),
                rows@ == full_rows_below(self@, r as nat),
            decreases self.spec_height() - r,
        {
            if self.is_row_full(r) {
                rows.push(r);
            }
            r += 1;
        }
        proof {
            lemma_full_rows_below(self@, self.height as nat);
        }
        rows
    }

    /// Copies row `from` to row `to` below it, or onto itself: the tiles of
    /// `to` are those of `from`, tagged with the row `to`.
    fn lower_row(&mut self, from: usize, to: usize)
        requires
            old(self).wf(),
            from <= to < old(self).spec_height(),
        ensures
            final(self).wf(),
            final(self).spec_height() == old(self).spec_height(),
            final(self).spec_width() == old(self).spec_width(),
            final(self)@ == old(self)@.update(to as int, moved_to(old(self)@[from as int], to as int)),
    {
        let ghost g = self@;
        let mut c: usize = 0;
        while c < self.width
            invariant
                self.wf(),
                self.spec_height() == old(self).spec_height(),
                self.spec_width() == old(self).spec_width(),
                rectangular(g, self.spec_height() as nat, self.spec_width() as nat),
                settled(g),
                from <= to < self.spec_height(),
                c <= self.spec_width(),
                forall|j: int| 0 <= j < self.spec_height() && j != to ==> #[trigger] self@[j] == g[j],
                forall|k: int|
                    0 <= k < c ==> #[trigger] self@[to as int][k] == g[from as int][k].at_row(to),
                forall|k: int|
                    c <= k < self.spec_width() ==> #[trigger] self@[to as int][k]
                        == g[to as int][k],
            decreases self.spec_width() - c,
        {
            let above = store_get(&self.store, from, c);
            let moved = Tile { row: to, ..above };
            proof {
                assert(settled_at(g[from as int][c as int], from as int, c as int));
            }
            self.put(to, c, moved);
            c += 1;
        }
        proof {
            assert(self@[to as int] =~= moved_to(g[from as int], to as int));
            assert(self@ =~= g.update(to as int, moved_to(g[from as int], to as int)));
        }
    }

    /// Blanks row `row`.
    fn wipe_row(&mut self, row: usize)
        requires
            old(self).wf(),
            row < old(self).spec_height(),
        ensures
            final(self).wf(),
            final(self).spec_height() == old(self).spec_height(),
            final(self).spec_width() == old(self).spec_width(),
            final(self)@ == old(self)@.update(
                row as int,
                blank_row(row as int, old(self).spec_width() as nat),
            ),
    {
        let ghost g = self@;
        let mut c: usize = 0;
        while c < self.width
            invariant
                self.wf(),
                self.spec_height() == old(self).spec_height(),
                self.spec_width() == old(self).spec_width(),
                rectangular(g, self.spec_height() as nat, self.spec_width() as nat),
                row < self.spec_height(),
                c <= self.spec_width(),
                forall|j: int| 0 <= j < self.spec_height() && j != row ==> #[trigger] self@[j] == g[j],
                forall|k: int| 0 <= k < c ==> #[trigger] self@[row as int][k] == Tile::blank(row, k as usize),
            decreases self.spec_width() - c,
        {
            let blank = Tile::new(row, c);
            self.put(row, c, blank);
            c += 1;
        }
        proof {
            assert(self@[row as int] =~= blank_row(row as int, self.spec_width() as nat));
            assert(self@ =~= g.update(row as int, blank_row(row as int, self.spec_width() as nat)));
        }
    }

    /// Clears the rows that `rows` lists, in whatever order and however often
    /// it lists them; an index that is no row of the field counts for
    /// nothing. The rows that stay sink to the bottom in the order in which
    /// they lay, and above them the field is blank.
    pub fn clear_rows(&mut self, rows: Vec<usize>)
        requires
            old(self).wf(),
        ensures
            final(self).wf(),
            final(self).spec_height() == old(self).spec_height(),
            final(self).spec_width() == old(self).spec_width(),
            final(self)@ == compacted(old(self)@, rows@),
    {
        let ghost g = self@;
        let ghost kept = kept_below(rows@, self.height as nat);
        let ghost gone = self.height - kept.len();
        proof {
            lemma_kept_below(rows@, self.height as nat);
        }
        let mut read: usize = self.height;
        let mut write: usize = self.height;
        while read > 0
            invariant
                self.wf(),
                self.spec_height() == old(self).spec_height(),
                self.spec_width() == old(self).spec_width(),
                rectangular(g, self.spec_height() as nat, self.spec_width() as nat),
                kept == kept_below(rows@, self.spec_height() as nat),
                gone == self.spec_height() - kept.len(),
                0 <= gone,
                read <= write <= self.spec_height(),
                write == gone + kept_below(rows@, read as nat).len(),
                forall|j: int|
                    write <= j < self.spec_height() ==> #[trigger] self@[j] == moved_to(
                        g[kept[j - gone]],
                        j,
                    ),
                forall|j: int| 0 <= j < read ==> #[trigger] self@[j] == g[j],
            decreases read,
        {
            read -= 1;
            proof {
                lemma_kept_prefix(rows@, read as nat, self.height as nat);
                lemma_kept_prefix(rows@, (read + 1) as nat, self.height as nat);
                lemma_kept_below(rows@, read as nat);
            }
            if !listed_in(&rows, read) {
                proof {
                    let above = kept_below(rows@, read as nat);
                    assert(kept_below(rows@, (read + 1) as nat) == above.push(read as int));
                    assert(kept[above.len() as int] == read);
                }
                write -= 1;
                self.lower_row(read, write);
            }
        }
        let mut top: usize = 0;
        while top < write
            invariant
                self.wf(),
                self.spec_height() == old(self).spec_height(),
                self.spec_width() == old(self).spec_width(),
                rectangular(g, self.spec_height() as nat, self.spec_width() as nat),
                write == gone,
                top <= write <= self.spec_height(),
                forall|j: int|
                    write <= j < self.spec_height() ==> #[trigger] self@[j] == moved_to(
                        g[kept[j - gone]],
                        j,
                    ),
                forall|j: int|
                    0 <= j < top ==> #[trigger] self@[j] == blank_row(j, self.spec_width() as nat),
            decreases write - top,
        {
            self.wipe_row(top);
            top += 1;
        }
        proof {
            assert(self@ =~= compacted(g, rows@));
        }
    }

    /// Clears row `row`, if the field has such a row: every row above it
    /// comes to lie one row lower, and the top row is blank.
    pub fn clear_row(&mut self, row: usize)
        requires
            old(self).wf(),
        ensures
            final(self).wf(),
            final(self).spec_height() == old(self).spec_height(),
            final(self).spec_width() == old(self).spec_width(),
            final(self)@ == compacted(old(self)@, seq![row]),
    {
        let mut rows: Vec<usize> = Vec::new();
        rows.push(row);
        proof {
            assert(rows@ =~= seq![row]);
        }
        self.clear_rows(rows);
    }

    /// How many positions of the field are taken.
    pub fn occupied_count(&self) -> (count: usize)
        requires
            self.wf(),
        ensures
            count == occupied_count(self@),
    {
        let mut count: usize = 0;
        let mut r: usize = 0;
        while r < self.height
            invariant
                self.wf(),
                r <= self.spec_height(),
                count == occupied_count(self@.take(r as int)),
                count <= r * self.spec_width(),
            decreases self.spec_height() - r,
        {
            let mut in_row: usize = 0;
            let mut c: usize = 0;
            while c < self.width
                invariant
                    self.wf(),
                    r < self.spec_height(),
                    c <= self.spec_width(),
                    in_row == row_count(self@[r as int].take(c as int)),
                    in_row <= c,
                decreases self.spec_width() - c,
            {
                proof {
                    let row = self@[r as int];
                    assert(row.take(c + 1).drop_last() =~= row.take(c as int));
                }
                if !store_get(&self.store, r, c).empty {
                    in_row += 1;
                }
                c += 1;
            }
            proof {
                assert(self@[r as int].take(c as int) =~= self@[r as int]);
                assert(self@.take(r + 1).drop_last() =~= self@.take(r as int));
                assert((r + 1) * self.spec_width() == r * self.spec_width() + self.spec_width())
                    by (nonlinear_arith);
                assert(r * self.spec_width() + self.spec_width() <= self.spec_height()
                    * self.spec_width()) by (nonlinear_arith)
                    requires
                        r + 1 <= self.spec_height(),
                ;
            }
            count += in_row;
            r += 1;
        }
        proof {
            assert(self@.take(r as int) =~= self@);
        }
        count
    }
}

} // verus!

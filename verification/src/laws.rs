use vstd::prelude::*;
use vstd::arithmetic::div_mod::{lemma_fundamental_div_mod, lemma_mod_bound};
use crate::archive::{grid_entries, row_entries};
use crate::grid::ceil_div;
use crate::grid::TileError;
use crate::imaging::{decodes, image_height, image_width, pipeline_image};
use crate::names::{lemma_tile_name_injective, tile_name_seq};
use crate::tiler::{cell_png, tiles_spec};

verus! {

/// For a rectangular grid of `cols`-wide rows, the archive entry list is
/// exactly one entry per cell, row-major: the entry of cell `(r, c)` stands
/// at index `r * cols + c`, named for that cell and holding that cell's
/// bytes.
pub proof fn lemma_grid_entries_index(tiles: Seq<Seq<Seq<u8>>>, cols: nat)
    requires
        forall|r: int| 0 <= r < tiles.len() ==> (#[trigger] tiles[r]).len() == cols,
    ensures
        grid_entries(tiles).len() == tiles.len() * cols,
        forall|r: int, c: int|
            0 <= r < tiles.len() && 0 <= c < cols ==> #[trigger] grid_entries(tiles)[r * (
            cols as int) + c] == (tile_name_seq(r as nat, c as nat), tiles[r][c]),
    decreases tiles.len(),
{
    if tiles.len() == 0 {
        assert(grid_entries(tiles).len() == 0);
    } else {
        let n = tiles.len() as int;
        let prefix = tiles.drop_last();
        let lastrow = row_entries(tiles.last(), (n - 1) as nat);
        lemma_grid_entries_index(prefix, cols);
        assert(grid_entries(tiles) == grid_entries(prefix) + lastrow);
        assert(lastrow.len() == cols);
        assert(n * cols == (n - 1) * cols + cols) by (nonlinear_arith);
        assert forall|r: int, c: int| 0 <= r < n && 0 <= c < cols implies #[trigger] grid_entries(
            tiles,
        )[r * (cols as int) + c] == (tile_name_seq(r as nat, c as nat), tiles[r][c]) by {
            let k = r * (cols as int) + c;
            if r < n - 1 {
                assert(k < (n - 1) * cols && k >= 0) by (nonlinear_arith)
                    requires
                        0 <= r < n - 1,
                        0 <= c < cols,
                        k == r * (cols as int) + c,
                ;
                assert(grid_entries(tiles)[k] == grid_entries(prefix)[k]);
                assert(prefix[r] == tiles[r]);
            } else {
                assert(k - (n - 1) * (cols as int) == c);
                assert(k >= (n - 1) * cols && k < grid_entries(tiles).len()) by (nonlinear_arith)
                    requires
                        r == n - 1,
                        0 <= c < cols,
                        k == r * (cols as int) + c,
                        grid_entries(tiles).len() == n * cols,
                ;
                assert(grid_entries(tiles)[k] == lastrow[c]);
                assert(tiles.last() == tiles[n - 1]);
            }
        }
    }
}

/// Every index of the entry list is the cell `(k / cols, k % cols)`.
pub proof fn lemma_grid_entry_at(tiles: Seq<Seq<Seq<u8>>>, cols: nat, k: int)
    requires
        forall|r: int| 0 <= r < tiles.len() ==> (#[trigger] tiles[r]).len() == cols,
        cols > 0,
        0 <= k < grid_entries(tiles).len(),
    ensures
        0 <= k / (cols as int) < tiles.len(),
        0 <= k % (cols as int) < cols,
        grid_entries(tiles)[k] == (
            tile_name_seq((k / (cols as int)) as nat, (k % (cols as int)) as nat),
            tiles[k / (cols as int)][k % (cols as int)],
        ),
{
    lemma_grid_entries_index(tiles, cols);
    lemma_fundamental_div_mod(k, cols as int);
    lemma_mod_bound(k, cols as int);
    let q = k / (cols as int);
    let m = k % (cols as int);
    assert(q >= 0 && q < tiles.len()) by (nonlinear_arith)
        requires
            cols > 0,
            0 <= k < tiles.len() * cols,
            k == (cols as int) * q + m,
            0 <= m < cols,
    ;
    assert(k == q * (cols as int) + m) by (nonlinear_arith)
        requires
            k == (cols as int) * q + m,
    ;
    assert(grid_entries(tiles)[q * (cols as int) + m] == (
        tile_name_seq(q as nat, m as nat),
        tiles[q][m],
    ));
}

/// Law: in a rectangular grid's archive no two entries share a name —
/// every `(row, col)` cell appears at most once.
pub proof fn lemma_grid_entry_names_unique(tiles: Seq<Seq<Seq<u8>>>, cols: nat)
    requires
        forall|r: int| 0 <= r < tiles.len() ==> (#[trigger] tiles[r]).len() == cols,
    ensures
        forall|i: int, j: int|
            0 <= i < j < grid_entries(tiles).len() ==> #[trigger] grid_entries(tiles)[i].0
                != #[trigger] grid_entries(tiles)[j].0,
{
    let entries = grid_entries(tiles);
    lemma_grid_entries_index(tiles, cols);
    if cols == 0 {
        assert(tiles.len() * 0 == 0) by (nonlinear_arith);
    } else {
        assert forall|i: int, j: int| 0 <= i < j < entries.len() implies #[trigger] entries[i].0
            != #[trigger] entries[j].0 by {
            lemma_grid_entry_at(tiles, cols, i);
            lemma_grid_entry_at(tiles, cols, j);
            if entries[i].0 == entries[j].0 {
                lemma_tile_name_injective(
                    (i / (cols as int)) as nat,
                    (i % (cols as int)) as nat,
                    (j / (cols as int)) as nat,
                    (j % (cols as int)) as nat,
                );
                lemma_fundamental_div_mod(i, cols as int);
                lemma_fundamental_div_mod(j, cols as int);
                assert(false);
            }
        }
    }
}

/// Law: the archive of an image tiled with a positive tile size holds
/// exactly `ceil(H/T) * ceil(W/T)` entries; the names cover every grid cell
/// exactly once — no duplicates, no gaps — and the entry of cell `(r, c)`
/// holds the PNG encoding of exactly that cell's clamped crop rectangle.
pub proof fn lemma_archive_complete(img: image::DynamicImage, t: nat)
    requires
        t > 0,
    ensures
        grid_entries(tiles_spec(img, t)).len() == ceil_div(image_height(img) as nat, t)
            * ceil_div(image_width(img) as nat, t),
        forall|r: int, c: int|
            0 <= r < ceil_div(image_height(img) as nat, t) && 0 <= c < ceil_div(
                image_width(img) as nat,
                t,
            ) ==> #[trigger] grid_entries(tiles_spec(img, t))[r * (ceil_div(
                image_width(img) as nat,
                t,
            ) as int) + c] == (tile_name_seq(r as nat, c as nat), cell_png(img, t, r, c)),
        forall|i: int, j: int|
            0 <= i < j < grid_entries(tiles_spec(img, t)).len() ==> #[trigger] grid_entries(
                tiles_spec(img, t),
            )[i].0 != #[trigger] grid_entries(tiles_spec(img, t))[j].0,
{
    let tiles = tiles_spec(img, t);
    let cols = ceil_div(image_width(img) as nat, t);
    assert(forall|r: int| 0 <= r < tiles.len() ==> (#[trigger] tiles[r]).len() == cols);
    lemma_grid_entries_index(tiles, cols);
    lemma_grid_entry_names_unique(tiles, cols);
}

/// Law: an image with a zero dimension yields an archive with zero entries,
/// not a failure.
pub proof fn lemma_zero_dimension_empty(img: image::DynamicImage, t: nat)
    requires
        t > 0,
        image_width(img) == 0 || image_height(img) == 0,
    ensures
        grid_entries(tiles_spec(img, t)).len() == 0,
{
    let rows = ceil_div(image_height(img) as nat, t);
    let cols = ceil_div(image_width(img) as nat, t);
    lemma_grid_entries_index(tiles_spec(img, t), cols);
    assert(rows * cols == 0) by (nonlinear_arith)
        requires
            rows == 0 || cols == 0,
    ;
}

/// Law: the tile grid is a function of the uploaded bytes and the tile size
/// alone. `tile_image` pins every successful result to
/// `tiles_spec(pipeline_image(bytes), t)`, so two runs on identical input
/// yield byte-identical tile contents, cell by cell, however the per-cell
/// work is scheduled.
pub proof fn lemma_pipeline_deterministic(
    bytes: Seq<u8>,
    t: u32,
    out1: Seq<Seq<Seq<u8>>>,
    out2: Seq<Seq<Seq<u8>>>,
)
    requires
        out1 == tiles_spec(pipeline_image(bytes), t as nat),
        out2 == tiles_spec(pipeline_image(bytes), t as nat),
    ensures
        out1 == out2,
        forall|r: int, c: int|
            0 <= r < out1.len() && 0 <= c < out1[r].len() ==> #[trigger] out1[r][c] == #[trigger] out2[r][c],
{
}

/// Law: the pipeline's whole outcome is a function of the input bytes and
/// the tile size alone. Any two results that satisfy `tile_image`'s contract
/// for the same input are equal: both succeed with byte-identical grids, or
/// both fail with the same error.
pub proof fn lemma_pipeline_outcome_deterministic(
    bytes: Seq<u8>,
    t: u32,
    r1: Result<Seq<Seq<Seq<u8>>>, TileError>,
    r2: Result<Seq<Seq<Seq<u8>>>, TileError>,
)
    requires
        r1 is Ok <==> (t > 0 && decodes(bytes)),
        r2 is Ok <==> (t > 0 && decodes(bytes)),
        t == 0 <==> r1 == Err::<Seq<Seq<Seq<u8>>>, TileError>(TileError::InvalidTileSize),
        t == 0 <==> r2 == Err::<Seq<Seq<Seq<u8>>>, TileError>(TileError::InvalidTileSize),
        (t > 0 && !decodes(bytes)) <==> r1 == Err::<Seq<Seq<Seq<u8>>>, TileError>(
            TileError::DecodeFailure,
        ),
        (t > 0 && !decodes(bytes)) <==> r2 == Err::<Seq<Seq<Seq<u8>>>, TileError>(
            TileError::DecodeFailure,
        ),
        r1 matches Ok(o) ==> o == tiles_spec(pipeline_image(bytes), t as nat),
        r2 matches Ok(o) ==> o == tiles_spec(pipeline_image(bytes), t as nat),
    ensures
        r1 == r2,
{
    if t > 0 && decodes(bytes) {
        let out = tiles_spec(pipeline_image(bytes), t as nat);
        assert(r1 == Ok::<Seq<Seq<Seq<u8>>>, TileError>(out));
        assert(r2 == Ok::<Seq<Seq<Seq<u8>>>, TileError>(out));
    }
}

} // verus!

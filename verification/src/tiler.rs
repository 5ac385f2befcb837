use vstd::prelude::*;
use crate::grid::{ceil_div, cell_extent, grid_dims, tile_rect, TileError};
use crate::imaging::{
    cropped, decodes, encode_png, image_height, image_width, img_height, img_width, load_image,
    crop_tile, normalize_colors, pipeline_image, png_bytes, png_encodable,
};
use crate::archive::{grid_entries, write_tile_zip};

verus! {

/// The encoded bytes of the grid cell at `(r, c)` of `img` for tile edge `t`:
/// the PNG of the crop that starts at `(c*t, r*t)` and is clamped at the
/// image edges.
pub open spec fn cell_png(img: image::DynamicImage, t: nat, r: int, c: int) -> Seq<u8> {
    let w = image_width(img) as nat;
    let h = image_height(img) as nat;
    png_bytes(
        cropped(
            img,
            c * t,
            r * t,
            cell_extent(w, t, c as nat) as int,
            cell_extent(h, t, r as nat) as int,
        ),
    )
}

/// The full tile grid of `img` for tile edge `t`, row-major:
/// `ceil(H/t)` rows of `ceil(W/t)` encoded cells each.
pub open spec fn tiles_spec(img: image::DynamicImage, t: nat) -> Seq<Seq<Seq<u8>>> {
    Seq::new(
        ceil_div(image_height(img) as nat, t),
        |r: int| Seq::new(ceil_div(image_width(img) as nat, t), |c: int| cell_png(img, t, r, c)),
    )
}

/// Round trip of the entry of cell `(r, c)`: whenever the decoder accepts
/// it, it yields an image of exactly the clamped cell dimensions — width
/// `min(t, W - c*t)`, height `min(t, H - r*t)` — and the decoder does accept
/// it when the cell holds at most `2^24` pixels, which fits the decoder's
/// fixed allocation budget.
pub open spec fn cell_entry_roundtrip(img: image::DynamicImage, t: nat, r: int, c: int) -> bool {
    let cw = cell_extent(image_width(img) as nat, t, c as nat);
    let ch = cell_extent(image_height(img) as nat, t, r as nat);
    &&& (decodes(cell_png(img, t, r, c)) ==> (crate::imaging::image_width(
        crate::imaging::decoded_image(cell_png(img, t, r, c)),
    ) == cw && crate::imaging::image_height(
        crate::imaging::decoded_image(cell_png(img, t, r, c)),
    ) == ch))
    &&& (cw * ch <= 0x100_0000 ==> decodes(cell_png(img, t, r, c)))
}

/// Every cell of the tile grid round-trips as `cell_entry_roundtrip` says.
pub open spec fn cells_roundtrip(img: image::DynamicImage, t: nat) -> bool {
    forall|r: int, c: int|
        0 <= r < ceil_div(image_height(img) as nat, t) && 0 <= c < ceil_div(
            image_width(img) as nat,
            t,
        ) ==> #[trigger] cell_entry_roundtrip(img, t, r, c)
}

/// Crops every grid cell of an already decoded image and encodes each cell
/// as PNG, row by row, top to bottom and left to right.
///
/// A tile size of zero is the one invalid parameter. An image with a zero
/// dimension yields the grid with zero cells, never a failure. For an image
/// in a PNG-encodable color form — which everything the pipeline hands in
/// is, after `normalize_colors` — success is owed: every cell of a positive
/// grid is strictly inside the image, so every encode succeeds.
pub fn tile_decoded(img: &image::DynamicImage, tile_size: u32) -> (res: Result<
    Vec<Vec<Vec<u8>>>,
    TileError,
>)
    ensures
        tile_size == 0 <==> res == Err::<Vec<Vec<Vec<u8>>>, TileError>(
            TileError::InvalidTileSize,
        ),
        tile_size > 0 && png_encodable(*img) ==> res is Ok,
        tile_size > 0 && (image_width(*img) == 0 || image_height(*img) == 0) ==> res is Ok,
        res matches Err(e) ==> (e == TileError::InvalidTileSize || e == TileError::EncodeFailure),
        res matches Ok(tiles) ==> tiles.deep_view() == tiles_spec(*img, tile_size as nat),
        res is Ok ==> cells_roundtrip(*img, tile_size as nat),
{
    let w = img_width(img);
    let h = img_height(img);
    let (rows, cols) = match grid_dims(w, h, tile_size) {
        Ok(d) => d,
        Err(e) => {
            return Err(e);
        },
    };
    let ghost gt = tile_size as nat;
    let mut tiles: Vec<Vec<Vec<u8>>> = Vec::new();
    let mut r: u32 = 0;
    while r < rows
        invariant
            tile_size > 0,
            w == image_width(*img),
            h == image_height(*img),
            rows as nat == ceil_div(h as nat, gt),
            cols as nat == ceil_div(w as nat, gt),
            gt == tile_size as nat,
            r <= rows,
            tiles@.len() == r as int,
            forall|i: int| 0 <= i < r ==> #[trigger] tiles@[i].deep_view() == tiles_spec(
                *img,
                gt,
            )[i],
            forall|i: int, j: int|
                0 <= i < r && 0 <= j < cols ==> #[trigger] cell_entry_roundtrip(*img, gt, i, j),
        decreases rows - r,
    {
        let mut rowv: Vec<Vec<u8>> = Vec::new();
        let mut c: u32 = 0;
        while c < cols
            invariant
                tile_size > 0,
                w == image_width(*img),
                h == image_height(*img),
                rows as nat == ceil_div(h as nat, gt),
                cols as nat == ceil_div(w as nat, gt),
                gt == tile_size as nat,
                r < rows,
                c <= cols,
                rowv@.len() == c as int,
                forall|i: int| 0 <= i < c ==> #[trigger] rowv@[i].deep_view() == cell_png(
                    *img,
                    gt,
                    r as int,
                    i,
                ),
                forall|i: int, j: int|
                    0 <= i < r && 0 <= j < cols ==> #[trigger] cell_entry_roundtrip(*img, gt, i, j),
                forall|j: int|
                    0 <= j < c ==> #[trigger] cell_entry_roundtrip(*img, gt, r as int, j),
            decreases cols - c,
        {
            let rect = tile_rect(w, h, tile_size, r, c);
            let tile = crop_tile(img, rect.0, rect.1, rect.2, rect.3);
            let bytes = match encode_png(&tile) {
                Ok(b) => b,
                Err(e) => {
                    return Err(e);
                },
            };
            proof {
                assert(bytes@ == cell_png(*img, gt, r as int, c as int));
                assert(bytes.deep_view() =~= bytes@);
                assert(cell_entry_roundtrip(*img, gt, r as int, c as int));
            }
            rowv.push(bytes);
            c = c + 1;
        }
        proof {
            assert(rowv.deep_view() =~= tiles_spec(*img, gt)[r as int]);
        }
        tiles.push(rowv);
        r = r + 1;
    }
    proof {
        assert(tiles.deep_view() =~= tiles_spec(*img, gt));
        assert(cells_roundtrip(*img, gt));
    }
    Ok(tiles)
}

/// Decodes the uploaded bytes (format guessed from the content), brings the
/// colors to a PNG-encodable form, and tiles the result with `tile_decoded`.
/// Succeeds exactly when the tile size is positive and the bytes decode;
/// undecodable bytes yield the decode error, never a crash.
pub fn tile_image(bytes: &Vec<u8>, tile_size: u32) -> (res: Result<Vec<Vec<Vec<u8>>>, TileError>)
    ensures
        res is Ok <==> (tile_size > 0 && decodes(bytes@)),
        tile_size == 0 <==> res == Err::<Vec<Vec<Vec<u8>>>, TileError>(
            TileError::InvalidTileSize,
        ),
        (tile_size > 0 && !decodes(bytes@)) <==> res == Err::<Vec<Vec<Vec<u8>>>, TileError>(
            TileError::DecodeFailure,
        ),
        res matches Ok(tiles) ==> tiles.deep_view() == tiles_spec(
            pipeline_image(bytes@),
            tile_size as nat,
        ),
        res is Ok ==> cells_roundtrip(pipeline_image(bytes@), tile_size as nat),
{
    if tile_size == 0 {
        return Err(TileError::InvalidTileSize);
    }
    let decoded = match load_image(bytes) {
        Ok(img) => img,
        Err(e) => {
            return Err(e);
        },
    };
    let img = normalize_colors(decoded);
    tile_decoded(&img, tile_size)
}

/// The whole pipeline: decode, tile, and pack the tiles into a zip archive
/// whose entries are named `tile_{row}_{col}.png` in row-major order.
/// Succeeds exactly when the tile size is positive and the bytes decode.
pub fn tile_archive(bytes: &Vec<u8>, tile_size: u32) -> (res: Result<Vec<u8>, TileError>)
    ensures
        res is Ok <==> (tile_size > 0 && decodes(bytes@)),
        tile_size == 0 <==> res == Err::<Vec<u8>, TileError>(TileError::InvalidTileSize),
        (tile_size > 0 && !decodes(bytes@)) <==> res == Err::<Vec<u8>, TileError>(
            TileError::DecodeFailure,
        ),
        res matches Ok(ab) ==> ab@ == crate::archive::zip_bytes(
            grid_entries(tiles_spec(pipeline_image(bytes@), tile_size as nat)),
        ),
{
    match tile_image(bytes, tile_size) {
        Ok(tiles) => write_tile_zip(&tiles),
        Err(e) => Err(e),
    }
}

} // verus!

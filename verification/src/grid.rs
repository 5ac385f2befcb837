use vstd::prelude::*;
use vstd::arithmetic::div_mod::lemma_fundamental_div_mod;
use vstd::arithmetic::mul::lemma_mul_inequality;

verus! {

/// Everything that can go wrong between receiving a decoded image and
/// handing back the finished archive.
#[derive(Debug, Clone, Copy, PartialEq, Eq, Structural)]
pub enum TileError {
    /// A tile size of zero was requested.
    InvalidTileSize,
    /// The uploaded bytes are not a decodable raster image.
    DecodeFailure,
    /// Cropping or re-encoding one tile failed.
    EncodeFailure,
    /// Writing an entry into the archive failed.
    ArchiveFailure,
}

/// Ceiling of `a / b`: how many tiles of edge `b` cover a span of `a` pixels.
pub open spec fn ceil_div(a: nat, b: nat) -> nat
    recommends
        b > 0,
{
    if a == 0 {
        0
    } else {
        ((a - 1) / b as int + 1) as nat
    }
}

/// `ceil_div` really is the ceiling: `b * ceil_div(a, b)` is the least
/// multiple of `b` that reaches `a`.
pub proof fn lemma_ceil_div_is_ceiling(a: nat, b: nat)
    requires
        b > 0,
    ensures
        b * ceil_div(a, b) >= a,
        a > 0 ==> b * (ceil_div(a, b) - 1) < a,
        ceil_div(a, b) == 0 <==> a == 0,
{
    if a > 0 {
        lemma_fundamental_div_mod((a - 1) as int, b as int);
        let q = (a - 1) as int / b as int;
        let r = (a - 1) as int % b as int;
        assert(a - 1 == b * q + r);
        assert(b * (q + 1) == b * q + b) by (nonlinear_arith);
        assert(ceil_div(a, b) == q + 1);
    }
}

/// Every cell with index below `ceil_div(extent, t)` starts strictly inside
/// the image, so edge tiles are never empty.
pub proof fn lemma_cell_start_in_bounds(extent: nat, t: nat, i: nat)
    requires
        t > 0,
        i < ceil_div(extent, t),
    ensures
        i * t < extent,
{
    lemma_fundamental_div_mod((extent - 1) as int, t as int);
    lemma_mul_inequality(i as int, ((extent - 1) as int / t as int), t as int);
}

/// Width of the cell at column `c`: the full tile size, truncated at the
/// right edge of the image. Symmetrically for heights with rows.
pub open spec fn cell_extent(extent: nat, t: nat, i: nat) -> nat
    recommends
        i * t < extent,
{
    if t <= extent - i * t {
        t
    } else {
        (extent - i * t) as nat
    }
}

/// Number of rows and columns of the tile grid for a `w`-by-`h` image and
/// tile edge `t`. A tile size of zero is rejected; a zero dimension yields a
/// zero count, so the pipeline later produces an empty archive rather than
/// failing.
pub fn grid_dims(w: u32, h: u32, t: u32) -> (r: Result<(u32, u32), TileError>)
    ensures
        t == 0 <==> r == Err::<(u32, u32), TileError>(TileError::InvalidTileSize),
        t > 0 ==> (r matches Ok(d) && d.0 as nat == ceil_div(h as nat, t as nat) && d.1 as nat
            == ceil_div(w as nat, t as nat)),
{
    if t == 0 {
        return Err(TileError::InvalidTileSize);
    }
    let rows: u32 = if h == 0 {
        0
    } else {
        (h - 1) / t + 1
    };
    let cols: u32 = if w == 0 {
        0
    } else {
        (w - 1) / t + 1
    };
    Ok((rows, cols))
}

/// The crop rectangle `(x0, y0, width, height)` of the grid cell at
/// `(row, col)`: it starts at `(col * t, row * t)` and is clamped at the
/// right and bottom edges of a `w`-by-`h` image.
pub fn tile_rect(w: u32, h: u32, t: u32, row: u32, col: u32) -> (rect: (u32, u32, u32, u32))
    requires
        t > 0,
        (row as nat) < ceil_div(h as nat, t as nat),
        (col as nat) < ceil_div(w as nat, t as nat),
    ensures
        rect.0 as nat == col as nat * t as nat,
        rect.1 as nat == row as nat * t as nat,
        rect.2 as nat == cell_extent(w as nat, t as nat, col as nat),
        rect.3 as nat == cell_extent(h as nat, t as nat, row as nat),
        rect.0 + rect.2 <= w,
        rect.1 + rect.3 <= h,
        rect.2 > 0,
        rect.3 > 0,
{
    proof {
        lemma_cell_start_in_bounds(w as nat, t as nat, col as nat);
        lemma_cell_start_in_bounds(h as nat, t as nat, row as nat);
    }
    let x0: u32 = col * t;
    let y0: u32 = row * t;
    let tw: u32 = if t <= w - x0 {
        t
    } else {
        w - x0
    };
    let th: u32 = if t <= h - y0 {
        t
    } else {
        h - y0
    };
    (x0, y0, tw, th)
}

} // verus!

use crate::bsdf::{bsdf_bytes, encode_bsdf, Tile};
use crate::endian::{i16_be_at, i16_of};
use crate::error::ConvertError;
use crate::resolution::Resolution;
use crate::stats::{counted, elevation_range, is_range, VOID};
use vstd::arithmetic::div_mod::lemma_fundamental_div_mod_converse;
use vstd::prelude::*;

verus! {

/// Number of bytes in a raster of side `ippd + 1`, two per sample.
pub open spec fn raster_len(ippd: nat) -> nat {
    2 * ((ippd + 1) * (ippd + 1))
}

/// Sample `j` of a raster, row by row, each stored high byte first.
pub open spec fn raster_sample(b: Seq<u8>, j: int) -> i16 {
    i16_of(b[2 * j + 1], b[2 * j])
}

/// The raster sample that lands at position `k` of the grid: rows are taken
/// from last to first and, within a row, columns from last to first; the last
/// row and the last column of the source, which overlap the neighbouring
/// tiles, are left out.
pub open spec fn hgt_source_index(ippd: int, k: int) -> int {
    (ippd - 1 - k / ippd) * (ippd + 1) + (ippd - 1 - k % ippd)
}

/// The grid that a raster of side `ippd + 1` yields.
pub open spec fn hgt_grid(ippd: nat, b: Seq<u8>) -> Seq<i16> {
    Seq::new(ippd * ippd, |k: int| raster_sample(b, hgt_source_index(ippd as int, k)))
}

/// Decodes a binary raster of `(ippd + 1)²` big-endian samples into an
/// `ippd × ippd` grid; the range leaves void samples out.
pub fn decode_hgt(res: Resolution, raster: &[u8]) -> (r: Result<Tile, ConvertError>)
    ensures
        r is Ok <==> raster@.len() == raster_len(res.spec_ippd()),
        r matches Err(e) ==> e == (ConvertError::RasterSizeMismatch {
            expected: raster_len(res.spec_ippd()) as usize,
            actual: raster@.len() as usize,
        }),
        r matches Ok(t) ==> {
            &&& t.ippd == res.spec_ippd()
            &&& t.samples@ == hgt_grid(res.spec_ippd(), raster@)
            &&& is_range(t.samples@, true, t.min, t.max)
        },
{
    let ippd = res.ippd();
    let side = ippd + 1;
    proof {
        assert(side * side <= 3601 * 3601) by (nonlinear_arith)
            requires
                side <= 3601,
        ;
    }
    let expected = 2 * (side * side);
    if raster.len() != expected {
        return Err(ConvertError::RasterSizeMismatch { expected, actual: raster.len() });
    }
    let mut grid: Vec<i16> = Vec::new();
    let mut i: usize = 0;
    while i < ippd
        invariant
            ippd == 3600 || ippd == 1200,
            side == ippd + 1,
            side * side <= 3601 * 3601,
            raster@.len() == 2 * (side * side),
            0 <= i <= ippd,
            grid@.len() == i * ippd,
            forall|k: int|
                0 <= k < grid@.len() ==> #[trigger] grid@[k] == raster_sample(
                    raster@,
                    hgt_source_index(ippd as int, k),
                ),
        decreases ippd - i,
    {
        let row = ippd - 1 - i;
        let mut j: usize = 0;
        while j < ippd
            invariant
                ippd == 3600 || ippd == 1200,
                side == ippd + 1,
                side * side <= 3601 * 3601,
                raster@.len() == 2 * (side * side),
                0 <= i < ippd,
                row == ippd - 1 - i,
                0 <= j <= ippd,
                grid@.len() == i * ippd + j,
                forall|k: int|
                    0 <= k < grid@.len() ==> #[trigger] grid@[k] == raster_sample(
                        raster@,
                        hgt_source_index(ippd as int, k),
                    ),
            decreases ippd - j,
        {
            let col = ippd - 1 - j;
            proof {
                assert(row * side + col < side * side) by (nonlinear_arith)
                    requires
                        row < side,
                        col < side,
                ;
                lemma_fundamental_div_mod_converse(
                    (i * ippd + j) as int,
                    ippd as int,
                    i as int,
                    j as int,
                );
            }
            let at = row * side + col;
            grid.push(i16_be_at(raster, 2 * at));
            j += 1;
        }
        proof {
            assert((i + 1) * ippd == i * ippd + ippd) by (nonlinear_arith);
        }
        i += 1;
    }
    assert(grid@ =~= hgt_grid(ippd as nat, raster@));
    let (min, max) = elevation_range(grid.as_slice(), true);
    Ok(Tile { ippd: ippd as u16, samples: grid, min, max })
}

/// What converting a binary raster with side `ippd + 1` yields: a size
/// error, or the decoded grid written out with its range.
pub open spec fn hgt_converts(ippd: nat, raster: Seq<u8>, r: Result<Vec<u8>, ConvertError>) -> bool {
    &&& r is Ok <==> raster.len() == raster_len(ippd)
    &&& r matches Err(e) ==> e == (ConvertError::RasterSizeMismatch {
        expected: raster_len(ippd) as usize,
        actual: raster.len() as usize,
    })
    &&& r matches Ok(b) ==> exists|min: i16, max: i16|
        #[trigger] is_range(hgt_grid(ippd, raster), true, min, max) && b@ == bsdf_bytes(
            ippd as u16,
            hgt_grid(ippd, raster),
            min,
            max,
        )
}

/// Converts a binary raster into a binary tile.
pub fn hgt_to_bsdf(res: Resolution, raster: &[u8]) -> (r: Result<Vec<u8>, ConvertError>)
    ensures
        hgt_converts(res.spec_ippd(), raster@, r),
{
    let tile = decode_hgt(res, raster)?;
    let r = encode_bsdf(tile.ippd, tile.samples.as_slice(), tile.min, tile.max);
    assert(r is Ok);
    r
}

/// When the void samples of a raster all lie in its last row or its last
/// column, the grid holds no void sample, and its least and greatest samples
/// are real elevations taken from the grid.
pub proof fn lemma_border_voids_dropped(ippd: nat, raster: Seq<u8>, min: i16, max: i16)
    requires
        ippd > 0,
        raster.len() == raster_len(ippd),
        forall|j: int|
            0 <= j < (ippd + 1) * (ippd + 1) && #[trigger] raster_sample(raster, j) == VOID ==> j
                / (ippd + 1) as int == ippd || j % (ippd + 1) as int == ippd,
        is_range(hgt_grid(ippd, raster), true, min, max),
    ensures
        forall|k: int| 0 <= k < ippd * ippd ==> #[trigger] hgt_grid(ippd, raster)[k] != VOID,
        min != VOID,
        max != VOID,
        exists|k: int| 0 <= k < ippd * ippd && #[trigger] hgt_grid(ippd, raster)[k] == min,
        exists|k: int| 0 <= k < ippd * ippd && #[trigger] hgt_grid(ippd, raster)[k] == max,
{
    let g = hgt_grid(ippd, raster);
    let n = ippd as int;
    assert forall|k: int| 0 <= k < n * n implies #[trigger] g[k] != VOID by {
        let r = n - 1 - k / n;
        let c = n - 1 - k % n;
        let q = k / n;
        let m = k % n;
        assert(k == n * q + m && 0 <= m < n) by {
            vstd::arithmetic::div_mod::lemma_fundamental_div_mod(k, n);
        }
        assert(0 <= q < n) by (nonlinear_arith)
            requires
                k == n * q + m,
                0 <= m < n,
                0 <= k < n * n,
        ;
        let j = r * (n + 1) + c;
        assert(0 <= j < (n + 1) * (n + 1)) by (nonlinear_arith)
            requires
                0 <= r < n,
                0 <= c < n,
                j == r * (n + 1) + c,
        ;
        lemma_fundamental_div_mod_converse(j, n + 1, r, c);
        assert(hgt_source_index(n, k) == j);
    }
    assert(n * n > 0) by (nonlinear_arith)
        requires
            n > 0,
    ;
    assert(counted(g[0], true));
}

} // verus!

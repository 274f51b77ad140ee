use crate::bsdf::{bsdf_bytes, encode_bsdf, Tile};
use crate::error::ConvertError;
use crate::resolution::Resolution;
use crate::stats::{elevation_range, is_range};
use std::str::FromStr;
use vstd::arithmetic::div_mod::lemma_fundamental_div_mod_converse;
use vstd::prelude::*;

verus! {

/// Lines of preamble that precede the samples of an ASCII grid.
pub const HEADER_LINES: usize = 4;

/// An ASCII decimal digit.
pub open spec fn is_digit(c: char) -> bool {
    '0' <= c <= '9'
}

/// The value of a non-empty run of decimal digits.
pub open spec fn digits_value(d: Seq<char>) -> int
    decreases d.len(),
{
    if d.len() == 0 {
        0
    } else {
        10 * digits_value(d.drop_last()) + (d.last() as int - '0' as int)
    }
}

/// The integer that `s` spells: an optional `+` or `-`, then one or more
/// decimal digits and nothing else.
pub open spec fn decimal_value(s: Seq<char>) -> Option<int> {
    let signed = s.len() > 0 && (s[0] == '+' || s[0] == '-');
    let d = if signed {
        s.drop_first()
    } else {
        s
    };
    if d.len() > 0 && forall|i: int| 0 <= i < d.len() ==> is_digit(#[trigger] d[i]) {
        if signed && s[0] == '-' {
            Some(-digits_value(d))
        } else {
            Some(digits_value(d))
        }
    } else {
        None
    }
}

/// The sample that `s` spells, where it spells an integer in `i16`'s range.
pub open spec fn decimal_i16(s: Seq<char>) -> Option<i16> {
    match decimal_value(s) {
        Some(v) => if i16::MIN <= v <= i16::MAX {
            Some(v as i16)
        } else {
            None
        },
        None => None,
    }
}

/// Relies on `i16::from_str`: it accepts exactly an optional `+` or `-`
/// followed by one or more ASCII digits whose value fits in `i16`.
#[verifier::external_body]
fn parse_sample(s: &str) -> (r: Option<i16>)
    ensures
        r == decimal_i16(s@),
{
    i16::from_str(s).ok()
}

/// Whether line `j` of the input spells a sample.
pub open spec fn parses(lines: Seq<String>, j: int) -> bool {
    decimal_i16(lines[j]@) is Some
}

/// Number of data lines, those after the preamble.
pub open spec fn data_count(lines: Seq<String>) -> nat {
    if lines.len() > HEADER_LINES {
        (lines.len() - HEADER_LINES) as nat
    } else {
        0
    }
}

/// Every data line spells a sample.
pub open spec fn all_parse(lines: Seq<String>) -> bool {
    forall|j: int| HEADER_LINES <= j < lines.len() ==> parses(lines, j)
}

/// The samples of the data lines, in file order.
pub open spec fn sdf_samples(lines: Seq<String>) -> Seq<i16> {
    Seq::new(
        data_count(lines),
        |j: int|
            match decimal_i16(lines[j + HEADER_LINES]@) {
                Some(v) => v,
                None => 0,
            },
    )
}

/// Column-major placement: data sample `x · ippd + y` goes to `grid[y · ippd + x]`.
pub open spec fn sdf_grid(ippd: nat, data: Seq<i16>) -> Seq<i16> {
    Seq::new(ippd * ippd, |k: int| data[(k % ippd as int) * ippd + k / (ippd as int)])
}

/// The error that an ASCII grid with side `ippd` is rejected with: the first
/// data line that is no sample, else a count of data lines other than `ippd²`.
pub open spec fn sdf_error(ippd: nat, lines: Seq<String>, e: ConvertError) -> bool {
    match e {
        ConvertError::MalformedSample { line } => {
            &&& HEADER_LINES < line <= lines.len()
            &&& !parses(lines, line - 1)
            &&& forall|j: int| HEADER_LINES <= j < line - 1 ==> parses(lines, j)
        },
        ConvertError::SampleCountMismatch { expected, actual } => {
            &&& all_parse(lines)
            &&& expected == ippd * ippd
            &&& actual == data_count(lines)
            &&& expected != actual
        },
        _ => false,
    }
}

/// Decodes an ASCII grid: skips the preamble, reads one sample per line and
/// places the samples column by column; the range covers every sample.
pub fn decode_sdf(res: Resolution, lines: &[String]) -> (r: Result<Tile, ConvertError>)
    ensures
        r is Ok <==> all_parse(lines@) && data_count(lines@) == res.spec_ippd() * res.spec_ippd(),
        r matches Err(e) ==> sdf_error(res.spec_ippd(), lines@, e),
        r matches Ok(t) ==> {
            &&& t.ippd == res.spec_ippd()
            &&& t.samples@ == sdf_grid(res.spec_ippd(), sdf_samples(lines@))
            &&& is_range(t.samples@, false, t.min, t.max)
        },
{
    let ippd = res.ippd();
    proof {
        assert(ippd * ippd <= 3600 * 3600) by (nonlinear_arith)
            requires
                ippd <= 3600,
        ;
    }
    let n = ippd * ippd;
    let mut values: Vec<i16> = Vec::new();
    let mut i: usize = HEADER_LINES;
    while i < lines.len()
        invariant
            HEADER_LINES <= i,
            i <= lines@.len() || lines@.len() < HEADER_LINES,
            lines@.len() >= HEADER_LINES ==> values@.len() == i - HEADER_LINES,
            lines@.len() < HEADER_LINES ==> values@.len() == 0,
            forall|j: int| HEADER_LINES <= j < i && j < lines@.len() ==> parses(lines@, j),
            forall|j: int|
                0 <= j < values@.len() ==> #[trigger] values@[j] == sdf_samples(lines@)[j],
        decreases lines@.len() - i,
    {
        match parse_sample(lines[i].as_str()) {
            Some(v) => values.push(v),
            None => {
                assert(!parses(lines@, i as int));
                return Err(ConvertError::MalformedSample { line: i + 1 });
            },
        }
        i += 1;
    }
    assert(values@ =~= sdf_samples(lines@));
    if values.len() != n {
        return Err(ConvertError::SampleCountMismatch { expected: n, actual: values.len() });
    }
    let mut grid: Vec<i16> = Vec::new();
    let mut y: usize = 0;
    while y < ippd
        invariant
            n == ippd * ippd,
            ippd == 3600 || ippd == 1200,
            values@.len() == n,
            0 <= y <= ippd,
            grid@.len() == y * ippd,
            forall|k: int|
                0 <= k < grid@.len() ==> #[trigger] grid@[k] == values@[(k % ippd as int) * ippd
                    + k / (ippd as int)],
        decreases ippd - y,
    {
        let mut x: usize = 0;
        while x < ippd
            invariant
                n == ippd * ippd,
                ippd == 3600 || ippd == 1200,
                values@.len() == n,
                0 <= y < ippd,
                0 <= x <= ippd,
                grid@.len() == y * ippd + x,
                forall|k: int|
                    0 <= k < grid@.len() ==> #[trigger] grid@[k] == values@[(k % ippd as int)
                        * ippd + k / (ippd as int)],
            decreases ippd - x,
        {
            proof {
                assert(x * ippd + y < ippd * ippd) by (nonlinear_arith)
                    requires
                        x < ippd,
                        y < ippd,
                ;
                lemma_fundamental_div_mod_converse(
                    (y * ippd + x) as int,
                    ippd as int,
                    y as int,
                    x as int,
                );
            }
            grid.push(values[x * ippd + y]);
            x += 1;
        }
        proof {
            assert((y + 1) * ippd == y * ippd + ippd) by (nonlinear_arith);
        }
        y += 1;
    }
    assert(grid@ =~= sdf_grid(ippd as nat, values@));
    let (min, max) = elevation_range(grid.as_slice(), false);
    Ok(Tile { ippd: ippd as u16, samples: grid, min, max })
}

/// What converting an ASCII grid with side `ippd` yields: the same outcome as
/// decoding it, the decoded grid written out with its range.
pub open spec fn sdf_converts(ippd: nat, lines: Seq<String>, r: Result<Vec<u8>, ConvertError>) -> bool {
    &&& r is Ok <==> all_parse(lines) && data_count(lines) == ippd * ippd
    &&& r matches Err(e) ==> sdf_error(ippd, lines, e)
    &&& r matches Ok(b) ==> exists|min: i16, max: i16|
        #[trigger] is_range(sdf_grid(ippd, sdf_samples(lines)), false, min, max) && b@ == bsdf_bytes(
            ippd as u16,
            sdf_grid(ippd, sdf_samples(lines)),
            min,
            max,
        )
}

/// Converts an ASCII grid into a binary tile.
pub fn sdf_to_bsdf(res: Resolution, lines: &[String]) -> (r: Result<Vec<u8>, ConvertError>)
    ensures
        sdf_converts(res.spec_ippd(), lines@, r),
{
    let tile = decode_sdf(res, lines)?;
    let r = encode_bsdf(tile.ippd, tile.samples.as_slice(), tile.min, tile.max);
    assert(r is Ok);
    r
}

} // verus!

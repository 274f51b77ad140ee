use vstd::prelude::*;

verus! {

/// The reserved "no data" sample of binary rasters.
pub const VOID: i16 = i16::MIN;

/// Whether a sample takes part in the statistics: void samples do not when
/// `skip_void` is set.
pub open spec fn counted(v: i16, skip_void: bool) -> bool {
    !(skip_void && v == VOID)
}

/// `min` and `max` are the least and the greatest counted sample of `s`; with
/// no counted sample they stay at `i16::MAX` and `i16::MIN`.
pub open spec fn is_range(s: Seq<i16>, skip_void: bool, min: i16, max: i16) -> bool {
    &&& forall|k: int| 0 <= k < s.len() && counted(#[trigger] s[k], skip_void) ==> min <= s[k] <= max
    &&& (exists|k: int| 0 <= k < s.len() && counted(#[trigger] s[k], skip_void)) ==> {
        &&& exists|k: int| 0 <= k < s.len() && counted(#[trigger] s[k], skip_void) && s[k] == min
        &&& exists|k: int| 0 <= k < s.len() && counted(#[trigger] s[k], skip_void) && s[k] == max
    }
    &&& (forall|k: int| 0 <= k < s.len() ==> !counted(#[trigger] s[k], skip_void)) ==> min == i16::MAX
        && max == i16::MIN
}

/// The least and the greatest sample of `samples`, leaving void samples out
/// when `skip_void` is set.
pub fn elevation_range(samples: &[i16], skip_void: bool) -> (r: (i16, i16))
    ensures
        is_range(samples@, skip_void, r.0, r.1),
{
    let mut min: i16 = i16::MAX;
    let mut max: i16 = i16::MIN;
    let ghost mut seen: bool = false;
    let mut i: usize = 0;
    while i < samples.len()
        invariant
            0 <= i <= samples@.len(),
            forall|k: int| 0 <= k < i && counted(#[trigger] samples@[k], skip_void) ==> min <= samples@[k] <= max,
            seen <==> exists|k: int| 0 <= k < i && counted(#[trigger] samples@[k], skip_void),
            seen ==> exists|k: int| 0 <= k < i && counted(#[trigger] samples@[k], skip_void) && samples@[k] == min,
            seen ==> exists|k: int| 0 <= k < i && counted(#[trigger] samples@[k], skip_void) && samples@[k] == max,
            !seen ==> min == i16::MAX && max == i16::MIN,
        decreases samples@.len() - i,
    {
        let v = samples[i];
        if !(skip_void && v == VOID) {
            if v < min {
                min = v;
            }
            if v > max {
                max = v;
            }
            proof {
                seen = true;
            }
        }
        i += 1;
    }
    (min, max)
}

} // verus!

use crate::error::ConvertError;
use crate::hgt::{hgt_converts, hgt_to_bsdf};
use crate::resolution::Resolution;
use crate::sdf::{sdf_converts, sdf_to_bsdf};
use vstd::prelude::*;
use vstd::string::StringSliceAdditionalSpecFns;

verus! {

/// The two source formats.
#[derive(Debug, Clone, Copy, PartialEq, Eq)]
pub enum SourceFormat {
    /// ASCII grid, one sample per line.
    Sdf,
    /// Binary raster of big-endian samples.
    Hgt,
}

/// The contents of one source file, in its format.
#[derive(Debug, Clone, PartialEq, Eq)]
pub enum Source {
    /// The lines of an ASCII grid.
    Sdf(Vec<String>),
    /// The bytes of a binary raster.
    Hgt(Vec<u8>),
}

/// The byte `.`.
pub const DOT: u8 = 0x2e;

/// `i` is the position of the last `.` of a file name, and that dot does
/// not open the name.
pub open spec fn is_last_dot(name: Seq<u8>, i: int) -> bool {
    &&& 0 < i < name.len()
    &&& name[i] == DOT
    &&& forall|j: int| i < j < name.len() ==> name[j] != DOT
}

/// The format that an extension names: `hgt` or `sdf`, in lower case.
pub open spec fn format_of_extension(ext: Seq<u8>) -> Option<SourceFormat> {
    // "hgt" and "sdf" in ASCII
    if ext == seq![104u8, 103u8, 116u8] {
        Some(SourceFormat::Hgt)
    } else if ext == seq![115u8, 100u8, 102u8] {
        Some(SourceFormat::Sdf)
    } else {
        None
    }
}

/// The format that a file name names by its extension, the part after its
/// last dot.
pub open spec fn names_format(name: Seq<u8>, f: SourceFormat) -> bool {
    exists|i: int|
        #[trigger] is_last_dot(name, i) && format_of_extension(name.subrange(i + 1, name.len() as int))
            == Some(f)
}

/// Picks the decoding pipeline of a file by its extension: `.hgt` is a
/// binary raster, `.sdf` an ASCII grid; any other name is
/// `UnsupportedFormat`.
pub fn classify(file_name: &str) -> (r: Result<SourceFormat, ConvertError>)
    ensures
        r is Ok <==> exists|f: SourceFormat| #[trigger] names_format(file_name.spec_bytes(), f),
        r matches Ok(f) ==> names_format(file_name.spec_bytes(), f),
        r matches Err(e) ==> e matches ConvertError::UnsupportedFormat { name } && name@
            == file_name@,
{
    let b = file_name.as_bytes();
    let len = b.len();
    let mut i: usize = len;
    while i > 0 && b[i - 1] != DOT
        invariant
            i <= len,
            len == b@.len(),
            forall|j: int| i <= j < len ==> b@[j] != DOT,
        decreases i,
    {
        i -= 1;
    }
    let ghost name = b@;
    if i >= 2 {
        let n = len - i;
        let ghost ext = name.subrange(i as int, len as int);
        // "hgt"
        if n == 3 && b[i] == 104u8 && b[i + 1] == 103u8 && b[i + 2] == 116u8 {
            assert(ext =~= seq![104u8, 103u8, 116u8]);
            assert(is_last_dot(name, i - 1));
            assert(names_format(name, SourceFormat::Hgt));
            return Ok(SourceFormat::Hgt);
        }
        // "sdf"
        if n == 3 && b[i] == 115u8 && b[i + 1] == 100u8 && b[i + 2] == 102u8 {
            assert(ext =~= seq![115u8, 100u8, 102u8]);
            assert(is_last_dot(name, i - 1));
            assert(names_format(name, SourceFormat::Sdf));
            return Ok(SourceFormat::Sdf);
        }
        assert(ext != seq![104u8, 103u8, 116u8] && ext != seq![115u8, 100u8, 102u8]) by {
            let hgt = seq![104u8, 103u8, 116u8];
            let sdf = seq![115u8, 100u8, 102u8];
            assert(hgt.len() == 3 && sdf.len() == 3 && ext.len() == n);
            if n == 3 {
                assert(ext[0] == b@[i as int] && ext[1] == b@[i + 1] && ext[2] == b@[i + 2]);
                assert(hgt[0] == 104u8 && hgt[1] == 103u8 && hgt[2] == 116u8);
                assert(sdf[0] == 115u8 && sdf[1] == 100u8 && sdf[2] == 102u8);
            }
        }
    }
    assert forall|f: SourceFormat| !names_format(name, f) by {
        if names_format(name, f) {
            let k = choose|k: int|
                #[trigger] is_last_dot(name, k) && format_of_extension(
                    name.subrange(k + 1, name.len() as int),
                ) == Some(f);
            assert(k == i - 1);
        }
    }
    Err(ConvertError::UnsupportedFormat { name: file_name.to_owned() })
}

/// What converting one source yields, by its format.
pub open spec fn converts(res: Resolution, src: Source, r: Result<Vec<u8>, ConvertError>) -> bool {
    match src {
        Source::Sdf(lines) => sdf_converts(res.spec_ippd(), lines@, r),
        Source::Hgt(raster) => hgt_converts(res.spec_ippd(), raster@, r),
    }
}

/// Converts one source file into a binary tile. Each call depends on its own
/// source alone, so the files of a batch can be converted in any order or at
/// once.
pub fn convert(res: Resolution, src: &Source) -> (r: Result<Vec<u8>, ConvertError>)
    ensures
        converts(res, *src, r),
{
    match src {
        Source::Sdf(lines) => sdf_to_bsdf(res, lines.as_slice()),
        Source::Hgt(raster) => hgt_to_bsdf(res, raster.as_slice()),
    }
}

/// The error that a batch reports: the first failed task in the order the
/// files were given, or none when every task succeeded.
pub fn first_failure<T, E>(results: &[Result<T, E>]) -> (r: Option<usize>)
    ensures
        match r {
            Some(i) => {
                &&& i < results@.len()
                &&& results@[i as int] is Err
                &&& forall|j: int| 0 <= j < i ==> #[trigger] results@[j] is Ok
            },
            None => forall|j: int| 0 <= j < results@.len() ==> #[trigger] results@[j] is Ok,
        },
{
    let mut i: usize = 0;
    while i < results.len()
        invariant
            0 <= i <= results@.len(),
            forall|j: int| 0 <= j < i ==> #[trigger] results@[j] is Ok,
        decreases results@.len() - i,
    {
        if results[i].is_err() {
            return Some(i);
        }
        i += 1;
    }
    None
}

} // verus!

//! Arguments and return codes of the native propagation engine that reads
//! the binary tiles: directories and argument vectors become NUL-terminated
//! byte strings, and a non-zero return code becomes an error.
use vstd::prelude::*;
use vstd::utf8::encode_utf8;

verus! {

/// Failure of a call into the propagation engine.
#[derive(Debug, Clone, Copy, PartialEq, Eq, Structural)]
pub enum Error {
    /// An argument holds a NUL byte at `position`, so it cannot cross as a C
    /// string.
    Args { position: usize },
    /// The engine returned a non-zero code.
    Retcode(i32),
}

/// Alias of [`Error`] for callers of the signal-server binding.
pub type SigserveError = Error;

/// `p` is the position of the first NUL byte of `b`.
pub open spec fn first_nul(b: Seq<u8>, p: int) -> bool {
    &&& 0 <= p < b.len()
    &&& b[p] == 0u8
    &&& forall|j: int| 0 <= j < p ==> b[j] != 0u8
}

/// `b` holds a NUL byte.
pub open spec fn has_nul(b: Seq<u8>) -> bool {
    exists|p: int| 0 <= p < b.len() && b[p] == 0u8
}

/// The byte `/`.
pub const SLASH: u8 = 0x2f;

/// `b` ending in `/`: the engine joins tile names straight onto the directory.
pub open spec fn with_slash(b: Seq<u8>) -> Seq<u8> {
    if b.len() > 0 && b.last() == SLASH {
        b
    } else {
        b.push(SLASH)
    }
}

/// `b` with a NUL terminator, unless it holds a NUL byte already (then the
/// position of the first one).
fn nul_terminated(b: &[u8]) -> (r: Result<Vec<u8>, usize>)
    ensures
        match r {
            Ok(v) => !has_nul(b@) && v@ == b@.push(0u8),
            Err(p) => first_nul(b@, p as int),
        },
{
    let mut out: Vec<u8> = Vec::new();
    let mut i: usize = 0;
    while i < b.len()
        invariant
            0 <= i <= b@.len(),
            out@ == b@.subrange(0, i as int),
            forall|j: int| 0 <= j < i ==> b@[j] != 0u8,
        decreases b@.len() - i,
    {
        if b[i] == 0u8 {
            return Err(i);
        }
        out.push(b[i]);
        i += 1;
        assert(out@ =~= b@.subrange(0, i as int));
    }
    out.push(0u8);
    assert(out@ =~= b@.push(0u8));
    Ok(out)
}

/// The tile directory as the engine takes it: the path's bytes, a `/` added
/// where they do not end in one, then a NUL terminator.
pub fn tile_dir_arg(dir: &[u8]) -> (r: Result<Vec<u8>, Error>)
    ensures
        r is Ok <==> !has_nul(dir@),
        r matches Ok(v) ==> v@ == with_slash(dir@).push(0u8),
        r matches Err(e) ==> e matches Error::Args { position } && first_nul(dir@, position as int),
{
    let mut path: Vec<u8> = Vec::new();
    let mut i: usize = 0;
    while i < dir.len()
        invariant
            0 <= i <= dir@.len(),
            path@ == dir@.subrange(0, i as int),
        decreases dir@.len() - i,
    {
        path.push(dir[i]);
        i += 1;
        assert(path@ =~= dir@.subrange(0, i as int));
    }
    assert(path@ =~= dir@);
    if path.len() == 0 || path[path.len() - 1] != SLASH {
        path.push(SLASH);
    }
    match nul_terminated(path.as_slice()) {
        Ok(v) => {
            assert(!has_nul(dir@)) by {
                if has_nul(dir@) {
                    let p = choose|p: int| 0 <= p < dir@.len() && dir@[p] == 0u8;
                    assert(path@[p] == 0u8);
                }
            }
            Ok(v)
        },
        Err(p) => {
            assert(p < dir@.len());
            assert(forall|j: int| 0 <= j <= p ==> path@[j] == dir@[j]);
            Err(Error::Args { position: p })
        },
    }
}

/// The UTF-8 bytes of a word.
pub open spec fn word_bytes(w: Seq<char>) -> Seq<u8> {
    encode_utf8(w)
}

/// What the argument vector of `words` is: each word as a NUL-terminated
/// byte string, in order; a word that holds a NUL byte fails with its
/// position, the first such word deciding.
pub open spec fn c_args_of(words: Seq<Seq<char>>, r: Result<Vec<Vec<u8>>, Error>) -> bool {
    &&& r is Ok <==> forall|i: int| 0 <= i < words.len() ==> !has_nul(#[trigger] word_bytes(words[i]))
    &&& r matches Ok(v) ==> v@.len() == words.len() && forall|i: int|
        0 <= i < words.len() ==> (#[trigger] v@[i])@ == word_bytes(words[i]).push(0u8)
    &&& r matches Err(e) ==> e matches Error::Args { position } && exists|i: int|
        0 <= i < words.len() && first_nul(#[trigger] word_bytes(words[i]), position as int)
            && forall|j: int| 0 <= j < i ==> !has_nul(#[trigger] word_bytes(words[j]))
}

/// Each word as a NUL-terminated byte string, in order.
pub fn c_args(words: &[String]) -> (r: Result<Vec<Vec<u8>>, Error>)
    ensures
        c_args_of(words@.map_values(|w: String| w@), r),
{
    let mut out: Vec<Vec<u8>> = Vec::new();
    let mut i: usize = 0;
    while i < words.len()
        invariant
            0 <= i <= words@.len(),
            out@.len() == i,
            forall|j: int| 0 <= j < i ==> !has_nul(#[trigger] word_bytes(words@[j]@)),
            forall|j: int| 0 <= j < i ==> (#[trigger] out@[j])@ == word_bytes(words@[j]@).push(0u8),
        decreases words@.len() - i,
    {
        let bytes = words[i].as_str().as_bytes();
        match nul_terminated(bytes) {
            Ok(v) => out.push(v),
            Err(p) => {
                assert(has_nul(word_bytes(words@[i as int]@)));
                assert(words@.map_values(|w: String| w@)[i as int] == words@[i as int]@);
                return Err(Error::Args { position: p });
            },
        }
        i += 1;
    }
    Ok(out)
}

/// The words of a string, split at runs of white space.
pub uninterp spec fn whitespace_words(s: Seq<char>) -> Seq<Seq<char>>;

/// Relies on `str::split_whitespace`: the words of `s` in order, split at
/// runs of Unicode white space; a string with no characters has no words.
#[verifier::external_body]
fn split_words(s: &str) -> (r: Vec<String>)
    ensures
        r@.map_values(|w: String| w@) == whitespace_words(s@),
        s@.len() == 0 ==> r@.len() == 0,
{
    s.split_whitespace().map(|w| w.to_string()).collect()
}

/// The argument vector that an engine command line stands for: its words,
/// each NUL-terminated.
pub fn engine_args(args: &str) -> (r: Result<Vec<Vec<u8>>, Error>)
    ensures
        c_args_of(whitespace_words(args@), r),
{
    let words = split_words(args);
    c_args(words.as_slice())
}

/// A return code of the engine: zero is success, anything else an error.
pub fn check_retcode(code: i32) -> (r: Result<(), Error>)
    ensures
        r is Ok <==> code == 0,
        r matches Err(e) ==> e == Error::Retcode(code),
{
    if code == 0 {
        Ok(())
    } else {
        Err(Error::Retcode(code))
    }
}

} // verus!

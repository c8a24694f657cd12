//! The file name rule for containers.
use crate::archive::FormatError;
use vstd::prelude::*;
use vstd::string::StrSliceExecFns;

verus! {

/// The lowercase form of `s`, as `str::to_lowercase` gives it.
pub uninterp spec fn lower_of(s: Seq<char>) -> Seq<char>;

/// Relies on `str::to_lowercase`: its result depends on the characters of
/// `s` alone.
#[verifier::external_body]
fn lowercase(s: &str) -> (r: String)
    ensures
        r@ == lower_of(s@),
{
    s.to_lowercase()
}

/// The extension that container file names end in.
pub open spec fn dat_suffix() -> Seq<char> {
    seq!['.', 'd', 'a', 't']
}

/// `s` ends in `.dat`.
pub open spec fn ends_with_dat(s: Seq<char>) -> bool {
    s.len() >= 4 && s.subrange(s.len() - 4, s.len() as int) == dat_suffix()
}

/// Tells whether `lowered`, a name already in lowercase, ends in `.dat`.
pub fn is_dat_name(lowered: &str) -> (r: bool)
    ensures
        r == ends_with_dat(lowered@),
{
    let n = lowered.unicode_len();
    if n < 4 {
        return false;
    }
    let r = lowered.get_char(n - 4) == '.' && lowered.get_char(n - 3) == 'd'
        && lowered.get_char(n - 2) == 'a' && lowered.get_char(n - 1) == 't';
    let ghost tail = lowered@.subrange(n - 4, n as int);
    proof {
        if r {
            assert(tail =~= dat_suffix());
        } else if tail == dat_suffix() {
            assert(tail[0] == lowered@[n - 4] && tail[1] == lowered@[n - 3]);
            assert(tail[2] == lowered@[n - 2] && tail[3] == lowered@[n - 1]);
        }
    }
    r
}

/// Accepts a path whose lowercase form ends in `.dat`, and refuses any other
/// with `InvalidExtension`.
pub fn check_extension(path: &str) -> (r: Result<(), FormatError>)
    ensures
        match r {
            Ok(_) => ends_with_dat(lower_of(path@)),
            Err(e) => !ends_with_dat(lower_of(path@)) && e == FormatError::InvalidExtension,
        },
{
    let lowered = lowercase(path);
    if is_dat_name(lowered.as_str()) {
        Ok(())
    } else {
        Err(FormatError::InvalidExtension)
    }
}

} // verus!

//! Case folding for lookup keys. Every entity lookup folds its key the same
//! way, so that one snapshot never mixes folded and unfolded keys.
use vstd::prelude::*;
use vstd::string::*;

verus! {

/// The lower-case folding of `s`, as computed by `str::to_lowercase`. The
/// folding depends on the characters alone.
pub uninterp spec fn lower_of(s: Seq<char>) -> Seq<char>;

/// The key under which a name is stored and looked up: the name itself, or
/// its lower-case folding when the snapshot ignores case.
pub open spec fn fold_key(ignore_case: bool, s: Seq<char>) -> Seq<char> {
    if ignore_case {
        lower_of(s)
    } else {
        s
    }
}

/// Relies on `str::to_lowercase`: the Unicode lower-case mapping of the
/// string, a function of its characters alone.
#[verifier::external_body]
fn lowercase(s: &str) -> (r: String)
    ensures
        r@ == lower_of(s@),
{
    s.to_lowercase()
}

/// Folds `name` into the key used for storage and lookup.
pub fn fold_case(name: &str, ignore_case: bool) -> (r: String)
    ensures
        r@ == fold_key(ignore_case, name@),
{
    if ignore_case {
        lowercase(name)
    } else {
        String::from_str(name)
    }
}

} // verus!

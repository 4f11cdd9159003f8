//! Character-level scanning: substring search and first-of-class search over
//! character sequences, with exact specifications.
use vstd::prelude::*;
use vstd::string::*;

verus! {

/// Whether `pat` occurs in `s` starting at index `i`.
pub open spec fn occurs_at(s: Seq<char>, pat: Seq<char>, i: int) -> bool {
    0 <= i && i + pat.len() <= s.len() && (forall|k: int|
        0 <= k < pat.len() ==> s[i + k] == pat[k])
}

/// The first index at or after `from` where `pat` occurs in `s`, if any.
pub open spec fn spec_find(s: Seq<char>, pat: Seq<char>, from: int) -> Option<int>
    decreases s.len() - from,
{
    if from < 0 {
        None
    } else if from + pat.len() > s.len() {
        None
    } else if occurs_at(s, pat, from) {
        Some(from)
    } else {
        spec_find(s, pat, from + 1)
    }
}

/// Whether `pat` occurs anywhere in `s`.
pub open spec fn contains_seq(s: Seq<char>, pat: Seq<char>) -> bool {
    spec_find(s, pat, 0) is Some
}

/// The first index at or after `from` whose character is one of `stops`.
pub open spec fn spec_find_of(s: Seq<char>, stops: Seq<char>, from: int) -> Option<int>
    decreases s.len() - from,
{
    if from < 0 {
        None
    } else if from >= s.len() {
        None
    } else if stops.contains(s[from]) {
        Some(from)
    } else {
        spec_find_of(s, stops, from + 1)
    }
}

/// The characters of `s`, as a vector.
pub fn str_to_chars(s: &str) -> (r: Vec<char>)
    ensures
        r@ == s@,
{
    let n = s.unicode_len();
    let mut r: Vec<char> = Vec::new();
    let mut i: usize = 0;
    while i < n
        invariant
            i <= n,
            n == s@.len(),
            r@ =~= s@.subrange(0, i as int),
        decreases n - i,
    {
        r.push(s.get_char(i));
        i = i + 1;
    }
    proof {
        assert(r@ =~= s@);
    }
    r
}

/// Whether `pat` occurs in `s` starting exactly at `i`.
pub(crate) fn occurs_at_exec(s: &Vec<char>, pat: &Vec<char>, i: usize) -> (r: bool)
    requires
        i + pat@.len() <= s@.len(),
    ensures
        r == occurs_at(s@, pat@, i as int),
{
    let sn: usize = s.len();
    let mut k: usize = 0;
    while k < pat.len()
        invariant
            k <= pat@.len(),
            i + pat@.len() <= s@.len(),
            sn == s@.len(),
            forall|j: int| 0 <= j < k ==> s@[i + j] == pat@[j],
        decreases pat@.len() - k,
    {
        if s[i + k] != pat[k] {
            return false;
        }
        k = k + 1;
    }
    true
}

/// Finds the first occurrence of `pat` in `s` at or after `from`.
pub fn find(s: &Vec<char>, pat: &Vec<char>, from: usize) -> (r: Option<usize>)
    ensures
        match r {
            Some(i) => from <= i && spec_find(s@, pat@, from as int) == Some(i as int),
            None => spec_find(s@, pat@, from as int) is None,
        },
{
    let mut i: usize = from;
    loop
        invariant
            from <= i,
            spec_find(s@, pat@, from as int) == spec_find(s@, pat@, i as int),
        decreases s@.len() + 1 - i,
    {
        if i > s.len() || pat.len() > s.len() - i {
            assert(spec_find(s@, pat@, i as int) is None);
            return None;
        }
        if occurs_at_exec(s, pat, i) {
            assert(spec_find(s@, pat@, i as int) == Some(i as int));
            return Some(i);
        }
        proof {
            assert(spec_find(s@, pat@, i as int) == spec_find(s@, pat@, i as int + 1));
        }
        i = i + 1;
    }
}

/// Whether any of the characters of `stops` equals `c`.
fn is_stop(stops: &Vec<char>, c: char) -> (r: bool)
    ensures
        r == stops@.contains(c),
{
    let mut k: usize = 0;
    while k < stops.len()
        invariant
            k <= stops@.len(),
            forall|j: int| 0 <= j < k ==> stops@[j] != c,
        decreases stops@.len() - k,
    {
        if stops[k] == c {
            return true;
        }
        k = k + 1;
    }
    false
}

/// Finds the first character of `s` at or after `from` that is one of `stops`.
pub fn find_of(s: &Vec<char>, stops: &Vec<char>, from: usize) -> (r: Option<usize>)
    ensures
        match r {
            Some(i) => from <= i && spec_find_of(s@, stops@, from as int) == Some(i as int),
            None => spec_find_of(s@, stops@, from as int) is None,
        },
{
    let mut i: usize = from;
    loop
        invariant
            from <= i,
            spec_find_of(s@, stops@, from as int) == spec_find_of(s@, stops@, i as int),
        decreases s@.len() + 1 - i,
    {
        if i >= s.len() {
            assert(spec_find_of(s@, stops@, i as int) is None);
            return None;
        }
        if is_stop(stops, s[i]) {
            assert(spec_find_of(s@, stops@, i as int) == Some(i as int));
            return Some(i);
        }
        proof {
            assert(spec_find_of(s@, stops@, i as int) == spec_find_of(s@, stops@, i as int + 1));
        }
        i = i + 1;
    }
}

/// Whether `pat` occurs anywhere in `s`.
pub fn contains(s: &Vec<char>, pat: &Vec<char>) -> (r: bool)
    ensures
        r == contains_seq(s@, pat@),
{
    find(s, pat, 0).is_some()
}

/// A found occurrence means every index of the pattern matches there.
pub proof fn lemma_find_occurs(s: Seq<char>, pat: Seq<char>, from: int)
    ensures
        spec_find(s, pat, from) matches Some(i) ==> from <= i && occurs_at(s, pat, i),
    decreases s.len() - from,
{
    if from >= 0 && from + pat.len() <= s.len() && !occurs_at(s, pat, from) {
        lemma_find_occurs(s, pat, from + 1);
    }
}

} // verus!

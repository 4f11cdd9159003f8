//! Nations, derived from town descriptions: a nation exists only as the set
//! of towns whose description names it, so resolution scans every town.
use vstd::prelude::*;
use vstd::string::*;

use crate::data::{Data, RawTown};
use crate::desc::nation_capture;
use crate::desc::nation_of_description;
use crate::fold::{fold_case, fold_key};
use crate::resident::Resident;
use crate::town::Town;
use crate::{result_view, Colour, Error, ErrorView};

verus! {

/// Spec-level shape of a [`Nation`].
pub struct NationView {
    pub name: Seq<char>,
}

/// A nation, known by its name alone.
#[derive(Debug, Clone, PartialEq)]
pub struct Nation {
    pub name: String,
}

impl View for Nation {
    type V = NationView;

    open spec fn view(&self) -> NationView {
        NationView { name: self.name@ }
    }
}

impl Nation {
    /// Enumerating a nation's towns needs the snapshot, which a `Nation`
    /// value does not hold; this always fails.
    pub fn towns(&self) -> (r: Result<Vec<Town>, Error>)
        ensures
            r == Err::<Vec<Town>, Error>(Error::NationNotFound),
    {
        Err(Error::NationNotFound)
    }

    /// Finding a nation's capital needs the snapshot, which a `Nation` value
    /// does not hold; this always fails.
    pub fn capital(&self) -> (r: Result<Town, Error>)
        ensures
            r == Err::<Town, Error>(Error::NationNotFound),
    {
        Err(Error::NationNotFound)
    }

    /// Finding a nation's leader needs the snapshot, which a `Nation` value
    /// does not hold; this always fails.
    pub fn leader(&self) -> (r: Result<Resident, Error>)
        ensures
            r == Err::<Resident, Error>(Error::NationNotFound),
    {
        Err(Error::NationNotFound)
    }

    /// Finding a nation's fill colour needs the snapshot, which a `Nation`
    /// value does not hold; this always fails.
    pub fn fill_colour(&self) -> (r: Result<Colour, Error>)
        ensures
            r == Err::<Colour, Error>(Error::NationNotFound),
    {
        Err(Error::NationNotFound)
    }

    /// Finding a nation's stroke colour needs the snapshot, which a `Nation`
    /// value does not hold; this always fails.
    pub fn stroke_colour(&self) -> (r: Result<Colour, Error>)
        ensures
            r == Err::<Colour, Error>(Error::NationNotFound),
    {
        Err(Error::NationNotFound)
    }

    /// Enumerating a nation's citizens needs the snapshot, which a `Nation`
    /// value does not hold; this always fails.
    pub fn citizens(&self) -> (r: Result<Vec<Resident>, Error>)
        ensures
            r == Err::<Vec<Resident>, Error>(Error::NationNotFound),
    {
        Err(Error::NationNotFound)
    }
}

/// Every town description yields a nation name under the heading grammar.
pub open spec fn all_descs_capture(ts: Seq<(String, RawTown)>) -> bool {
    forall|j: int| 0 <= j < ts.len() ==> nation_capture(#[trigger] ts[j].1.desc@) is Some
}

/// The first town index at or after `i` whose captured nation name folds to
/// `key`; towns whose heading does not match are passed over here.
pub open spec fn first_nation_match(
    ts: Seq<(String, RawTown)>,
    ignore_case: bool,
    key: Seq<char>,
    i: int,
) -> Option<int>
    decreases ts.len() - i,
{
    if i < 0 || i >= ts.len() {
        None
    } else {
        match nation_capture(ts[i].1.desc@) {
            Some(c) => if fold_key(ignore_case, c) == key {
                Some(i)
            } else {
                first_nation_match(ts, ignore_case, key, i + 1)
            },
            None => first_nation_match(ts, ignore_case, key, i + 1),
        }
    }
}

/// What nation resolution returns: a parse error if any town description
/// lacks a readable heading; otherwise the nation name captured from the
/// first town whose folded nation equals the folded query, or
/// `NationNotFound` when no town matches.
pub open spec fn spec_nation_get(d: Data, name: Seq<char>) -> Result<NationView, ErrorView> {
    let key = fold_key(d.ignore_case, name);
    let ts = d.towns.entries@;
    if !all_descs_capture(ts) {
        Err(ErrorView::ParseError("Nation pattern did not match"@))
    } else {
        match first_nation_match(ts, d.ignore_case, key, 0) {
            Some(i) => Ok(NationView { name: nation_capture(ts[i].1.desc@)->Some_0 }),
            None => Err(ErrorView::NationNotFound),
        }
    }
}

/// Resolves a nation by name against the snapshot.
pub fn get(data: &Data, nation: &String) -> (r: Result<Nation, Error>)
    ensures
        result_view(r) == spec_nation_get(*data, nation@),
{
    let name = fold_case(nation.as_str(), data.ignore_case);
    let ghost ts = data.towns.entries@;
    let ghost key = name@;
    let n = data.towns.entries.len();
    let mut found: Option<Nation> = None;
    let mut i: usize = 0;
    while i < n
        invariant
            i <= n,
            n == ts.len(),
            ts == data.towns.entries@,
            key == fold_key(data.ignore_case, nation@),
            name@ == key,
            forall|j: int| 0 <= j < i ==> nation_capture(#[trigger] ts[j].1.desc@) is Some,
            match found {
                Some(nt) => first_nation_match(ts, data.ignore_case, key, 0) matches Some(w)
                    && nt@.name == nation_capture(ts[w].1.desc@)->Some_0,
                None => first_nation_match(ts, data.ignore_case, key, 0) == first_nation_match(
                    ts,
                    data.ignore_case,
                    key,
                    i as int,
                ),
            },
        decreases n - i,
    {
        let cap = match nation_of_description(data.towns.entries[i].1.desc.as_str()) {
            Some(c) => c,
            None => {
                assert(!all_descs_capture(ts));
                return Err(Error::ParseError("Nation pattern did not match"));
            },
        };
        let folded_cap = fold_case(cap.as_str(), data.ignore_case);
        if found.is_none() && folded_cap.eq(&name) {
            assert(first_nation_match(ts, data.ignore_case, key, i as int) == Some(i as int));
            found = Some(Nation { name: cap });
        } else {
            proof {
                if found is None {
                    assert(first_nation_match(ts, data.ignore_case, key, i as int)
                        == first_nation_match(ts, data.ignore_case, key, i as int + 1));
                }
            }
        }
        i = i + 1;
    }
    proof {
        assert(all_descs_capture(ts));
    }
    match found {
        Some(nt) => Ok(nt),
        None => {
            assert(first_nation_match(ts, data.ignore_case, key, n as int) is None);
            Err(Error::NationNotFound)
        },
    }
}

/// Law: with a case-insensitive snapshot, two queries with the same
/// lower-case folding resolve to the same nation result.
pub proof fn lemma_nation_case_insensitive(d: Data, a: Seq<char>, b: Seq<char>)
    requires
        d.ignore_case,
        crate::fold::lower_of(a) == crate::fold::lower_of(b),
    ensures
        spec_nation_get(d, a) == spec_nation_get(d, b),
{
    assert(fold_key(d.ignore_case, a) == fold_key(d.ignore_case, b));
}

} // verus!

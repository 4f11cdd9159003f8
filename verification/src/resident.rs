//! Residents, resolved from the snapshot: the first town whose raw
//! description contains the folded name as a substring supplies the town and
//! nation (a documented imprecision of the source grammar), and the player
//! map supplies presence, position and the hidden flag. A found town's
//! nation is mirrored whether or not the resident is online.
use vstd::prelude::*;
use vstd::string::*;

use crate::data::{Data, RawTown};
use crate::fold::{fold_case, fold_key};
use crate::nation::{Nation, NationView};
use crate::scan::{contains, contains_seq, str_to_chars};
use crate::town::{spec_town_get, Town, TownView};
use crate::{option_view, result_view, Error, ErrorView, Position};

verus! {

/// Spec-level shape of a [`Resident`].
pub struct ResidentView {
    pub name: Seq<char>,
    pub online: bool,
    pub position: Option<Position>,
    pub hidden: bool,
    pub town: Option<TownView>,
    pub nation: Option<NationView>,
    pub npc: bool,
}

/// A resolved resident.
#[derive(Debug, Clone, PartialEq)]
pub struct Resident {
    pub name: String,
    pub online: bool,
    pub position: Option<Position>,
    pub hidden: bool,
    pub town: Option<Town>,
    pub nation: Option<Nation>,
    pub npc: bool,
}

impl View for Resident {
    type V = ResidentView;

    open spec fn view(&self) -> ResidentView {
        ResidentView {
            name: self.name@,
            online: self.online,
            position: self.position,
            hidden: self.hidden,
            town: option_view(self.town),
            nation: option_view(self.nation),
            npc: self.npc,
        }
    }
}

/// Whether `c` is a decimal digit.
pub open spec fn is_digit(c: char) -> bool {
    '0' as u32 <= c as u32 <= '9' as u32
}

/// The value of a decimal digit string.
pub open spec fn dec_value(s: Seq<char>) -> int
    decreases s.len(),
{
    if s.len() == 0 {
        0
    } else {
        dec_value(s.drop_last()) * 10 + (s.last() as u32 - '0' as u32)
    }
}

/// Whether a resident key names a non-player character: the literal prefix
/// `NPC` followed by a parseable unsigned 16-bit number (an optional plus
/// sign, then digits whose value fits).
pub open spec fn spec_npc(s: Seq<char>) -> bool {
    let st: int = if s.len() >= 4 && s[3] == '+' {
        4
    } else {
        3
    };
    s.len() >= 3 && s[0] == 'N' && s[1] == 'P' && s[2] == 'C' && s.len() > st && (forall|i: int|
        st <= i < s.len() ==> is_digit(#[trigger] s[i])) && dec_value(s.skip(st)) <= 65535
}

/// Reads the digits of `t` from `start` on, capping the running value so
/// that comparison against the 16-bit bound stays exact.
fn digits_value_capped(t: &Vec<char>, start: usize) -> (r: Option<u64>)
    requires
        start <= t@.len(),
    ensures
        match r {
            Some(v) => (forall|i: int|
                start <= i < t@.len() ==> is_digit(#[trigger] t@[i])) && (v <= 65535 <==> dec_value(
                t@.skip(start as int),
            ) <= 65535) && t@.len() > start,
            None => t@.len() == start || exists|i: int|
                start <= i < t@.len() && !is_digit(#[trigger] t@[i]),
        },
{
    if t.len() == start {
        return None;
    }
    let mut v: u64 = 0;
    let mut i: usize = start;
    proof {
        assert(t@.skip(start as int).take(0) =~= Seq::<char>::empty());
    }
    while i < t.len()
        invariant
            start <= i <= t@.len(),
            forall|j: int| start <= j < i ==> is_digit(#[trigger] t@[j]),
            v == (if dec_value(t@.skip(start as int).take(i - start)) <= 100000 {
                dec_value(t@.skip(start as int).take(i - start))
            } else {
                100000int
            }),
            v <= 100000,
        decreases t@.len() - i,
    {
        let c = t[i];
        let u = c as u32;
        if !(48 <= u && u <= 57) {
            return None;
        }
        let d: u64 = (u - 48) as u64;
        proof {
            let sk = t@.skip(start as int);
            assert(sk.take(i - start + 1).drop_last() =~= sk.take(i - start));
            assert(sk.take(i - start + 1).last() == t@[i as int]);
        }
        let next: u64 = v * 10 + d;
        v = if next > 100000 {
            100000
        } else {
            next
        };
        i = i + 1;
    }
    proof {
        assert(t@.skip(start as int).take(t@.len() - start) =~= t@.skip(start as int));
    }
    Some(v)
}

/// Whether `name` designates a non-player character.
fn is_npc(name: &String) -> (r: bool)
    ensures
        r == spec_npc(name@),
{
    let t = str_to_chars(name.as_str());
    if t.len() < 3 {
        return false;
    }
    if !(t[0] == 'N' && t[1] == 'P' && t[2] == 'C') {
        return false;
    }
    let start: usize = if t.len() >= 4 && t[3] == '+' {
        4
    } else {
        3
    };
    let dv = digits_value_capped(&t, start);
    let r = match dv {
        Some(v) => v <= 65535,
        None => false,
    };
    proof {
        if dv is None && t@.len() != start {
            let i = choose|i: int|
                start <= i < t@.len() && !is_digit(#[trigger] t@[i]);
            assert(!is_digit(name@[i]));
        }
        assert(r == spec_npc(name@));
    }
    r
}

/// What resident assembly returns for an already-folded name and an
/// optional resolved town: the folded name is the player lookup key; a
/// present player is online at its literal coordinates, hidden exactly at
/// the sentinel `(0, 64, 0)`; an absent player is offline and hidden, with
/// no position. A found town's nation is mirrored either way.
pub open spec fn spec_with_town(d: Data, resident: Seq<char>, town: Option<TownView>)
    -> ResidentView {
    let nation = match town {
        Some(t) => Some(t.nation),
        None => None,
    };
    match d.players.spec_get(resident) {
        Some(p) => ResidentView {
            name: p.name@,
            online: true,
            position: Some(Position { x: p.x, y: p.y, z: p.z }),
            hidden: p.x == 0 && p.y == 64 && p.z == 0,
            town,
            nation,
            npc: spec_npc(resident),
        },
        None => ResidentView {
            name: resident,
            online: false,
            position: None,
            hidden: true,
            town,
            nation,
            npc: spec_npc(resident),
        },
    }
}

/// The first town index at or after `i` whose raw description contains
/// `folded` as a substring.
pub open spec fn first_containing_town(
    ts: Seq<(String, RawTown)>,
    folded: Seq<char>,
    i: int,
) -> Option<int>
    decreases ts.len() - i,
{
    if i < 0 || i >= ts.len() {
        None
    } else if contains_seq(ts[i].1.desc@, folded) {
        Some(i)
    } else {
        first_containing_town(ts, folded, i + 1)
    }
}

/// What resident resolution returns: the name is folded once, and the
/// folded name picks the first town whose description contains it;
/// resolving that town may fail, and its error surfaces; a resident with no
/// matching town is no error.
pub open spec fn spec_resident_get(d: Data, resident: Seq<char>) -> Result<
    ResidentView,
    ErrorView,
> {
    let folded = fold_key(d.ignore_case, resident);
    match first_containing_town(d.towns.entries@, folded, 0) {
        None => Ok(spec_with_town(d, folded, None)),
        Some(i) => match spec_town_get(d, d.towns.entries@[i].0@) {
            Err(e) => Err(e),
            Ok(tv) => Ok(spec_with_town(d, folded, Some(tv))),
        },
    }
}

/// Assembles a resident from its already-folded name and an optional
/// resolved town.
pub(crate) fn with_town(data: &Data, resident: &String, town: Option<Town>) -> (r: Resident)
    ensures
        r@ == spec_with_town(*data, resident@, option_view(town)),
{
    let npc = is_npc(resident);
    let nation: Option<Nation> = match &town {
        Some(t) => Some(Nation { name: t.nation.name.clone() }),
        None => None,
    };
    match data.players.get(resident) {
        Some(p) => Resident {
            name: p.name.clone(),
            online: true,
            position: Some(Position { x: p.x, y: p.y, z: p.z }),
            hidden: p.x == 0 && p.y == 64 && p.z == 0,
            nation,
            npc,
            town,
        },
        None => Resident {
            name: resident.clone(),
            online: false,
            position: None,
            hidden: true,
            town,
            nation,
            npc,
        },
    }
}

/// Resolves a resident by name against the snapshot. This never fails for
/// want of a town; only a failing town resolution surfaces an error.
pub fn get(data: &Data, resident: &String) -> (r: Result<Resident, Error>)
    ensures
        result_view(r) == spec_resident_get(*data, resident@),
{
    let folded = fold_case(resident.as_str(), data.ignore_case);
    let fv = str_to_chars(folded.as_str());
    let ghost ts = data.towns.entries@;
    let n = data.towns.entries.len();
    let mut i: usize = 0;
    while i < n
        invariant
            i <= n,
            n == ts.len(),
            ts == data.towns.entries@,
            fv@ == fold_key(data.ignore_case, resident@),
            folded@ == fold_key(data.ignore_case, resident@),
            first_containing_town(ts, fv@, 0) == first_containing_town(ts, fv@, i as int),
        decreases n - i,
    {
        let dv = str_to_chars(data.towns.entries[i].1.desc.as_str());
        if contains(&dv, &fv) {
            assert(first_containing_town(ts, fv@, i as int) == Some(i as int));
            let key = data.towns.entries[i].0.clone();
            let t = match crate::town::get(data, &key) {
                Ok(t) => t,
                Err(e) => {
                    return Err(e);
                },
            };
            return Ok(with_town(data, &folded, Some(t)));
        }
        proof {
            assert(first_containing_town(ts, fv@, i as int) == first_containing_town(
                ts,
                fv@,
                i as int + 1,
            ));
        }
        i = i + 1;
    }
    assert(first_containing_town(ts, fv@, n as int) is None);
    Ok(with_town(data, &folded, None))
}

/// Law: with a case-insensitive snapshot, two queries with the same
/// lower-case folding resolve to the same resident result.
pub proof fn lemma_resident_case_insensitive(d: Data, a: Seq<char>, b: Seq<char>)
    requires
        d.ignore_case,
        crate::fold::lower_of(a) == crate::fold::lower_of(b),
    ensures
        spec_resident_get(d, a) == spec_resident_get(d, b),
{
    assert(fold_key(d.ignore_case, a) == fold_key(d.ignore_case, b));
}

} // verus!

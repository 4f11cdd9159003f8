//! Towns, resolved from the snapshot: the raw record is looked up under the
//! folded name, its description parsed against the full grammar, its nation
//! resolved, and the view assembled with colours, flags, centroid and bounds.
use vstd::prelude::*;
use vstd::string::*;

use crate::data::Data;
use crate::desc::{nation_capture, nation_of_description, parse_description, spec_desc_parse};
use crate::fold::{fold_case, fold_key};
use crate::geometry::{centroid_and_bounds, seq_max, seq_min, spec_mean};
use crate::nation::{spec_nation_get, Nation, NationView};
use crate::resident::Resident;
use crate::{result_view, Bounds, Colour, Error, ErrorView, Position};

verus! {

/// The five flags carried into a resolved town.
#[derive(Debug, Clone, Copy, PartialEq, Eq, Structural)]
pub struct TownFlags {
    pub pvp: bool,
    pub mobs: bool,
    pub explosions: bool,
    pub fire: bool,
    pub capital: bool,
}

/// Spec-level shape of a [`Town`].
pub struct TownView {
    pub name: Seq<char>,
    pub nation: NationView,
    pub stroke_colour: Colour,
    pub fill_colour: Colour,
    pub flags: TownFlags,
    pub position: Position,
    pub bounds: Bounds,
}

/// A resolved town.
#[derive(Debug, Clone, PartialEq)]
pub struct Town {
    pub name: String,
    pub nation: Nation,
    pub stroke_colour: Colour,
    pub fill_colour: Colour,
    pub flags: TownFlags,
    pub position: Position,
    pub bounds: Bounds,
}

impl View for Town {
    type V = TownView;

    open spec fn view(&self) -> TownView {
        TownView {
            name: self.name@,
            nation: self.nation@,
            stroke_colour: self.stroke_colour,
            fill_colour: self.fill_colour,
            flags: self.flags,
            position: self.position,
            bounds: self.bounds,
        }
    }
}

impl Town {
    /// Resolving the mayor needs the snapshot, which a `Town` value does not
    /// hold; this always fails.
    pub fn mayor(&self) -> (r: Result<Resident, Error>)
        ensures
            r == Err::<Resident, Error>(Error::TownNotFound),
    {
        Err(Error::TownNotFound)
    }

    /// Resolving the member list needs the snapshot, which a `Town` value
    /// does not hold; this always fails.
    pub fn residents(&self) -> (r: Result<Vec<Resident>, Error>)
        ensures
            r == Err::<Vec<Resident>, Error>(Error::TownNotFound),
    {
        Err(Error::TownNotFound)
    }
}

/// What town assembly returns for an already-folded key and an already
/// resolved nation: the record is looked up under that key, the description
/// must match the full grammar, and the polygon must be non-empty.
pub open spec fn spec_with_nation(d: Data, key: Seq<char>, nv: NationView) -> Result<
    TownView,
    ErrorView,
> {
    match d.towns.spec_get(key) {
        None => Err(ErrorView::TownNotFound),
        Some(raw) => match spec_desc_parse(raw.desc@) {
            None => Err(ErrorView::ParseError("Description did not match"@)),
            Some(c) => if raw.x@.len() == 0 || raw.z@.len() == 0 {
                Err(ErrorView::ParseError("Empty polygon"@))
            } else {
                Ok(
                    TownView {
                        name: raw.name@,
                        nation: nv,
                        stroke_colour: raw.colour,
                        fill_colour: raw.fill_colour,
                        flags: TownFlags {
                            pvp: c.pvp,
                            mobs: c.mobs,
                            explosions: c.explosions,
                            fire: c.fire,
                            capital: c.capital,
                        },
                        position: Position {
                            x: spec_mean(raw.x@) as i32,
                            y: 0,
                            z: spec_mean(raw.z@) as i32,
                        },
                        bounds: Bounds {
                            x1: seq_min(raw.x@) as i32,
                            z1: seq_min(raw.z@) as i32,
                            x2: seq_max(raw.x@) as i32,
                            z2: seq_max(raw.z@) as i32,
                        },
                    },
                )
            },
        },
    }
}

/// What town resolution returns: the name is folded once into the lookup
/// key, the record's heading must yield a nation name, that nation is
/// resolved, and the town view is assembled under the same key.
pub open spec fn spec_town_get(d: Data, town: Seq<char>) -> Result<TownView, ErrorView> {
    let key = fold_key(d.ignore_case, town);
    match d.towns.spec_get(key) {
        None => Err(ErrorView::TownNotFound),
        Some(raw) => match nation_capture(raw.desc@) {
            None => Err(ErrorView::ParseError("Nation pattern did not match"@)),
            Some(nname) => match spec_nation_get(d, nname) {
                Err(e) => Err(e),
                Ok(nv) => spec_with_nation(d, key, nv),
            },
        },
    }
}

/// Assembles a town view from its already-folded key and an already
/// resolved nation.
pub(crate) fn with_nation(data: &Data, town: &String, nation: Nation) -> (r: Result<Town, Error>)
    ensures
        result_view(r) == spec_with_nation(*data, town@, nation@),
{
    let raw = match data.towns.get(town) {
        Some(t) => t,
        None => {
            return Err(Error::TownNotFound);
        },
    };
    let c = match parse_description(raw.desc.as_str()) {
        Ok(c) => c,
        Err(e) => {
            return Err(e);
        },
    };
    let (position, bounds) = match centroid_and_bounds(&raw.x, &raw.z) {
        Ok(pb) => pb,
        Err(e) => {
            return Err(e);
        },
    };
    Ok(
        Town {
            name: raw.name.clone(),
            nation,
            stroke_colour: raw.colour,
            fill_colour: raw.fill_colour,
            flags: TownFlags {
                pvp: c.pvp,
                mobs: c.mobs,
                explosions: c.explosions,
                fire: c.fire,
                capital: c.capital,
            },
            position,
            bounds,
        },
    )
}

/// Resolves a town by name against the snapshot.
pub fn get(data: &Data, town: &String) -> (r: Result<Town, Error>)
    ensures
        result_view(r) == spec_town_get(*data, town@),
{
    let key = fold_case(town.as_str(), data.ignore_case);
    let raw = match data.towns.get(&key) {
        Some(t) => t,
        None => {
            return Err(Error::TownNotFound);
        },
    };
    let nname = match nation_of_description(raw.desc.as_str()) {
        Some(s) => s,
        None => {
            return Err(Error::ParseError("Nation pattern did not match"));
        },
    };
    let resolved_nation = match crate::nation::get(data, &nname) {
        Ok(n) => n,
        Err(e) => {
            return Err(e);
        },
    };
    with_nation(data, &key, resolved_nation)
}

/// Law: town resolution fails with `TownNotFound` exactly when the folded
/// key is absent from the snapshot's town map.
pub proof fn lemma_town_not_found(d: Data, town: Seq<char>)
    ensures
        (spec_town_get(d, town) == Err::<TownView, ErrorView>(ErrorView::TownNotFound))
            <==> d.towns.spec_get(fold_key(d.ignore_case, town)) is None,
{
    let key = fold_key(d.ignore_case, town);
    match d.towns.spec_get(key) {
        None => {},
        Some(raw) => match nation_capture(raw.desc@) {
            None => {},
            Some(nname) => {
                assert(!(spec_nation_get(d, nname) matches Err(e) && e
                    == ErrorView::TownNotFound));
            },
        },
    }
}

/// Law: with a case-insensitive snapshot, two queries with the same
/// lower-case folding resolve to the same town result.
pub proof fn lemma_town_case_insensitive(d: Data, a: Seq<char>, b: Seq<char>)
    requires
        d.ignore_case,
        crate::fold::lower_of(a) == crate::fold::lower_of(b),
    ensures
        spec_town_get(d, a) == spec_town_get(d, b),
{
    assert(fold_key(d.ignore_case, a) == fold_key(d.ignore_case, b));
}

} // verus!

//! The snapshot: towns and players decoded from the two JSON feeds, keyed by
//! case-folded names. The feeds are decoded by the trusted layer in `json`
//! into plain values; everything the builder makes of them — the primary
//! marker filter, per-field validation, colour parsing, keying and last-wins
//! folding — is verified here, and the built maps are pinned exactly to the
//! named decode of each payload.
use vstd::prelude::*;
use vstd::string::*;

use crate::fold::{fold_case, fold_key};
use crate::json::{
    decode_player_doc, decode_town_entries, player_doc_of, town_entries_of, town_entry_seq_view,
    PlayerEntry, PlayerEntryView, PlayersDoc, PlayersDocView, TownEntry, TownEntryView,
};
use crate::strmap::{entries_view, view_insert, StrMap};
use crate::{result_view, Colour, Error, ErrorView};

verus! {

/// A town as decoded from the marker feed: colours parsed, coordinates
/// truncated to integers, description kept raw.
#[derive(Debug, PartialEq)]
pub struct RawTown {
    pub name: String,
    pub fill_colour: Colour,
    pub colour: Colour,
    pub x: Vec<i32>,
    pub z: Vec<i32>,
    pub desc: String,
}

/// Spec-level shape of a [`RawTown`].
pub struct RawTownView {
    pub name: Seq<char>,
    pub fill_colour: Colour,
    pub colour: Colour,
    pub x: Seq<i32>,
    pub z: Seq<i32>,
    pub desc: Seq<char>,
}

impl View for RawTown {
    type V = RawTownView;

    open spec fn view(&self) -> RawTownView {
        RawTownView {
            name: self.name@,
            fill_colour: self.fill_colour,
            colour: self.colour,
            x: self.x@,
            z: self.z@,
            desc: self.desc@,
        }
    }
}

/// A player as decoded from the player feed, positions truncated to
/// integers.
#[derive(Debug, PartialEq)]
pub struct RawPlayer {
    pub world: String,
    pub armor: u8,
    pub name: String,
    pub x: i32,
    pub y: i16,
    pub health: u8,
    pub z: i32,
    pub sort: u8,
    pub type_: String,
    pub account: String,
}

/// Spec-level shape of a [`RawPlayer`].
pub struct RawPlayerView {
    pub world: Seq<char>,
    pub armor: u8,
    pub name: Seq<char>,
    pub x: i32,
    pub y: i16,
    pub health: u8,
    pub z: i32,
    pub sort: u8,
    pub type_: Seq<char>,
    pub account: Seq<char>,
}

impl View for RawPlayer {
    type V = RawPlayerView;

    open spec fn view(&self) -> RawPlayerView {
        RawPlayerView {
            world: self.world@,
            armor: self.armor,
            name: self.name@,
            x: self.x,
            y: self.y,
            health: self.health,
            z: self.z,
            sort: self.sort,
            type_: self.type_@,
            account: self.account@,
        }
    }
}

/// One immutable, point-in-time fetch of town and player data.
#[derive(Debug, PartialEq)]
pub struct Data {
    pub towns: StrMap<RawTown>,
    pub players: StrMap<RawPlayer>,
    pub ignore_case: bool,
}

/// A town entry is stored under the case-folded town name.
pub open spec fn town_entry_ok(ignore_case: bool, e: (String, RawTown)) -> bool {
    e.0@ == fold_key(ignore_case, e.1.name@)
}

/// A player entry is stored under the case-folded account name.
pub open spec fn player_entry_ok(ignore_case: bool, e: (String, RawPlayer)) -> bool {
    e.0@ == fold_key(ignore_case, e.1.account@)
}

impl Data {
    /// Well-formedness: both maps have unique keys, and every entry is keyed
    /// by the case-folded name the snapshot's mode prescribes.
    pub open spec fn wf(self) -> bool {
        &&& self.towns.wf()
        &&& self.players.wf()
        &&& forall|i: int|
            0 <= i < self.towns.entries@.len() ==> town_entry_ok(
                self.ignore_case,
                #[trigger] self.towns.entries@[i],
            )
        &&& forall|i: int|
            0 <= i < self.players.entries@.len() ==> player_entry_ok(
                self.ignore_case,
                #[trigger] self.players.entries@[i],
            )
    }
}

/// A marker key designates a town's primary marker: it ends in the literal
/// suffix `__0`.
pub open spec fn primary_marker(s: Seq<char>) -> bool {
    s.len() >= 3 && s[s.len() - 3] == '_' && s[s.len() - 2] == '_' && s[s.len() - 1] == '0'
}

/// Whether a marker key ends in `__0`.
fn is_primary_marker(s: &String) -> (r: bool)
    ensures
        r == primary_marker(s@),
{
    let st = s.as_str();
    let n = st.unicode_len();
    if n < 3 {
        return false;
    }
    st.get_char(n - 3) == '_' && st.get_char(n - 2) == '_' && st.get_char(n - 1) == '0'
}

/// Every decoded coordinate is present.
pub open spec fn coords_ok(s: Seq<Option<i32>>) -> bool {
    forall|i: int| 0 <= i < s.len() ==> (#[trigger] s[i]) is Some
}

/// The present coordinate values.
pub open spec fn coord_vals(s: Seq<Option<i32>>) -> Seq<i32> {
    s.map_values(|o: Option<i32>| o->Some_0)
}

/// What converting one town entry yields: each field must be present, the
/// two colour strings must be valid `#RRGGBB`, and every coordinate must be
/// a number; the first offence decides the error, in field order.
pub open spec fn spec_convert_town(e: TownEntryView) -> Result<RawTownView, ErrorView> {
    match e.label {
        None => Err(ErrorView::ParseError("town[\"label\"] is not a string"@)),
        Some(label) => match e.fillcolor {
            None => Err(ErrorView::ParseError("town[\"fillcolor\"] is not a string"@)),
            Some(fc) => if !crate::valid_colour_seq(fc) {
                Err(ErrorView::ParseError("Invalid colour"@))
            } else {
                match e.color {
                    None => Err(ErrorView::ParseError("town[\"color\"] is not a string"@)),
                    Some(sc) => if !crate::valid_colour_seq(sc) {
                        Err(ErrorView::ParseError("Invalid colour"@))
                    } else {
                        match e.x {
                            None => Err(ErrorView::ParseError("town[\"x\"] is not an array"@)),
                            Some(xs) => if !coords_ok(xs) {
                                Err(ErrorView::ParseError("x is not an int"@))
                            } else {
                                match e.z {
                                    None => Err(
                                        ErrorView::ParseError("town[\"z\"] is not an array"@),
                                    ),
                                    Some(zs) => if !coords_ok(zs) {
                                        Err(ErrorView::ParseError("z is not an int"@))
                                    } else {
                                        match e.desc {
                                            None => Err(
                                                ErrorView::ParseError(
                                                    "town[\"desc\"] is not a string"@,
                                                ),
                                            ),
                                            Some(desc) => Ok(
                                                RawTownView {
                                                    name: label,
                                                    fill_colour: crate::colour_of_seq(fc),
                                                    colour: crate::colour_of_seq(sc),
                                                    x: coord_vals(xs),
                                                    z: coord_vals(zs),
                                                    desc,
                                                },
                                            ),
                                        }
                                    },
                                }
                            },
                        }
                    },
                }
            },
        },
    }
}

/// What folding the town entries yields: primary markers only, converted in
/// order, each keyed by its case-folded label, the newest binding winning;
/// the first conversion failure decides the error.
pub open spec fn spec_towns_fold(
    es: Seq<TownEntryView>,
    ignore_case: bool,
    acc: Seq<(Seq<char>, RawTownView)>,
) -> Result<Seq<(Seq<char>, RawTownView)>, ErrorView>
    decreases es.len(),
{
    if es.len() == 0 {
        Ok(acc)
    } else if !primary_marker(es[0].key) {
        spec_towns_fold(es.drop_first(), ignore_case, acc)
    } else {
        match spec_convert_town(es[0]) {
            Err(e) => Err(e),
            Ok(t) => spec_towns_fold(
                es.drop_first(),
                ignore_case,
                view_insert(acc, fold_key(ignore_case, t.name), t),
            ),
        }
    }
}

/// What converting one player entry yields: each field must be present and
/// in range; the first offence decides the error, in field order. Elevation
/// saturates into the `i16` range, as a float-to-integer cast does.
pub open spec fn spec_convert_player(p: PlayerEntryView) -> Result<RawPlayerView, ErrorView> {
    match p.world {
        None => Err(ErrorView::ParseError("player[\"world\"] is not a string"@)),
        Some(world) => match p.armor {
            None => Err(ErrorView::ParseError("player[\"armor\"] is not a u8"@)),
            Some(armor) => if armor > 255 {
                Err(ErrorView::ParseError("player[\"armor\"] is not a u8"@))
            } else {
                match p.name {
                    None => Err(ErrorView::ParseError("player[\"name\"] is not a string"@)),
                    Some(name) => match p.x {
                        None => Err(ErrorView::ParseError("player[\"x\"] is not a number"@)),
                        Some(x) => match p.y {
                            None => Err(ErrorView::ParseError("player[\"y\"] is not a number"@)),
                            Some(y) => match p.health {
                                None => Err(
                                    ErrorView::ParseError("player[\"health\"] is not a u8"@),
                                ),
                                Some(health) => if health > 255 {
                                    Err(ErrorView::ParseError("player[\"health\"] is not a u8"@))
                                } else {
                                    match p.z {
                                        None => Err(
                                            ErrorView::ParseError(
                                                "player[\"z\"] is not a number"@,
                                            ),
                                        ),
                                        Some(z) => match p.sort {
                                            None => Err(
                                                ErrorView::ParseError(
                                                    "player[\"sort\"] is not a u8"@,
                                                ),
                                            ),
                                            Some(sort) => if sort > 255 {
                                                Err(
                                                    ErrorView::ParseError(
                                                        "player[\"sort\"] is not a u8"@,
                                                    ),
                                                )
                                            } else {
                                                match p.type_ {
                                                    None => Err(
                                                        ErrorView::ParseError(
                                                            "player[\"type\"] is not a string"@,
                                                        ),
                                                    ),
                                                    Some(type_) => match p.account {
                                                        None => Err(
                                                            ErrorView::ParseError(
                                                                "player[\"account\"] is not a string"@,
                                                            ),
                                                        ),
                                                        Some(account) => Ok(
                                                            RawPlayerView {
                                                                world,
                                                                armor: armor as u8,
                                                                name,
                                                                x,
                                                                y: (if y > 32767 {
                                                                    32767int
                                                                } else if y < -32768 {
                                                                    -32768int
                                                                } else {
                                                                    y as int
                                                                }) as i16,
                                                                health: health as u8,
                                                                z,
                                                                sort: sort as u8,
                                                                type_,
                                                                account,
                                                            },
                                                        ),
                                                    },
                                                }
                                            },
                                        },
                                    }
                                },
                            },
                        },
                    },
                }
            },
        },
    }
}

/// What folding the player entries yields: converted in order, each keyed
/// by its case-folded account, the newest binding winning; the first
/// conversion failure decides the error.
pub open spec fn spec_players_fold(
    ps: Seq<PlayerEntryView>,
    ignore_case: bool,
    acc: Seq<(Seq<char>, RawPlayerView)>,
) -> Result<Seq<(Seq<char>, RawPlayerView)>, ErrorView>
    decreases ps.len(),
{
    if ps.len() == 0 {
        Ok(acc)
    } else {
        match spec_convert_player(ps[0]) {
            Err(e) => Err(e),
            Ok(p) => spec_players_fold(
                ps.drop_first(),
                ignore_case,
                view_insert(acc, fold_key(ignore_case, p.account), p),
            ),
        }
    }
}

/// What building the player map from a decoded feed yields: the two header
/// fields must be present and in range, the player array present, and then
/// the entries fold.
pub open spec fn spec_build_players(doc: PlayersDocView, ignore_case: bool) -> Result<
    Seq<(Seq<char>, RawPlayerView)>,
    ErrorView,
> {
    match doc.currentcount {
        None => Err(ErrorView::ParseError("players[\"currentcount\"] is not a u16"@)),
        Some(cc) => if cc > 65535 {
            Err(ErrorView::ParseError("players[\"currentcount\"] is not a u16"@))
        } else {
            match doc.has_storm {
                None => Err(ErrorView::ParseError("players[\"hasStorm\"] is not a bool"@)),
                Some(_) => match doc.players {
                    None => Err(ErrorView::ParseError("players[\"players\"] is not an array"@)),
                    Some(ps) => spec_players_fold(ps, ignore_case, Seq::empty()),
                },
            }
        },
    }
}

/// What building a snapshot from the two payload texts yields, over the
/// named decodes: a payload that is no JSON fails as a transport error with
/// the decoder's message (town feed first); a town feed without the areas
/// object, or any ill-formed selected entry, player header or player record
/// fails as a parse error naming it; else the two folded maps.
pub open spec fn spec_build(ts: Seq<char>, ps: Seq<char>, ignore_case: bool) -> Result<
    (Seq<(Seq<char>, RawTownView)>, Seq<(Seq<char>, RawPlayerView)>),
    ErrorView,
> {
    match town_entries_of(ts) {
        Err(m) => Err(ErrorView::TransportError(m)),
        Ok(topt) => match player_doc_of(ps) {
            Err(m) => Err(ErrorView::TransportError(m)),
            Ok(doc) => match topt {
                None => Err(ErrorView::ParseError("town_data is not an object"@)),
                Some(es) => match spec_towns_fold(es, ignore_case, Seq::empty()) {
                    Err(e) => Err(e),
                    Ok(towns) => match spec_build_players(doc, ignore_case) {
                        Err(e) => Err(e),
                        Ok(players) => Ok((towns, players)),
                    },
                },
            },
        },
    }
}

/// Decodes one coordinate array: every element must be a number.
fn convert_coords(v: &Vec<Option<i32>>, elem_err: &'static str) -> (r: Result<Vec<i32>, Error>)
    ensures
        coords_ok(v@) ==> (r matches Ok(out) && out@ == coord_vals(v@)),
        !coords_ok(v@) ==> (r matches Err(e) && e@ == ErrorView::ParseError(elem_err@)),
{
    let mut out: Vec<i32> = Vec::new();
    let mut i: usize = 0;
    while i < v.len()
        invariant
            i <= v@.len(),
            out@.len() == i,
            forall|j: int| 0 <= j < i ==> (#[trigger] v@[j]) is Some,
            forall|j: int| 0 <= j < i ==> out@[j] == v@[j]->Some_0,
        decreases v@.len() - i,
    {
        match v[i] {
            Some(n) => out.push(n),
            None => {
                return Err(Error::ParseError(elem_err));
            },
        }
        i = i + 1;
    }
    proof {
        assert(out@ =~= coord_vals(v@));
    }
    Ok(out)
}

/// Converts one decoded town entry, exactly as [`spec_convert_town`] says.
fn convert_town(e: &TownEntry) -> (r: Result<RawTown, Error>)
    ensures
        result_view(r) == spec_convert_town(e@),
{
    let label = match &e.label {
        Some(s) => s,
        None => {
            return Err(Error::ParseError("town[\"label\"] is not a string"));
        },
    };
    let fc = match &e.fillcolor {
        Some(s) => s,
        None => {
            return Err(Error::ParseError("town[\"fillcolor\"] is not a string"));
        },
    };
    let fill_colour = match Colour::parse(fc.as_str()) {
        Ok(c) => c,
        Err(e) => {
            return Err(e);
        },
    };
    let sc = match &e.color {
        Some(s) => s,
        None => {
            return Err(Error::ParseError("town[\"color\"] is not a string"));
        },
    };
    let colour = match Colour::parse(sc.as_str()) {
        Ok(c) => c,
        Err(e) => {
            return Err(e);
        },
    };
    let xs = match &e.x {
        Some(v) => v,
        None => {
            return Err(Error::ParseError("town[\"x\"] is not an array"));
        },
    };
    let x = match convert_coords(xs, "x is not an int") {
        Ok(v) => v,
        Err(e) => {
            return Err(e);
        },
    };
    let zs = match &e.z {
        Some(v) => v,
        None => {
            return Err(Error::ParseError("town[\"z\"] is not an array"));
        },
    };
    let z = match convert_coords(zs, "z is not an int") {
        Ok(v) => v,
        Err(e) => {
            return Err(e);
        },
    };
    let desc = match &e.desc {
        Some(s) => s,
        None => {
            return Err(Error::ParseError("town[\"desc\"] is not a string"));
        },
    };
    Ok(
        RawTown {
            name: label.clone(),
            fill_colour,
            colour,
            x,
            z,
            desc: desc.clone(),
        },
    )
}

/// Converts one decoded player entry, exactly as [`spec_convert_player`]
/// says.
fn convert_player(p: &PlayerEntry) -> (r: Result<RawPlayer, Error>)
    ensures
        result_view(r) == spec_convert_player(p@),
{
    let world = match &p.world {
        Some(s) => s,
        None => {
            return Err(Error::ParseError("player[\"world\"] is not a string"));
        },
    };
    let armor = match p.armor {
        Some(n) => n,
        None => {
            return Err(Error::ParseError("player[\"armor\"] is not a u8"));
        },
    };
    if armor > 255 {
        return Err(Error::ParseError("player[\"armor\"] is not a u8"));
    }
    let name = match &p.name {
        Some(s) => s,
        None => {
            return Err(Error::ParseError("player[\"name\"] is not a string"));
        },
    };
    let x = match p.x {
        Some(n) => n,
        None => {
            return Err(Error::ParseError("player[\"x\"] is not a number"));
        },
    };
    let y32 = match p.y {
        Some(n) => n,
        None => {
            return Err(Error::ParseError("player[\"y\"] is not a number"));
        },
    };
    let y: i16 = if y32 > 32767 {
        32767
    } else if y32 < -32768 {
        -32768
    } else {
        y32 as i16
    };
    let health = match p.health {
        Some(n) => n,
        None => {
            return Err(Error::ParseError("player[\"health\"] is not a u8"));
        },
    };
    if health > 255 {
        return Err(Error::ParseError("player[\"health\"] is not a u8"));
    }
    let z = match p.z {
        Some(n) => n,
        None => {
            return Err(Error::ParseError("player[\"z\"] is not a number"));
        },
    };
    let sort = match p.sort {
        Some(n) => n,
        None => {
            return Err(Error::ParseError("player[\"sort\"] is not a u8"));
        },
    };
    if sort > 255 {
        return Err(Error::ParseError("player[\"sort\"] is not a u8"));
    }
    let type_ = match &p.type_ {
        Some(s) => s,
        None => {
            return Err(Error::ParseError("player[\"type\"] is not a string"));
        },
    };
    let account = match &p.account {
        Some(s) => s,
        None => {
            return Err(Error::ParseError("player[\"account\"] is not a string"));
        },
    };
    Ok(
        RawPlayer {
            world: world.clone(),
            armor: armor as u8,
            name: name.clone(),
            x,
            y,
            health: health as u8,
            z,
            sort: sort as u8,
            type_: type_.clone(),
            account: account.clone(),
        },
    )
}

/// Builds the town map from the decoded entries, exactly as
/// [`spec_towns_fold`] says: only primary markers are consumed, each keyed
/// by its case-folded town name, the newest binding winning on duplicates.
fn build_towns(entries: &Vec<TownEntry>, ignore_case: bool) -> (r: Result<StrMap<RawTown>, Error>)
    ensures
        ({
            let sf = spec_towns_fold(
                town_entry_seq_view(entries@),
                ignore_case,
                Seq::<(Seq<char>, RawTownView)>::empty(),
            );
            match r {
                Ok(m) => m.wf() && (forall|i: int|
                    0 <= i < m.entries@.len() ==> town_entry_ok(
                        ignore_case,
                        #[trigger] m.entries@[i],
                    )) && sf == Ok::<Seq<(Seq<char>, RawTownView)>, ErrorView>(
                    entries_view(m.entries@),
                ),
                Err(e) => (sf matches Err(ev) && ev == e@),
            }
        }),
{
    let ghost full = town_entry_seq_view(entries@);
    let mut towns: StrMap<RawTown> = StrMap::new();
    let mut i: usize = 0;
    proof {
        assert(entries_view(towns.entries@) =~= Seq::<(Seq<char>, RawTownView)>::empty());
        assert(full.skip(0) =~= full);
    }
    while i < entries.len()
        invariant
            i <= entries@.len(),
            full == town_entry_seq_view(entries@),
            towns.wf(),
            forall|j: int|
                0 <= j < towns.entries@.len() ==> town_entry_ok(
                    ignore_case,
                    #[trigger] towns.entries@[j],
                ),
            spec_towns_fold(full, ignore_case, Seq::empty()) == spec_towns_fold(
                full.skip(i as int),
                ignore_case,
                entries_view(towns.entries@),
            ),
        decreases entries@.len() - i,
    {
        proof {
            assert(full[i as int] == entries@[i as int]@);
            assert(full.skip(i as int)[0] == full[i as int]);
            assert(full.skip(i as int).drop_first() =~= full.skip(i as int + 1));
        }
        if is_primary_marker(&entries[i].key) {
            let raw = match convert_town(&entries[i]) {
                Ok(t) => t,
                Err(e) => {
                    return Err(e);
                },
            };
            let key = fold_case(raw.name.as_str(), ignore_case);
            let ghost old_entries = towns.entries@;
            let ghost gk = key;
            let ghost gv = raw;
            towns.insert(key, raw);
            proof {
                crate::strmap::lemma_insert_view(old_entries, towns.entries@, gk, gv);
                assert(entries_view(towns.entries@) == view_insert(
                    entries_view(old_entries),
                    fold_key(ignore_case, gv@.name),
                    gv@,
                ));
                assert(spec_towns_fold(full.skip(i as int), ignore_case, entries_view(old_entries))
                    == spec_towns_fold(
                    full.skip(i as int + 1),
                    ignore_case,
                    entries_view(towns.entries@),
                ));
                assert forall|j: int|
                    0 <= j < towns.entries@.len() implies town_entry_ok(
                    ignore_case,
                    #[trigger] towns.entries@[j],
                ) by {
                    if towns.entries@[j].0@ == gk@ && towns.entries@[j].1 == gv {
                        assert(gk@ == fold_key(ignore_case, gv.name@));
                    } else {
                        let w = choose|w: int|
                            0 <= w < old_entries.len() && towns.entries@[j] == old_entries[w];
                        assert(town_entry_ok(ignore_case, old_entries[w]));
                    }
                }
            }
        } else {
            proof {
                assert(spec_towns_fold(
                    full.skip(i as int),
                    ignore_case,
                    entries_view(towns.entries@),
                ) == spec_towns_fold(
                    full.skip(i as int + 1),
                    ignore_case,
                    entries_view(towns.entries@),
                ));
            }
        }
        i = i + 1;
    }
    proof {
        assert(full.skip(entries@.len() as int).len() == 0);
    }
    Ok(towns)
}

/// Builds the player map from the decoded feed, exactly as
/// [`spec_build_players`] says: the header fields must be well-typed, and
/// each player is keyed by its case-folded account, the newest binding
/// winning on duplicates.
fn build_players(doc: &PlayersDoc, ignore_case: bool) -> (r: Result<StrMap<RawPlayer>, Error>)
    ensures
        ({
            let sf = spec_build_players(doc@, ignore_case);
            match r {
                Ok(m) => m.wf() && (forall|i: int|
                    0 <= i < m.entries@.len() ==> player_entry_ok(
                        ignore_case,
                        #[trigger] m.entries@[i],
                    )) && sf == Ok::<Seq<(Seq<char>, RawPlayerView)>, ErrorView>(
                    entries_view(m.entries@),
                ),
                Err(e) => (sf matches Err(ev) && ev == e@),
            }
        }),
{
    let cc = match doc.currentcount {
        Some(n) => n,
        None => {
            return Err(Error::ParseError("players[\"currentcount\"] is not a u16"));
        },
    };
    if cc > 65535 {
        return Err(Error::ParseError("players[\"currentcount\"] is not a u16"));
    }
    match doc.has_storm {
        Some(_b) => {},
        None => {
            return Err(Error::ParseError("players[\"hasStorm\"] is not a bool"));
        },
    }
    let arr = match &doc.players {
        Some(a) => a,
        None => {
            return Err(Error::ParseError("players[\"players\"] is not an array"));
        },
    };
    let ghost full = crate::json::player_entry_seq_view(arr@);
    let mut players: StrMap<RawPlayer> = StrMap::new();
    let mut i: usize = 0;
    proof {
        assert(entries_view(players.entries@) =~= Seq::<(Seq<char>, RawPlayerView)>::empty());
        assert(full.skip(0) =~= full);
    }
    while i < arr.len()
        invariant
            i <= arr@.len(),
            full == crate::json::player_entry_seq_view(arr@),
            players.wf(),
            forall|j: int|
                0 <= j < players.entries@.len() ==> player_entry_ok(
                    ignore_case,
                    #[trigger] players.entries@[j],
                ),
            spec_build_players(doc@, ignore_case) == spec_players_fold(
                full,
                ignore_case,
                Seq::empty(),
            ),
            spec_players_fold(full, ignore_case, Seq::empty()) == spec_players_fold(
                full.skip(i as int),
                ignore_case,
                entries_view(players.entries@),
            ),
        decreases arr@.len() - i,
    {
        proof {
            assert(full[i as int] == arr@[i as int]@);
            assert(full.skip(i as int)[0] == full[i as int]);
            assert(full.skip(i as int).drop_first() =~= full.skip(i as int + 1));
        }
        let p = match convert_player(&arr[i]) {
            Ok(p) => p,
            Err(e) => {
                return Err(e);
            },
        };
        let key = fold_case(p.account.as_str(), ignore_case);
        let ghost old_entries = players.entries@;
        let ghost gk = key;
        let ghost gv = p;
        players.insert(key, p);
        proof {
            crate::strmap::lemma_insert_view(old_entries, players.entries@, gk, gv);
            assert(entries_view(players.entries@) == view_insert(
                entries_view(old_entries),
                fold_key(ignore_case, gv@.account),
                gv@,
            ));
            assert(spec_players_fold(full.skip(i as int), ignore_case, entries_view(old_entries))
                == spec_players_fold(
                full.skip(i as int + 1),
                ignore_case,
                entries_view(players.entries@),
            ));
            assert forall|j: int|
                0 <= j < players.entries@.len() implies player_entry_ok(
                ignore_case,
                #[trigger] players.entries@[j],
            ) by {
                if players.entries@[j].0@ == gk@ && players.entries@[j].1 == gv {
                    assert(gk@ == fold_key(ignore_case, gv.account@));
                } else {
                    let w = choose|w: int|
                        0 <= w < old_entries.len() && players.entries@[j] == old_entries[w];
                    assert(player_entry_ok(ignore_case, old_entries[w]));
                }
            }
        }
        i = i + 1;
    }
    proof {
        assert(full.skip(arr@.len() as int).len() == 0);
    }
    Ok(players)
}

/// Builds a snapshot from the two fetched payloads, exactly as
/// [`spec_build`] says over the named decodes: transport errors carry the
/// decoder's message, parse errors name the offending structure or field,
/// and on success the two maps hold exactly the folded decoded entries.
pub fn build(town_payload: &str, player_payload: &str, ignore_case: bool) -> (r: Result<
    Data,
    Error,
>)
    ensures
        ({
            let sb = spec_build(town_payload@, player_payload@, ignore_case);
            match r {
                Ok(d) => d.wf() && d.ignore_case == ignore_case && (sb matches Ok(pair)
                    && pair.0 == entries_view(d.towns.entries@) && pair.1 == entries_view(
                    d.players.entries@,
                )),
                Err(e) => (sb matches Err(ev) && ev == e@),
            }
        }),
{
    let topt = match decode_town_entries(town_payload) {
        Ok(o) => o,
        Err(m) => {
            return Err(Error::TransportError(m));
        },
    };
    let doc = match decode_player_doc(player_payload) {
        Ok(d) => d,
        Err(m) => {
            return Err(Error::TransportError(m));
        },
    };
    let t_entries = match topt {
        Some(es) => es,
        None => {
            return Err(Error::ParseError("town_data is not an object"));
        },
    };
    let towns = match build_towns(&t_entries, ignore_case) {
        Ok(t) => t,
        Err(e) => {
            return Err(e);
        },
    };
    let players = match build_players(&doc, ignore_case) {
        Ok(p) => p,
        Err(e) => {
            return Err(e);
        },
    };
    Ok(Data { towns, players, ignore_case })
}

} // verus!

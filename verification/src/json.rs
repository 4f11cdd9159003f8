//! Trusted decode layer around `serde_json`: each feed's payload text is
//! decoded in one step into plain, optional field values. The decoded result
//! is a function of the text alone, so it is named, and the snapshot builder
//! proves everything it makes of the values — filtering, validation, colour
//! parsing, keying — in `data`.
use vstd::prelude::*;

use crate::option_view;

verus! {

/// One entry of the town marker object: the marker key and the raw fields
/// the builder reads, each absent when missing or not of the expected JSON
/// type. A coordinate is the number cast into `i32` — truncated towards
/// zero, saturating at the type's bounds, 0 for a NaN — and absent when the
/// element is no number.
#[derive(Debug, PartialEq)]
pub struct TownEntry {
    pub key: String,
    pub label: Option<String>,
    pub fillcolor: Option<String>,
    pub color: Option<String>,
    pub x: Option<Vec<Option<i32>>>,
    pub z: Option<Vec<Option<i32>>>,
    pub desc: Option<String>,
}

/// Spec-level shape of a [`TownEntry`].
pub struct TownEntryView {
    pub key: Seq<char>,
    pub label: Option<Seq<char>>,
    pub fillcolor: Option<Seq<char>>,
    pub color: Option<Seq<char>>,
    pub x: Option<Seq<Option<i32>>>,
    pub z: Option<Seq<Option<i32>>>,
    pub desc: Option<Seq<char>>,
}

impl View for TownEntry {
    type V = TownEntryView;

    open spec fn view(&self) -> TownEntryView {
        TownEntryView {
            key: self.key@,
            label: option_view(self.label),
            fillcolor: option_view(self.fillcolor),
            color: option_view(self.color),
            x: option_view(self.x),
            z: option_view(self.z),
            desc: option_view(self.desc),
        }
    }
}

/// One entry of the player array: each field absent when missing or not of
/// the expected JSON type; positions cast into `i32` as a coordinate is.
#[derive(Debug, PartialEq)]
pub struct PlayerEntry {
    pub world: Option<String>,
    pub armor: Option<u64>,
    pub name: Option<String>,
    pub x: Option<i32>,
    pub y: Option<i32>,
    pub health: Option<u64>,
    pub z: Option<i32>,
    pub sort: Option<u64>,
    pub type_: Option<String>,
    pub account: Option<String>,
}

/// Spec-level shape of a [`PlayerEntry`].
pub struct PlayerEntryView {
    pub world: Option<Seq<char>>,
    pub armor: Option<u64>,
    pub name: Option<Seq<char>>,
    pub x: Option<i32>,
    pub y: Option<i32>,
    pub health: Option<u64>,
    pub z: Option<i32>,
    pub sort: Option<u64>,
    pub type_: Option<Seq<char>>,
    pub account: Option<Seq<char>>,
}

impl View for PlayerEntry {
    type V = PlayerEntryView;

    open spec fn view(&self) -> PlayerEntryView {
        PlayerEntryView {
            world: option_view(self.world),
            armor: self.armor,
            name: option_view(self.name),
            x: self.x,
            y: self.y,
            health: self.health,
            z: self.z,
            sort: self.sort,
            type_: option_view(self.type_),
            account: option_view(self.account),
        }
    }
}

/// The decoded player feed: the two header fields and the player array,
/// each absent when missing or mistyped.
#[derive(Debug, PartialEq)]
pub struct PlayersDoc {
    pub currentcount: Option<u64>,
    pub has_storm: Option<bool>,
    pub players: Option<Vec<PlayerEntry>>,
}

/// Spec-level shape of a [`PlayersDoc`].
pub struct PlayersDocView {
    pub currentcount: Option<u64>,
    pub has_storm: Option<bool>,
    pub players: Option<Seq<PlayerEntryView>>,
}

impl View for PlayersDoc {
    type V = PlayersDocView;

    open spec fn view(&self) -> PlayersDocView {
        PlayersDocView {
            currentcount: self.currentcount,
            has_storm: self.has_storm,
            players: match self.players {
                Some(v) => Some(player_entry_seq_view(v@)),
                None => None,
            },
        }
    }
}

/// The views of a sequence of player entries.
pub open spec fn player_entry_seq_view(s: Seq<PlayerEntry>) -> Seq<PlayerEntryView> {
    s.map_values(|e: PlayerEntry| e@)
}

/// The views of a sequence of town entries.
pub open spec fn town_entry_seq_view(s: Seq<TownEntry>) -> Seq<TownEntryView> {
    s.map_values(|e: TownEntry| e@)
}

/// What decoding the town marker feed yields, as a function of the payload
/// text alone: the decoder's message when the text is no JSON document;
/// nothing when the path `sets` → `townyPlugin.markerset` → `areas` holds no
/// object; else that object's entries in its deterministic iteration order.
pub uninterp spec fn town_entries_of(s: Seq<char>) -> Result<Option<Seq<TownEntryView>>, Seq<char>>;

/// What decoding the player feed yields, as a function of the payload text
/// alone: the decoder's message when the text is no JSON document, else the
/// header fields and the player array.
pub uninterp spec fn player_doc_of(s: Seq<char>) -> Result<PlayersDocView, Seq<char>>;

/// The spec-level reading of a decoded town feed.
pub open spec fn town_entries_view(r: Result<Option<Vec<TownEntry>>, String>) -> Result<
    Option<Seq<TownEntryView>>,
    Seq<char>,
> {
    match r {
        Ok(Some(v)) => Ok(Some(town_entry_seq_view(v@))),
        Ok(None) => Ok(None),
        Err(m) => Err(m@),
    }
}

/// The spec-level reading of a decoded player feed.
pub open spec fn player_doc_view(r: Result<PlayersDoc, String>) -> Result<
    PlayersDocView,
    Seq<char>,
> {
    match r {
        Ok(d) => Ok(d@),
        Err(m) => Err(m@),
    }
}

#[verifier::external_type_specification]
#[verifier::external_body]
pub struct ExValue(serde_json::Value);

/// Relies on the `serde_json::Value` accessors `get`, `as_str`, `as_array`
/// and `as_f64`: reads the fields of one town marker entry into plain
/// values.
#[verifier::external_body]
fn town_entry_from_value(key: &String, t: &serde_json::Value) -> (r: TownEntry) {
    let gs = |k: &str| t.get(k).and_then(|x| x.as_str()).map(String::from);
    let gc = |k: &str| {
        t.get(k).and_then(|x| x.as_array()).map(
            |a| a.iter().map(|n| n.as_f64().map(|f| f as i32)).collect::<Vec<Option<i32>>>(),
        )
    };
    TownEntry {
        key: key.clone(), label: gs("label"), fillcolor: gs("fillcolor"), color: gs("color"),
        x: gc("x"), z: gc("z"), desc: gs("desc"),
    }
}

/// Relies on `serde_json::from_str::<Value>`, `Value::get` and
/// `Value::as_object` (BTreeMap-backed, so iteration order is a function of
/// the keys): decodes the town marker feed into plain values.
#[verifier::external_body]
pub(crate) fn decode_town_entries(s: &str) -> (r: Result<Option<Vec<TownEntry>>, String>)
    ensures
        town_entries_view(r) == town_entries_of(s@),
{
    match serde_json::from_str::<serde_json::Value>(s) {
        Err(e) => Err(format!("{}", e)),
        Ok(v) => Ok(
            v.get("sets").and_then(|x| x.get("townyPlugin.markerset")).and_then(
                |x| x.get("areas"),
            ).and_then(|x| x.as_object()).map(
                |m| m.iter().map(|(k, t)| town_entry_from_value(k, t)).collect(),
            ),
        ),
    }
}

/// Relies on the `serde_json::Value` accessors `get`, `as_str`, `as_u64`
/// and `as_f64`: reads the fields of one player record into plain values.
#[verifier::external_body]
fn player_entry_from_value(p: &serde_json::Value) -> (r: PlayerEntry) {
    let gs = |k: &str| p.get(k).and_then(|x| x.as_str()).map(String::from);
    let gu = |k: &str| p.get(k).and_then(|x| x.as_u64());
    let gi = |k: &str| p.get(k).and_then(|x| x.as_f64()).map(|f| f as i32);
    PlayerEntry {
        world: gs("world"), armor: gu("armor"), name: gs("name"), x: gi("x"), y: gi("y"),
        health: gu("health"), z: gi("z"), sort: gu("sort"), type_: gs("type"),
        account: gs("account"),
    }
}

/// Relies on `serde_json::from_str::<Value>`, `Value::get`, `Value::as_u64`,
/// `Value::as_bool` and `Value::as_array`: decodes the player feed into
/// plain values.
#[verifier::external_body]
pub(crate) fn decode_player_doc(s: &str) -> (r: Result<PlayersDoc, String>)
    ensures
        player_doc_view(r) == player_doc_of(s@),
{
    match serde_json::from_str::<serde_json::Value>(s) {
        Err(e) => Err(format!("{}", e)),
        Ok(v) => Ok(
            PlayersDoc {
                currentcount: v.get("currentcount").and_then(|x| x.as_u64()),
                has_storm: v.get("hasStorm").and_then(|x| x.as_bool()),
                players: v.get("players").and_then(|x| x.as_array()).map(
                    |a| a.iter().map(|p| player_entry_from_value(p)).collect(),
                ),
            },
        ),
    }
}

} // verus!

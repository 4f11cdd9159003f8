use earthmc::data::build;
use earthmc::{nation, resident, town, Colour, Error, Position};

fn town_payload() -> String {
    String::from(
        "{\"sets\":{\"townyPlugin.markerset\":{\"areas\":{\"alpha__0\":{\"label\":\"Alpha\",\"fillcolor\":\"#6213F3\",\"color\":\"#FF0000\",\"x\":[0.0,10.0,20.0],\"z\":[-5.0,5.0,15.0],\"desc\":\"<div>Alpha (Empire)</div> Mayor <b>Bob</b> Members <b>Bob, Carol</b><p>Flags</p><br>hasUpkeep: true<br>pvp: false<br>mobs: true<br>public: true<br>explosion: false<br>fire: false<br>capital: true\"},\"alpha__1\":{\"junk\":true},\"beta__0\":{\"label\":\"Beta\",\"fillcolor\":\"#00FF00\",\"color\":\"#0000FF\",\"x\":[100.0],\"z\":[200.0],\"desc\":\"<div>Beta (Rome)</div> Mayor <b>Carol</b> Members <b>Carol</b><p>Flags</p><br>hasUpkeep: false<br>pvp: true<br>mobs: false<br>public: false<br>explosion: true<br>fire: true<br>capital: false\"}}}}}",
    )
}

fn player_payload() -> String {
    String::from(
        "{\"currentcount\":2,\"hasStorm\":false,\"players\":[{\"world\":\"earth\",\"armor\":10,\"name\":\"Bob\",\"x\":100.7,\"y\":64.0,\"health\":20,\"z\":-50.2,\"sort\":1,\"type\":\"player\",\"account\":\"Bob\"},{\"world\":\"earth\",\"armor\":0,\"name\":\"Ghost\",\"x\":0.0,\"y\":64.0,\"health\":20,\"z\":0.0,\"sort\":1,\"type\":\"player\",\"account\":\"Ghost\"}]}",
    )
}

#[test]
fn build_rejects_bad_json() {
    let r = build("not json", &player_payload(), false);
    assert!(matches!(r, Err(Error::TransportError(_))));
    let r = build(&town_payload(), "{", false);
    assert!(matches!(r, Err(Error::TransportError(_))));
}

#[test]
fn build_rejects_missing_town_field() {
    let payload = "{\"sets\":{\"townyPlugin.markerset\":{\"areas\":{\"alpha__0\":{\"label\":\"Alpha\",\"fillcolor\":\"#6213F3\",\"color\":\"#FF0000\",\"x\":[0.0],\"z\":[1.0]}}}}}";
    let r = build(payload, &player_payload(), false);
    assert!(matches!(r, Err(Error::ParseError("town[\"desc\"] is not a string"))));
}

#[test]
fn build_rejects_bad_colour() {
    let payload = "{\"sets\":{\"townyPlugin.markerset\":{\"areas\":{\"alpha__0\":{\"label\":\"Alpha\",\"fillcolor\":\"nope\",\"color\":\"#FF0000\",\"x\":[0.0],\"z\":[1.0],\"desc\":\"d\"}}}}}";
    let r = build(payload, &player_payload(), false);
    assert!(matches!(r, Err(Error::ParseError("Invalid colour"))));
}

#[test]
fn build_rejects_missing_player_structure() {
    let r = build(&town_payload(), "{\"hasStorm\":false,\"players\":[]}", false);
    assert!(matches!(r, Err(Error::ParseError(_))));
}

#[test]
fn resolves_town_with_nation_flags_and_geometry() {
    let d = build(&town_payload(), &player_payload(), false).unwrap();
    let t = town::get(&d, &String::from("Alpha")).unwrap();
    assert_eq!(t.name, "Alpha");
    assert_eq!(t.nation.name, "Empire");
    assert_eq!(t.fill_colour, Colour::new(98, 19, 243));
    assert_eq!(t.stroke_colour, Colour::new(255, 0, 0));
    assert!(!t.flags.pvp);
    assert!(t.flags.mobs);
    assert!(!t.flags.explosions);
    assert!(!t.flags.fire);
    assert!(t.flags.capital);
    assert_eq!(t.position, Position { x: 10, y: 0, z: 5 });
    assert_eq!(t.bounds.x1, 0);
    assert_eq!(t.bounds.x2, 20);
    assert_eq!(t.bounds.z1, -5);
    assert_eq!(t.bounds.z2, 15);
}

#[test]
fn unknown_town_is_not_found() {
    let d = build(&town_payload(), &player_payload(), false).unwrap();
    assert!(matches!(
        town::get(&d, &String::from("Gamma")),
        Err(Error::TownNotFound)
    ));
}

#[test]
fn case_sensitive_lookup_rejects_other_case() {
    let d = build(&town_payload(), &player_payload(), false).unwrap();
    assert!(matches!(
        town::get(&d, &String::from("ALPHA")),
        Err(Error::TownNotFound)
    ));
}

#[test]
fn case_insensitive_lookup_accepts_any_case() {
    let d = build(&town_payload(), &player_payload(), true).unwrap();
    let a = town::get(&d, &String::from("ALPHA")).unwrap();
    let b = town::get(&d, &String::from("alpha")).unwrap();
    let c = town::get(&d, &String::from("aLpHa")).unwrap();
    assert_eq!(a, b);
    assert_eq!(a, c);
    assert_eq!(a.name, "Alpha");
}

#[test]
fn resolves_nation_by_any_member_town() {
    let d = build(&town_payload(), &player_payload(), false).unwrap();
    let n = nation::get(&d, &String::from("Rome")).unwrap();
    assert_eq!(n.name, "Rome");
}

#[test]
fn missing_nation_is_not_found() {
    let d = build(&town_payload(), &player_payload(), false).unwrap();
    assert!(matches!(
        nation::get(&d, &String::from("Atlantis")),
        Err(Error::NationNotFound)
    ));
}

#[test]
fn nation_lookup_folds_case_when_asked() {
    let d = build(&town_payload(), &player_payload(), true).unwrap();
    let n = nation::get(&d, &String::from("EMPIRE")).unwrap();
    assert_eq!(n.name, "Empire");
    let d = build(&town_payload(), &player_payload(), false).unwrap();
    assert!(matches!(
        nation::get(&d, &String::from("EMPIRE")),
        Err(Error::NationNotFound)
    ));
}

#[test]
fn resolves_online_resident_with_town() {
    let d = build(&town_payload(), &player_payload(), false).unwrap();
    let r = resident::get(&d, &String::from("Bob")).unwrap();
    assert_eq!(r.name, "Bob");
    assert!(r.online);
    assert!(!r.hidden);
    assert_eq!(r.position, Some(Position { x: 100, y: 64, z: -50 }));
    assert_eq!(r.town.as_ref().unwrap().name, "Alpha");
    assert_eq!(r.nation.as_ref().unwrap().name, "Empire");
    assert!(!r.npc);
}

#[test]
fn offline_resident_is_hidden_without_position() {
    let d = build(&town_payload(), &player_payload(), false).unwrap();
    let r = resident::get(&d, &String::from("Dave")).unwrap();
    assert_eq!(r.name, "Dave");
    assert!(!r.online);
    assert!(r.hidden);
    assert_eq!(r.position, None);
    assert!(r.town.is_none());
    assert!(r.nation.is_none());
}

#[test]
fn offline_resident_keeps_town_nation() {
    let d = build(&town_payload(), &player_payload(), false).unwrap();
    let r = resident::get(&d, &String::from("Carol")).unwrap();
    assert!(!r.online);
    assert!(r.hidden);
    assert_eq!(r.position, None);
    assert_eq!(r.town.as_ref().unwrap().name, "Alpha");
    assert_eq!(r.nation.as_ref().unwrap().name, "Empire");
}

#[test]
fn sentinel_position_hides_online_resident() {
    let d = build(&town_payload(), &player_payload(), false).unwrap();
    let r = resident::get(&d, &String::from("Ghost")).unwrap();
    assert!(r.online);
    assert!(r.hidden);
    assert_eq!(r.position, Some(Position { x: 0, y: 64, z: 0 }));
}

#[test]
fn resident_resolution_is_idempotent() {
    let d = build(&town_payload(), &player_payload(), false).unwrap();
    let a = resident::get(&d, &String::from("Bob")).unwrap();
    let b = resident::get(&d, &String::from("Bob")).unwrap();
    assert_eq!(a, b);
    let c = resident::get(&d, &String::from("Dave")).unwrap();
    let e = resident::get(&d, &String::from("Dave")).unwrap();
    assert_eq!(c, e);
}

#[test]
fn resident_case_folding_matches_snapshot_mode() {
    let d = build(&town_payload(), &player_payload(), true).unwrap();
    let r = resident::get(&d, &String::from("BOB")).unwrap();
    assert!(r.online);
    let d = build(&town_payload(), &player_payload(), false).unwrap();
    let r = resident::get(&d, &String::from("BOB")).unwrap();
    assert!(!r.online);
    assert!(r.hidden);
}

#[test]
fn npc_accounts_are_flagged() {
    let d = build(&town_payload(), &player_payload(), false).unwrap();
    assert!(resident::get(&d, &String::from("NPC123")).unwrap().npc);
    assert!(resident::get(&d, &String::from("NPC+5")).unwrap().npc);
    assert!(!resident::get(&d, &String::from("NPC")).unwrap().npc);
    assert!(!resident::get(&d, &String::from("NPC12x")).unwrap().npc);
    assert!(!resident::get(&d, &String::from("NPC70000")).unwrap().npc);
    assert!(!resident::get(&d, &String::from("npc123")).unwrap().npc);
}

#[test]
fn duplicate_town_labels_keep_newest() {
    let payload = "{\"sets\":{\"townyPlugin.markerset\":{\"areas\":{\"a__0\":{\"label\":\"Twin\",\"fillcolor\":\"#111111\",\"color\":\"#111111\",\"x\":[0.0],\"z\":[0.0],\"desc\":\"<div>Twin (Empire)</div> Mayor <b>Bob</b> Members <b>Bob</b><p>Flags</p><br>hasUpkeep: true<br>pvp: false<br>mobs: true<br>public: true<br>explosion: false<br>fire: false<br>capital: true\"},\"b__0\":{\"label\":\"Twin\",\"fillcolor\":\"#222222\",\"color\":\"#222222\",\"x\":[2.0],\"z\":[2.0],\"desc\":\"<div>Twin (Empire)</div> Mayor <b>Bob</b> Members <b>Bob</b><p>Flags</p><br>hasUpkeep: true<br>pvp: false<br>mobs: true<br>public: true<br>explosion: false<br>fire: false<br>capital: true\"}}}}}";
    let d = build(payload, &player_payload(), false).unwrap();
    let t = town::get(&d, &String::from("Twin")).unwrap();
    assert_eq!(t.fill_colour, Colour::new(0x22, 0x22, 0x22));
    assert_eq!(t.position, Position { x: 2, y: 0, z: 2 });
}

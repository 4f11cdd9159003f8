use earthmc::desc::{nation_of_description, parse_description};
use earthmc::Error;

fn sample_desc() -> String {
    String::from(
        "<div>Alpha (Empire)</div> Mayor <b>Bob</b> Members <b>Bob, Carol</b><p>Flags</p>\
         <br>hasUpkeep: true<br>pvp: false<br>mobs: true<br>public: true\
         <br>explosion: false<br>fire: false<br>capital: true",
    )
}

#[test]
fn parses_full_description() {
    let c = parse_description(&sample_desc()).unwrap();
    assert_eq!(c.nation, "Empire");
    assert_eq!(c.mayor, "Bob");
    assert_eq!(c.residents, "Bob, Carol");
    assert!(c.upkeep);
    assert!(!c.pvp);
    assert!(c.mobs);
    assert!(c.public);
    assert!(!c.explosions);
    assert!(!c.fire);
    assert!(c.capital);
}

#[test]
fn missing_capital_token_fails() {
    let desc = "<div>Alpha (Empire)</div> Mayor <b>Bob</b> Members <b>Bob, Carol</b><p>Flags</p>\
                <br>hasUpkeep: true<br>pvp: false<br>mobs: true<br>public: true\
                <br>explosion: false<br>fire: false";
    assert!(matches!(parse_description(desc), Err(Error::ParseError(_))));
}

#[test]
fn malformed_flag_value_fails() {
    let desc = "<div>Alpha (Empire)</div> Mayor <b>Bob</b> Members <b>Bob, Carol</b><p>Flags</p>\
                <br>hasUpkeep: true<br>pvp: maybe<br>mobs: true<br>public: true\
                <br>explosion: false<br>fire: false<br>capital: true";
    assert!(matches!(parse_description(desc), Err(Error::ParseError(_))));
}

#[test]
fn missing_heading_fails() {
    let desc = " Mayor <b>Bob</b> Members <b>Bob</b><p>Flags</p><br>hasUpkeep: true\
                <br>pvp: false<br>mobs: true<br>public: true<br>explosion: false\
                <br>fire: false<br>capital: true";
    assert!(matches!(parse_description(desc), Err(Error::ParseError(_))));
}

#[test]
fn nation_heading_alone_suffices() {
    assert_eq!(
        nation_of_description("<div>Alpha (Empire)</div>").unwrap(),
        "Empire"
    );
    assert_eq!(nation_of_description("<div>Alpha</div>"), None);
    assert_eq!(
        nation_of_description(&sample_desc()).unwrap(),
        "Empire"
    );
}

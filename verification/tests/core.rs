use earthmc::util::map_link;
use earthmc::{Colour, Error, Position};

#[test]
fn colour() {
    let expected = Colour::new(98, 19, 243);
    assert_eq!(Colour::parse("#6213F3").unwrap(), expected);
    assert_eq!(Colour::parse("#6213f3").unwrap(), expected);
    assert_eq!(expected.format(), "#6213F3");
    assert!(Colour::parse("6213f3").is_err());
    assert!(Colour::parse("#62xXx3").is_err());
}

#[test]
fn colour_rejects_wrong_shapes() {
    assert!(matches!(Colour::parse(""), Err(Error::ParseError(_))));
    assert!(matches!(Colour::parse("#12345"), Err(Error::ParseError(_))));
    assert!(matches!(Colour::parse("#1234567"), Err(Error::ParseError(_))));
    assert!(matches!(Colour::parse("1234567"), Err(Error::ParseError(_))));
}

#[test]
fn colour_round_trip_lower_case() {
    let c = Colour::parse("#a0b1c2").unwrap();
    assert_eq!(c.format(), "#A0B1C2");
    let again = Colour::parse(&c.format()).unwrap();
    assert_eq!(again, c);
}

#[test]
fn test_map_link() {
    assert_eq!(
        map_link(&Position { x: 32943, y: 64, z: -13297 }, &6),
        "https://earthmc.net/map/?zoom=6&x=32943&z=-13297"
    )
}

#[test]
fn map_link_origin() {
    assert_eq!(
        map_link(&Position { x: 0, y: 0, z: 0 }, &0),
        "https://earthmc.net/map/?zoom=0&x=0&z=0"
    )
}

#[test]
fn error_messages() {
    assert_eq!(
        Error::TownNotFound.message(),
        "The specified town could not be found"
    );
    assert_eq!(
        Error::NationNotFound.message(),
        "The specified nation could not be found"
    );
    assert_eq!(
        Error::ParseError("Invalid colour").message(),
        "Something went wrong while parsing: Invalid colour"
    );
    assert_eq!(
        Error::TransportError(String::from("boom")).message(),
        "A transport error has occurred: boom"
    );
}

#[test]
fn centroid_and_bounds_of_polygon() {
    let xs = vec![0, 10, 20];
    let zs = vec![-5, 5, 15];
    let (position, bounds) = earthmc::geometry::centroid_and_bounds(&xs, &zs).unwrap();
    assert_eq!(position, Position { x: 10, y: 0, z: 5 });
    assert_eq!(bounds.x1, 0);
    assert_eq!(bounds.x2, 20);
    assert_eq!(bounds.z1, -5);
    assert_eq!(bounds.z2, 15);
}

#[test]
fn centroid_truncates_towards_zero() {
    let xs = vec![-1, -2];
    let zs = vec![1, 2];
    let (position, _bounds) = earthmc::geometry::centroid_and_bounds(&xs, &zs).unwrap();
    assert_eq!(position.x, -1);
    assert_eq!(position.z, 1);
}

#[test]
fn centroid_rejects_empty_polygon() {
    let xs: Vec<i32> = vec![];
    let zs = vec![1];
    assert!(matches!(
        earthmc::geometry::centroid_and_bounds(&xs, &zs),
        Err(Error::ParseError(_))
    ));
    assert!(matches!(
        earthmc::geometry::centroid_and_bounds(&zs, &xs),
        Err(Error::ParseError(_))
    ));
}

//! Read-only model of a public game server's live map: a snapshot of towns and
//! players is built from two JSON feeds, and towns, nations and residents are
//! resolved on demand from that snapshot.
use vstd::prelude::*;
use vstd::string::*;

pub mod data;
pub mod desc;
pub mod fold;
pub mod geometry;
pub mod json;
pub mod nation;
pub mod resident;
pub mod scan;
pub mod strmap;
pub mod textfmt;
pub mod town;
pub mod util;

verus! {

/// Errors surfaced by snapshot building and entity resolution.
#[derive(Debug)]
pub enum Error {
    TownNotFound,
    NationNotFound,
    /// Wraps the message of an underlying fetch or decode failure.
    TransportError(String),
    ParseError(&'static str),
}

/// Spec-level shape of an [`Error`].
pub enum ErrorView {
    TownNotFound,
    NationNotFound,
    TransportError(Seq<char>),
    ParseError(Seq<char>),
}

impl View for Error {
    type V = ErrorView;

    open spec fn view(&self) -> ErrorView {
        match self {
            Error::TownNotFound => ErrorView::TownNotFound,
            Error::NationNotFound => ErrorView::NationNotFound,
            Error::TransportError(msg) => ErrorView::TransportError(msg@),
            Error::ParseError(msg) => ErrorView::ParseError(msg@),
        }
    }
}

/// The message text of each error kind.
pub open spec fn error_message_seq(e: ErrorView) -> Seq<char> {
    match e {
        ErrorView::TownNotFound => "The specified town could not be found"@,
        ErrorView::NationNotFound => "The specified nation could not be found"@,
        ErrorView::TransportError(m) => "A transport error has occurred: "@ + m,
        ErrorView::ParseError(m) => "Something went wrong while parsing: "@ + m,
    }
}

impl Error {
    /// Renders the error as a human-readable message.
    pub fn message(&self) -> (r: String)
        ensures
            r@ == error_message_seq(self@),
    {
        match self {
            Error::TownNotFound => String::from_str("The specified town could not be found"),
            Error::NationNotFound => String::from_str("The specified nation could not be found"),
            Error::TransportError(m) => String::from_str("A transport error has occurred: ")
                .concat(m.as_str()),
            Error::ParseError(m) => String::from_str("Something went wrong while parsing: ")
                .concat(m),
        }
    }
}

/// Maps an option over a viewable value into the spec-level world.
pub open spec fn option_view<A: View>(o: Option<A>) -> Option<A::V> {
    match o {
        Some(a) => Some(a@),
        None => None,
    }
}

/// Maps a result over viewable successes into the spec-level world.
pub open spec fn result_view<A: View>(r: Result<A, Error>) -> Result<A::V, ErrorView> {
    match r {
        Ok(a) => Ok(a@),
        Err(e) => Err(e@),
    }
}

/// An integer map position; `y` is elevation, which town centroids fix at 0.
#[derive(Debug, Clone, Copy, PartialEq, Eq, Structural)]
pub struct Position {
    pub x: i32,
    pub y: i16,
    pub z: i32,
}

/// The axis-aligned bounding box of a town's polygon.
#[derive(Debug, Clone, Copy, PartialEq, Eq, Structural)]
pub struct Bounds {
    pub x1: i32,
    pub z1: i32,
    pub x2: i32,
    pub z2: i32,
}

/// An RGB colour, parsed from and formatted as `#RRGGBB`.
#[derive(Debug, Clone, Copy, PartialEq, Eq, Structural)]
pub struct Colour {
    pub red: u8,
    pub green: u8,
    pub blue: u8,
}

/// Whether `c` is a hexadecimal digit in either letter case.
pub open spec fn is_hex_digit(c: char) -> bool {
    ||| '0' as u32 <= c as u32 <= '9' as u32
    ||| 'a' as u32 <= c as u32 <= 'f' as u32
    ||| 'A' as u32 <= c as u32 <= 'F' as u32
}

/// The numeric value of the hexadecimal digit `c`.
pub open spec fn hex_val(c: char) -> int {
    if '0' as u32 <= c as u32 <= '9' as u32 {
        c as u32 - '0' as u32
    } else if 'a' as u32 <= c as u32 <= 'f' as u32 {
        c as u32 - 'a' as u32 + 10
    } else {
        c as u32 - 'A' as u32 + 10
    }
}

/// A colour string is valid iff it is exactly `#` followed by six hex digits.
pub open spec fn valid_colour_seq(s: Seq<char>) -> bool {
    s.len() == 7 && s[0] == '#' && (forall|i: int| 1 <= i < 7 ==> is_hex_digit(#[trigger] s[i]))
}

/// The colour denoted by a valid `#RRGGBB` string.
pub open spec fn colour_of_seq(s: Seq<char>) -> Colour {
    Colour {
        red: (hex_val(s[1]) * 16 + hex_val(s[2])) as u8,
        green: (hex_val(s[3]) * 16 + hex_val(s[4])) as u8,
        blue: (hex_val(s[5]) * 16 + hex_val(s[6])) as u8,
    }
}

/// The numeric value of hex digit `c`, or `None` if `c` is no hex digit.
fn hex_digit_val(c: char) -> (r: Option<u8>)
    ensures
        match r {
            Some(v) => is_hex_digit(c) && v == hex_val(c) && v < 16,
            None => !is_hex_digit(c),
        },
{
    let u = c as u32;
    if 48 <= u && u <= 57 {
        Some((u - 48) as u8)
    } else if 97 <= u && u <= 102 {
        Some((u - 97 + 10) as u8)
    } else if 65 <= u && u <= 70 {
        Some((u - 65 + 10) as u8)
    } else {
        None
    }
}

impl Colour {
    /// Builds a colour from its three channels.
    pub fn new(red: u8, green: u8, blue: u8) -> (r: Colour)
        ensures
            r == (Colour { red, green, blue }),
    {
        Colour { red, green, blue }
    }

    /// Parses the exact 7-character form `#RRGGBB`, with hex digits of either
    /// case; anything else is rejected.
    pub fn parse(colour: &str) -> (r: Result<Colour, Error>)
        ensures
            valid_colour_seq(colour@) ==> r == Ok::<Colour, Error>(colour_of_seq(colour@)),
            !valid_colour_seq(colour@) ==> (r matches Err(e) && e@ == ErrorView::ParseError(
                "Invalid colour"@,
            )),
    {
        let n = colour.unicode_len();
        if n != 7 {
            return Err(Error::ParseError("Invalid colour"));
        }
        if colour.get_char(0) != '#' {
            return Err(Error::ParseError("Invalid colour"));
        }
        let d1 = hex_digit_val(colour.get_char(1));
        let d2 = hex_digit_val(colour.get_char(2));
        let d3 = hex_digit_val(colour.get_char(3));
        let d4 = hex_digit_val(colour.get_char(4));
        let d5 = hex_digit_val(colour.get_char(5));
        let d6 = hex_digit_val(colour.get_char(6));
        match (d1, d2, d3, d4, d5, d6) {
            (Some(v1), Some(v2), Some(v3), Some(v4), Some(v5), Some(v6)) => Ok(Colour {
                red: v1 * 16 + v2,
                green: v3 * 16 + v4,
                blue: v5 * 16 + v6,
            }),
            _ => Err(Error::ParseError("Invalid colour")),
        }
    }

    /// Renders the colour as upper-case `#RRGGBB`.
    pub fn format(&self) -> (r: String)
        ensures
            r@ == colour_format_seq(*self),
    {
        let mut out = String::from_str("#");
        out.append(textfmt::nibble_str(self.red / 16));
        out.append(textfmt::nibble_str(self.red % 16));
        out.append(textfmt::nibble_str(self.green / 16));
        out.append(textfmt::nibble_str(self.green % 16));
        out.append(textfmt::nibble_str(self.blue / 16));
        out.append(textfmt::nibble_str(self.blue % 16));
        proof {
            reveal_strlit("#");
            assert(out@ =~= colour_format_seq(*self));
        }
        out
    }
}

/// The upper-case `#RRGGBB` rendering of a colour.
pub open spec fn colour_format_seq(c: Colour) -> Seq<char> {
    seq![
        '#',
        textfmt::nibble_char(c.red as int / 16),
        textfmt::nibble_char(c.red as int % 16),
        textfmt::nibble_char(c.green as int / 16),
        textfmt::nibble_char(c.green as int % 16),
        textfmt::nibble_char(c.blue as int / 16),
        textfmt::nibble_char(c.blue as int % 16),
    ]
}

/// The upper-case form of a hexadecimal digit; other characters are unchanged.
pub open spec fn upper_hex(c: char) -> char {
    if 'a' as u32 <= c as u32 <= 'f' as u32 {
        ((c as u32 - 32) as u32) as char
    } else {
        c
    }
}

/// Law: parsing any valid `#RRGGBB` string, of either letter case, and
/// formatting the result yields the canonical form: `#` followed by the same
/// six digits in upper case.
pub proof fn lemma_colour_round_trip(s: Seq<char>)
    requires
        valid_colour_seq(s),
    ensures
        colour_format_seq(colour_of_seq(s)) == seq!['#'] + s.subrange(1, 7).map_values(
            |c: char| upper_hex(c),
        ),
{
    lemma_nibble_upper(s[1]);
    lemma_nibble_upper(s[2]);
    lemma_nibble_upper(s[3]);
    lemma_nibble_upper(s[4]);
    lemma_nibble_upper(s[5]);
    lemma_hex_pair(hex_val(s[1]), hex_val(s[2]));
    lemma_hex_pair(hex_val(s[3]), hex_val(s[4]));
    lemma_hex_pair(hex_val(s[5]), hex_val(s[6]));
    lemma_nibble_upper(s[6]);
    assert(colour_format_seq(colour_of_seq(s)) =~= seq!['#'] + s.subrange(1, 7).map_values(
        |c: char| upper_hex(c),
    ));
}

proof fn lemma_nibble_upper(c: char)
    requires
        is_hex_digit(c),
    ensures
        textfmt::nibble_char(hex_val(c)) == upper_hex(c),
        0 <= hex_val(c) < 16,
{
}

proof fn lemma_hex_pair(a: int, b: int)
    requires
        0 <= a < 16,
        0 <= b < 16,
    ensures
        (a * 16 + b) / 16 == a,
        (a * 16 + b) % 16 == b,
{
    assert((a * 16 + b) / 16 == a && (a * 16 + b) % 16 == b) by (nonlinear_arith)
        requires
            0 <= a < 16 && 0 <= b < 16,
    ;
}

} // verus!

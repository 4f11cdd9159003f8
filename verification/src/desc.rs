//! The description grammar: a town's HTML description embeds its nation,
//! mayor, member list and flags in one fixed textual pattern. The grammar is
//! specified here over character sequences and parsed by verified scanning;
//! success is all-or-nothing per description.
//!
//! The supported shape is, in order: a `>name (nation)<` heading, a
//! `> Mayor <` marker followed by a `>mayor<` group, a `> Members <` marker
//! followed by a `>members<` group, a `>Flags<` marker, and the seven tokens
//! `>hasUpkeep: `, `>pvp: `, `>mobs: `, `>public: `, `>explosion: `,
//! `>fire: `, `>capital: `, each followed by the literal `true` or `false`
//! (and, except for `capital`, a closing `<`). Each marker is found at its
//! first occurrence after the previously consumed character; a group
//! `>text<` is the first such pair after the marker whose text is non-empty
//! and free of angle brackets.
use vstd::prelude::*;
use vstd::string::*;

use crate::scan::{find, find_of, occurs_at, spec_find, spec_find_of, str_to_chars};
use crate::{Error, ErrorView};

verus! {

/// The heading match at position `i`: `i` holds `>`, a non-empty run free of
/// `<`, `>` and `(` ends with a space just before a `(`, and a non-empty run
/// free of `<`, `>` and `)` ends at a `)` followed by `<`. Yields the bounds
/// of the text between the parentheses.
pub open spec fn nation_at(s: Seq<char>, i: int) -> Option<(int, int)> {
    if !(0 <= i < s.len() && s[i] == '>') {
        None
    } else {
        match spec_find_of(s, seq!['<', '>', '('], i + 1) {
            Some(j) => if s[j] == '(' && i + 3 <= j && s[j - 1] == ' ' {
                match spec_find_of(s, seq!['<', '>', ')'], j + 1) {
                    Some(k) => if s[k] == ')' && j + 2 <= k && k + 1 < s.len() && s[k + 1]
                        == '<' {
                        Some((j + 1, k))
                    } else {
                        None
                    },
                    None => None,
                }
            } else {
                None
            },
            None => None,
        }
    }
}

/// The first heading match at or after `i`.
pub open spec fn spec_nation_scan(s: Seq<char>, i: int) -> Option<(int, int)>
    decreases s.len() - i,
{
    if i < 0 || i >= s.len() {
        None
    } else if nation_at(s, i) is Some {
        nation_at(s, i)
    } else {
        spec_nation_scan(s, i + 1)
    }
}

/// The nation name embedded in a description: the text between the
/// parentheses of the first heading match.
pub open spec fn nation_capture(s: Seq<char>) -> Option<Seq<char>> {
    match spec_nation_scan(s, 0) {
        Some((a, k)) => Some(s.subrange(a, k)),
        None => None,
    }
}

/// A group match at position `i`: `i` holds `>`, and a non-empty run free of
/// angle brackets ends at a `<`. Yields the bounds of the text between.
pub open spec fn group_at(s: Seq<char>, i: int) -> Option<(int, int)> {
    if !(0 <= i < s.len() && s[i] == '>') {
        None
    } else {
        match spec_find_of(s, seq!['<', '>'], i + 1) {
            Some(h) => if s[h] == '<' && i + 2 <= h {
                Some((i + 1, h))
            } else {
                None
            },
            None => None,
        }
    }
}

/// The first group match at or after `i`.
pub open spec fn spec_group_scan(s: Seq<char>, i: int) -> Option<(int, int)>
    decreases s.len() - i,
{
    if i < 0 || i >= s.len() {
        None
    } else if group_at(s, i) is Some {
        group_at(s, i)
    } else {
        spec_group_scan(s, i + 1)
    }
}

/// A capture step: the marker is found at its first occurrence strictly
/// after `pos`, and the capture is the first group after it, at least one
/// character later. Yields the capture bounds.
pub open spec fn capture_step(s: Seq<char>, pos: int, marker: Seq<char>) -> Option<(int, int)> {
    match spec_find(s, marker, pos + 1) {
        Some(m) => spec_group_scan(s, m + marker.len() + 1),
        None => None,
    }
}

/// The literal `true` or `false` read at position `p`, with the position
/// just after it.
pub open spec fn bool_at(s: Seq<char>, p: int) -> Option<(bool, int)> {
    if occurs_at(s, "true"@, p) {
        Some((true, p + "true"@.len()))
    } else if occurs_at(s, "false"@, p) {
        Some((false, p + "false"@.len()))
    } else {
        None
    }
}

/// A flag step: the marker is found at its first occurrence strictly after
/// `pos`, immediately followed by `true` or `false`, and — when `closed` —
/// by `<`. Yields the flag and the position after the consumed text.
pub open spec fn flag_step(s: Seq<char>, pos: int, marker: Seq<char>, closed: bool) -> Option<
    (bool, int),
> {
    match spec_find(s, marker, pos + 1) {
        Some(m) => match bool_at(s, m + marker.len()) {
            Some((b, q)) => if closed {
                if q < s.len() && s[q] == '<' {
                    Some((b, q + 1))
                } else {
                    None
                }
            } else {
                Some((b, q))
            },
            None => None,
        },
        None => None,
    }
}

/// Spec-level shape of parsed description captures.
pub struct DescView {
    pub nation: Seq<char>,
    pub mayor: Seq<char>,
    pub residents: Seq<char>,
    pub upkeep: bool,
    pub pvp: bool,
    pub mobs: bool,
    pub public: bool,
    pub explosions: bool,
    pub fire: bool,
    pub capital: bool,
}

/// What a description parses to, if it matches the grammar.
pub open spec fn spec_desc_parse(s: Seq<char>) -> Option<DescView> {
    match spec_nation_scan(s, 0) {
        None => None,
        Some((a, k)) => match capture_step(s, k + 2, "> Mayor <"@) {
            None => None,
            Some((m1, m2)) => match capture_step(s, m2 + 1, "> Members <"@) {
                None => None,
                Some((r1, r2)) => match spec_find(s, ">Flags<"@, r2 + 2) {
                    None => None,
                    Some(f) => match flag_step(s, f + ">Flags<"@.len(), ">hasUpkeep: "@, true) {
                        None => None,
                        Some((upkeep, p1)) => match flag_step(s, p1, ">pvp: "@, true) {
                            None => None,
                            Some((pvp, p2)) => match flag_step(s, p2, ">mobs: "@, true) {
                                None => None,
                                Some((mobs, p3)) => match flag_step(s, p3, ">public: "@, true) {
                                    None => None,
                                    Some((public, p4)) => match flag_step(
                                        s,
                                        p4,
                                        ">explosion: "@,
                                        true,
                                    ) {
                                        None => None,
                                        Some((explosions, p5)) => match flag_step(
                                            s,
                                            p5,
                                            ">fire: "@,
                                            true,
                                        ) {
                                            None => None,
                                            Some((fire, p6)) => match flag_step(
                                                s,
                                                p6,
                                                ">capital: "@,
                                                false,
                                            ) {
                                                None => None,
                                                Some((capital, _p7)) => Some(
                                                    DescView {
                                                        nation: s.subrange(a, k),
                                                        mayor: s.subrange(m1, m2),
                                                        residents: s.subrange(r1, r2),
                                                        upkeep,
                                                        pvp,
                                                        mobs,
                                                        public,
                                                        explosions,
                                                        fire,
                                                        capital,
                                                    },
                                                ),
                                            },
                                        },
                                    },
                                },
                            },
                        },
                    },
                },
            },
        },
    }
}

/// A found occurrence of a stop character lies in bounds and is a stop.
pub proof fn lemma_find_of_props(s: Seq<char>, stops: Seq<char>, from: int)
    ensures
        spec_find_of(s, stops, from) matches Some(h) ==> from <= h < s.len() && stops.contains(
            s[h],
        ),
    decreases s.len() - from,
{
    if 0 <= from < s.len() && !stops.contains(s[from]) {
        lemma_find_of_props(s, stops, from + 1);
    }
}

/// Bounds of a heading match: the capture is non-empty and in bounds, and
/// the closing parenthesis is followed by `<` inside the sequence.
pub proof fn lemma_nation_scan_props(s: Seq<char>, i: int)
    ensures
        spec_nation_scan(s, i) matches Some((a, k)) ==> 1 <= a < k && k + 1 < s.len() && s[k]
            == ')' && s[k + 1] == '<',
    decreases s.len() - i,
{
    if 0 <= i < s.len() {
        if nation_at(s, i) is Some {
            lemma_find_of_props(s, seq!['<', '>', '('], i + 1);
            match spec_find_of(s, seq!['<', '>', '('], i + 1) {
                Some(j) => lemma_find_of_props(s, seq!['<', '>', ')'], j + 1),
                None => (),
            }
        } else {
            lemma_nation_scan_props(s, i + 1);
        }
    }
}

/// Bounds of a group match: the capture is non-empty and in bounds, and the
/// closing bracket is a `<` inside the sequence.
pub proof fn lemma_group_scan_props(s: Seq<char>, i: int)
    ensures
        spec_group_scan(s, i) matches Some((cs, h)) ==> 1 <= cs < h < s.len() && s[h] == '<',
    decreases s.len() - i,
{
    if 0 <= i < s.len() {
        if group_at(s, i) is Some {
            lemma_find_of_props(s, seq!['<', '>'], i + 1);
        } else {
            lemma_group_scan_props(s, i + 1);
        }
    }
}

/// A found marker occurrence lies in bounds.
pub proof fn lemma_find_props(s: Seq<char>, pat: Seq<char>, from: int)
    ensures
        spec_find(s, pat, from) matches Some(m) ==> from <= m && m + pat.len() <= s.len(),
{
    crate::scan::lemma_find_occurs(s, pat, from);
}

/// Finds the first heading match at or after `from`.
fn nation_scan_exec(s: &Vec<char>, from: usize) -> (r: Option<(usize, usize)>)
    ensures
        match r {
            Some((a, k)) => spec_nation_scan(s@, from as int) == Some((a as int, k as int)),
            None => spec_nation_scan(s@, from as int) is None,
        },
{
    let stops1 = str_to_chars("<>(");
    let stops2 = str_to_chars("<>)");
    proof {
        reveal_strlit("<>(");
        reveal_strlit("<>)");
        assert(stops1@ =~= seq!['<', '>', '(']);
        assert(stops2@ =~= seq!['<', '>', ')']);
    }
    let mut i: usize = from;
    loop
        invariant
            from <= i,
            stops1@ == seq!['<', '>', '('],
            stops2@ == seq!['<', '>', ')'],
            spec_nation_scan(s@, from as int) == spec_nation_scan(s@, i as int),
        decreases s@.len() + 1 - i,
    {
        if i >= s.len() {
            assert(spec_nation_scan(s@, i as int) is None);
            return None;
        }
        if s[i] == '>' {
            match find_of(s, &stops1, i + 1) {
                Some(j) => {
                    proof {
                        lemma_find_of_props(s@, stops1@, i + 1);
                    }
                    if s[j] == '(' && j - i >= 3 && s[j - 1] == ' ' {
                        match find_of(s, &stops2, j + 1) {
                            Some(k) => {
                                proof {
                                    lemma_find_of_props(s@, stops2@, j + 1);
                                }
                                if s[k] == ')' && k - j >= 2 && k + 1 < s.len() && s[k + 1] == '<' {
                                    assert(nation_at(s@, i as int) == Some(
                                        (j + 1 as int, k as int),
                                    ));
                                    return Some((j + 1, k));
                                }
                            },
                            None => {},
                        }
                    }
                },
                None => {},
            }
        }
        proof {
            assert(nation_at(s@, i as int) is None);
            assert(spec_nation_scan(s@, i as int) == spec_nation_scan(s@, i as int + 1));
        }
        i = i + 1;
    }
}

/// Finds the first group match at or after `from`.
fn group_scan_exec(s: &Vec<char>, from: usize) -> (r: Option<(usize, usize)>)
    ensures
        match r {
            Some((cs, h)) => spec_group_scan(s@, from as int) == Some((cs as int, h as int)),
            None => spec_group_scan(s@, from as int) is None,
        },
{
    let stops = str_to_chars("<>");
    proof {
        reveal_strlit("<>");
        assert(stops@ =~= seq!['<', '>']);
    }
    let mut i: usize = from;
    loop
        invariant
            from <= i,
            stops@ == seq!['<', '>'],
            spec_group_scan(s@, from as int) == spec_group_scan(s@, i as int),
        decreases s@.len() + 1 - i,
    {
        if i >= s.len() {
            assert(spec_group_scan(s@, i as int) is None);
            return None;
        }
        if s[i] == '>' {
            match find_of(s, &stops, i + 1) {
                Some(h) => {
                    proof {
                        lemma_find_of_props(s@, stops@, i + 1);
                    }
                    if s[h] == '<' && h - i >= 2 {
                        assert(group_at(s@, i as int) == Some((i + 1 as int, h as int)));
                        return Some((i + 1, h));
                    }
                },
                None => {},
            }
        }
        proof {
            assert(group_at(s@, i as int) is None);
            assert(spec_group_scan(s@, i as int) == spec_group_scan(s@, i as int + 1));
        }
        i = i + 1;
    }
}

/// Reads the literal `true` or `false` at position `p`.
fn bool_at_exec(s: &Vec<char>, p: usize) -> (r: Option<(bool, usize)>)
    requires
        p <= s@.len(),
    ensures
        match r {
            Some((b, q)) => bool_at(s@, p as int) == Some((b, q as int)) && q <= s@.len(),
            None => bool_at(s@, p as int) is None,
        },
{
    let pt = str_to_chars("true");
    let pf = str_to_chars("false");
    proof {
        reveal_strlit("true");
        reveal_strlit("false");
    }
    if s.len() - p >= 4 && crate::scan::occurs_at_exec(s, &pt, p) {
        Some((true, p + 4))
    } else if s.len() - p >= 5 && crate::scan::occurs_at_exec(s, &pf, p) {
        proof {
            assert(!occurs_at(s@, "true"@, p as int));
        }
        Some((false, p + 5))
    } else {
        proof {
            assert(!occurs_at(s@, "true"@, p as int));
            assert(!occurs_at(s@, "false"@, p as int));
        }
        None
    }
}

/// Performs one flag step at `pos` for `marker`.
fn flag_step_exec(s: &Vec<char>, pos: usize, marker: &Vec<char>, closed: bool) -> (r: Option<
    (bool, usize),
>)
    requires
        marker@.len() >= 1,
    ensures
        match r {
            Some((b, q)) => flag_step(s@, pos as int, marker@, closed) == Some((b, q as int)) && q
                <= s@.len(),
            None => flag_step(s@, pos as int, marker@, closed) is None,
        },
{
    if pos >= s.len() {
        assert(spec_find(s@, marker@, pos as int + 1) is None);
        return None;
    }
    let m = match find(s, marker, pos + 1) {
        Some(m) => m,
        None => {
            return None;
        },
    };
    proof {
        lemma_find_props(s@, marker@, pos as int + 1);
    }
    let p = m + marker.len();
    let bq = match bool_at_exec(s, p) {
        Some(bq) => bq,
        None => {
            return None;
        },
    };
    if closed {
        if bq.1 < s.len() && s[bq.1] == '<' {
            Some((bq.0, bq.1 + 1))
        } else {
            None
        }
    } else {
        Some(bq)
    }
}

/// Performs one capture step at `pos` for `marker`.
fn capture_step_exec(s: &Vec<char>, pos: usize, marker: &Vec<char>) -> (r: Option<(usize, usize)>)
    requires
        marker@.len() >= 1,
    ensures
        match r {
            Some((cs, ce)) => capture_step(s@, pos as int, marker@) == Some(
                (cs as int, ce as int),
            ) && 0 < cs < ce < s@.len(),
            None => capture_step(s@, pos as int, marker@) is None,
        },
{
    if pos >= s.len() {
        assert(spec_find(s@, marker@, pos as int + 1) is None);
        return None;
    }
    let m = match find(s, marker, pos + 1) {
        Some(m) => m,
        None => {
            return None;
        },
    };
    proof {
        lemma_find_props(s@, marker@, pos as int + 1);
    }
    let after = m + marker.len();
    if after >= s.len() {
        assert(spec_group_scan(s@, after as int + 1) is None);
        return None;
    }
    let r = group_scan_exec(s, after + 1);
    proof {
        lemma_group_scan_props(s@, after as int + 1);
    }
    r
}

/// The parsed captures of a town description: nation, mayor, member list
/// and the seven boolean tokens. `upkeep` and `public` are parsed but not
/// carried into the resolved town view.
#[derive(Debug, PartialEq)]
pub struct DescCaptures {
    pub nation: String,
    pub mayor: String,
    pub residents: String,
    pub upkeep: bool,
    pub pvp: bool,
    pub mobs: bool,
    pub public: bool,
    pub explosions: bool,
    pub fire: bool,
    pub capital: bool,
}

impl View for DescCaptures {
    type V = DescView;

    open spec fn view(&self) -> DescView {
        DescView {
            nation: self.nation@,
            mayor: self.mayor@,
            residents: self.residents@,
            upkeep: self.upkeep,
            pvp: self.pvp,
            mobs: self.mobs,
            public: self.public,
            explosions: self.explosions,
            fire: self.fire,
            capital: self.capital,
        }
    }
}

/// The nation name embedded in `desc`, per the heading grammar alone; the
/// rest of the description need not match the full pattern.
pub fn nation_of_description(desc: &str) -> (r: Option<String>)
    ensures
        match r {
            Some(n) => nation_capture(desc@) == Some(n@),
            None => nation_capture(desc@) is None,
        },
{
    let cv = str_to_chars(desc);
    match nation_scan_exec(&cv, 0) {
        Some((a, k)) => {
            proof {
                lemma_nation_scan_props(cv@, 0);
            }
            Some(String::from_str(desc.substring_char(a, k)))
        },
        None => None,
    }
}

/// Parses a description against the full grammar. Success is all-or-nothing:
/// the result holds every capture exactly when the description matches, and
/// any mismatch is a parse error.
pub fn parse_description(desc: &str) -> (r: Result<DescCaptures, Error>)
    ensures
        match spec_desc_parse(desc@) {
            Some(dv) => r matches Ok(c) && c@ == dv,
            None => r matches Err(e) && e@ == ErrorView::ParseError("Description did not match"@),
        },
{
    let cv = str_to_chars(desc);
    let (a, k) = match nation_scan_exec(&cv, 0) {
        Some(x) => x,
        None => {
            return Err(Error::ParseError("Description did not match"));
        },
    };
    proof {
        lemma_nation_scan_props(cv@, 0);
    }
    let mk_mayor = str_to_chars("> Mayor <");
    proof {
        reveal_strlit("> Mayor <");
    }
    let (m1, m2) = match capture_step_exec(&cv, k + 2, &mk_mayor) {
        Some(x) => x,
        None => {
            return Err(Error::ParseError("Description did not match"));
        },
    };
    let mk_members = str_to_chars("> Members <");
    proof {
        reveal_strlit("> Members <");
    }
    let (r1, r2) = match capture_step_exec(&cv, m2 + 1, &mk_members) {
        Some(x) => x,
        None => {
            return Err(Error::ParseError("Description did not match"));
        },
    };
    let mk_flags = str_to_chars(">Flags<");
    proof {
        reveal_strlit(">Flags<");
    }
    if r2 + 1 >= cv.len() {
        proof {
            assert(spec_find(cv@, ">Flags<"@, r2 as int + 2) is None);
        }
        return Err(Error::ParseError("Description did not match"));
    }
    let f = match find(&cv, &mk_flags, r2 + 2) {
        Some(f) => f,
        None => {
            return Err(Error::ParseError("Description did not match"));
        },
    };
    proof {
        lemma_find_props(cv@, ">Flags<"@, r2 as int + 2);
    }
    let mk_upkeep = str_to_chars(">hasUpkeep: ");
    proof {
        reveal_strlit(">hasUpkeep: ");
    }
    let (upkeep, p1) = match flag_step_exec(&cv, f + 7, &mk_upkeep, true) {
        Some(x) => x,
        None => {
            return Err(Error::ParseError("Description did not match"));
        },
    };
    let mk_pvp = str_to_chars(">pvp: ");
    proof {
        reveal_strlit(">pvp: ");
    }
    let (pvp, p2) = match flag_step_exec(&cv, p1, &mk_pvp, true) {
        Some(x) => x,
        None => {
            return Err(Error::ParseError("Description did not match"));
        },
    };
    let mk_mobs = str_to_chars(">mobs: ");
    proof {
        reveal_strlit(">mobs: ");
    }
    let (mobs, p3) = match flag_step_exec(&cv, p2, &mk_mobs, true) {
        Some(x) => x,
        None => {
            return Err(Error::ParseError("Description did not match"));
        },
    };
    let mk_public = str_to_chars(">public: ");
    proof {
        reveal_strlit(">public: ");
    }
    let (public, p4) = match flag_step_exec(&cv, p3, &mk_public, true) {
        Some(x) => x,
        None => {
            return Err(Error::ParseError("Description did not match"));
        },
    };
    let mk_explosion = str_to_chars(">explosion: ");
    proof {
        reveal_strlit(">explosion: ");
    }
    let (explosions, p5) = match flag_step_exec(&cv, p4, &mk_explosion, true) {
        Some(x) => x,
        None => {
            return Err(Error::ParseError("Description did not match"));
        },
    };
    let mk_fire = str_to_chars(">fire: ");
    proof {
        reveal_strlit(">fire: ");
    }
    let (fire, p6) = match flag_step_exec(&cv, p5, &mk_fire, true) {
        Some(x) => x,
        None => {
            return Err(Error::ParseError("Description did not match"));
        },
    };
    let mk_capital = str_to_chars(">capital: ");
    proof {
        reveal_strlit(">capital: ");
    }
    let (capital, _p7) = match flag_step_exec(&cv, p6, &mk_capital, false) {
        Some(x) => x,
        None => {
            return Err(Error::ParseError("Description did not match"));
        },
    };
    let c = DescCaptures {
        nation: String::from_str(desc.substring_char(a, k)),
        mayor: String::from_str(desc.substring_char(m1, m2)),
        residents: String::from_str(desc.substring_char(r1, r2)),
        upkeep,
        pvp,
        mobs,
        public,
        explosions,
        fire,
        capital,
    };
    proof {
        assert(spec_desc_parse(desc@) == Some(c@));
    }
    Ok(c)
}

} // verus!

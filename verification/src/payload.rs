//! The command payload format.
//!
//! A command payload is a JSON object: `{"status":"executing"}`,
//! `{"status":"failed","reason":"power lost"}`. This module owns that
//! grammar. Whitespace is allowed around tokens; string values may use
//! the JSON escapes `\" \\ \/ \b \f \n \r \t`; members whose value is a
//! number, `true`, `false` or `null` are read over and ignored. Two
//! corners of JSON are not part of the format and make a payload
//! malformed: `\u` escapes, and members whose value is itself an object
//! or an array. Malformed payloads are never an error for the router:
//! they are dropped. The renderer escapes the quote, the backslash,
//! newline, carriage return and tab in a failure reason; other control
//! characters pass through unchanged.

use crate::status::CommandStatus;
use vstd::prelude::*;

verus! {

/// The whitespace characters tolerated between tokens.
pub open spec fn is_ws(c: char) -> bool {
    c == ' ' || c == '\t' || c == '\n' || c == '\r'
}

/// The characters that may follow a backslash inside a string.
pub open spec fn is_escape_code(c: char) -> bool {
    c == '"' || c == '\\' || c == '/' || c == 'b' || c == 'f' || c == 'n' || c == 'r' || c == 't'
}

/// The character an escape code stands for.
pub open spec fn escape_meaning(c: char) -> char {
    if c == 'b' {
        '\u{8}'
    } else if c == 'f' {
        '\u{c}'
    } else if c == 'n' {
        '\n'
    } else if c == 'r' {
        '\r'
    } else if c == 't' {
        '\t'
    } else {
        c
    }
}

/// A digit of a number.
pub open spec fn is_digit(c: char) -> bool {
    '0' <= c <= '9'
}

/// The first index at or after `i` holding a non-whitespace character,
/// or the end of the input.
pub open spec fn skip_ws(s: Seq<char>, i: int) -> int
    decreases s.len() - i,
{
    if 0 <= i < s.len() && is_ws(s[i]) {
        skip_ws(s, i + 1)
    } else {
        i
    }
}

/// The first index at or after `i` holding a non-digit character, or
/// the end of the input.
pub open spec fn scan_digits(s: Seq<char>, i: int) -> int
    decreases s.len() - i,
{
    if 0 <= i < s.len() && is_digit(s[i]) {
        scan_digits(s, i + 1)
    } else {
        i
    }
}

/// The index of the closing quote of a string body starting at `i`, if
/// the body reaches one through well-formed escapes.
pub open spec fn scan_string_end(s: Seq<char>, i: int) -> Option<int>
    decreases s.len() - i,
{
    if 0 <= i < s.len() {
        if s[i] == '"' {
            Some(i)
        } else if s[i] == '\\' {
            if i + 1 < s.len() && is_escape_code(s[i + 1]) {
                scan_string_end(s, i + 2)
            } else {
                None
            }
        } else {
            scan_string_end(s, i + 1)
        }
    } else {
        None
    }
}

/// A raw string body with its escapes resolved.
pub open spec fn spec_unescape(raw: Seq<char>) -> Seq<char>
    decreases raw.len(),
{
    if raw.len() == 0 {
        Seq::<char>::empty()
    } else if raw[0] == '\\' && raw.len() >= 2 {
        seq![escape_meaning(raw[1])] + spec_unescape(raw.skip(2))
    } else {
        seq![raw[0]] + spec_unescape(raw.drop_first())
    }
}

/// A quoted string starting at `i`: its unescaped contents and the
/// index just past the closing quote.
pub open spec fn spec_parse_string(s: Seq<char>, i: int) -> Option<(Seq<char>, int)> {
    if 0 <= i < s.len() && s[i] == '"' {
        match scan_string_end(s, i + 1) {
            Some(j) => Some((spec_unescape(s.subrange(i + 1, j)), j + 1)),
            None => None,
        }
    } else {
        None
    }
}

/// The index just past a number starting at `i`: an optional sign,
/// digits, an optional fraction and an optional exponent, scanned
/// loosely (leading zeros are tolerated).
pub open spec fn spec_skip_number(s: Seq<char>, i: int) -> Option<int> {
    let i0 = if 0 <= i < s.len() && s[i] == '-' {
        i + 1
    } else {
        i
    };
    if 0 <= i0 < s.len() && is_digit(s[i0]) {
        let i1 = scan_digits(s, i0);
        let i2 = if i1 < s.len() && s[i1] == '.' && i1 + 1 < s.len() && is_digit(s[i1 + 1]) {
            scan_digits(s, i1 + 1)
        } else {
            i1
        };
        if i2 < s.len() && (s[i2] == 'e' || s[i2] == 'E') {
            let im = if i2 + 1 < s.len() && (s[i2 + 1] == '+' || s[i2 + 1] == '-') {
                i2 + 2
            } else {
                i2 + 1
            };
            if im < s.len() && is_digit(s[im]) {
                Some(scan_digits(s, im))
            } else {
                None
            }
        } else {
            Some(i2)
        }
    } else {
        None
    }
}

/// The index just past a non-string scalar starting at `i`: one of the
/// three keywords, or a number.
pub open spec fn spec_skip_scalar(s: Seq<char>, i: int) -> Option<int> {
    if 0 <= i && i + 4 <= s.len() && s.subrange(i, i + 4) == "true"@ {
        Some(i + 4)
    } else if 0 <= i && i + 5 <= s.len() && s.subrange(i, i + 5) == "false"@ {
        Some(i + 5)
    } else if 0 <= i && i + 4 <= s.len() && s.subrange(i, i + 4) == "null"@ {
        Some(i + 4)
    } else {
        spec_skip_number(s, i)
    }
}

/// A `"key" : value` member starting at `i`: the key, the value when it
/// is a string and nothing when it is a skipped scalar, and the index
/// just past the member.
pub open spec fn spec_parse_member(s: Seq<char>, i: int) -> Option<
    ((Seq<char>, Option<Seq<char>>), int),
> {
    match spec_parse_string(s, i) {
        None => None,
        Some((key, i1)) => {
            let i2 = skip_ws(s, i1);
            if i2 < s.len() && s[i2] == ':' {
                let i3 = skip_ws(s, i2 + 1);
                if i3 < s.len() && s[i3] == '"' {
                    match spec_parse_string(s, i3) {
                        None => None,
                        Some((value, i4)) => Some(((key, Some(value)), i4)),
                    }
                } else {
                    match spec_skip_scalar(s, i3) {
                        None => None,
                        Some(i4) => Some(((key, None), i4)),
                    }
                }
            } else {
                None
            }
        },
    }
}

/// A non-empty comma-separated member list starting at `i`, consumed
/// through the closing brace: the string-valued members, in order, and
/// the index just past the brace.
pub open spec fn spec_parse_members(s: Seq<char>, i: int) -> Option<
    (Seq<(Seq<char>, Seq<char>)>, int),
>
    decreases s.len() - i,
{
    match spec_parse_member(s, i) {
        None => None,
        Some(((key, value), j)) => {
            let own = match value {
                Some(v) => seq![(key, v)],
                None => Seq::<(Seq<char>, Seq<char>)>::empty(),
            };
            let j2 = skip_ws(s, j);
            if j2 < s.len() && s[j2] == ',' {
                let j3 = skip_ws(s, j2 + 1);
                if i < j3 <= s.len() {
                    match spec_parse_members(s, j3) {
                        None => None,
                        Some((rest, k)) => Some((own + rest, k)),
                    }
                } else {
                    None
                }
            } else if j2 < s.len() && s[j2] == '}' {
                Some((own, j2 + 1))
            } else {
                None
            }
        },
    }
}

/// The string-valued members of a whole payload: a braced object
/// covering the entire input up to surrounding whitespace, or nothing
/// if the input is not of that shape.
pub open spec fn spec_parse_payload(s: Seq<char>) -> Option<Seq<(Seq<char>, Seq<char>)>> {
    let i = skip_ws(s, 0);
    if i < s.len() && s[i] == '{' {
        let j = skip_ws(s, i + 1);
        if j < s.len() && s[j] == '}' {
            if skip_ws(s, j + 1) == s.len() {
                Some(Seq::<(Seq<char>, Seq<char>)>::empty())
            } else {
                None
            }
        } else {
            match spec_parse_members(s, j) {
                None => None,
                Some((members, k)) => {
                    if skip_ws(s, k) == s.len() {
                        Some(members)
                    } else {
                        None
                    }
                },
            }
        }
    } else {
        None
    }
}

/// The value of the first member named `key`.
pub open spec fn spec_field(members: Seq<(Seq<char>, Seq<char>)>, key: Seq<char>) -> Option<
    Seq<char>,
>
    decreases members.len(),
{
    if members.len() == 0 {
        None
    } else if members[0].0 == key {
        Some(members[0].1)
    } else {
        spec_field(members.drop_first(), key)
    }
}

/// Executable check for tolerated whitespace.
pub fn ws_char(c: char) -> (r: bool)
    ensures
        r == is_ws(c),
{
    c == ' ' || c == '\t' || c == '\n' || c == '\r'
}

/// Executable check for a digit.
fn digit_char(c: char) -> (r: bool)
    ensures
        r == is_digit(c),
{
    '0' <= c && c <= '9'
}

/// Executable check for an escape code.
fn escape_code_char(c: char) -> (r: bool)
    ensures
        r == is_escape_code(c),
{
    c == '"' || c == '\\' || c == '/' || c == 'b' || c == 'f' || c == 'n' || c == 'r' || c == 't'
}

/// Skip whitespace from `i` on.
fn skip_ws_at(s: &str, i: usize) -> (r: usize)
    requires
        i <= s@.len(),
    ensures
        r as int == skip_ws(s@, i as int),
        i <= r <= s@.len(),
{
    let n = s.unicode_len();
    let mut j = i;
    while j < n && ws_char(s.get_char(j))
        invariant
            i <= j <= n,
            n == s@.len(),
            skip_ws(s@, i as int) == skip_ws(s@, j as int),
        decreases n - j,
    {
        j += 1;
    }
    j
}

/// Skip digits from `i` on.
fn scan_digits_at(s: &str, i: usize) -> (r: usize)
    requires
        i <= s@.len(),
    ensures
        r as int == scan_digits(s@, i as int),
        i <= r <= s@.len(),
{
    let n = s.unicode_len();
    let mut j = i;
    while j < n && digit_char(s.get_char(j))
        invariant
            i <= j <= n,
            n == s@.len(),
            scan_digits(s@, i as int) == scan_digits(s@, j as int),
        decreases n - j,
    {
        j += 1;
    }
    j
}

/// Find the closing quote of a string body starting at `i`.
fn scan_string_end_at(s: &str, i: usize) -> (r: Option<usize>)
    requires
        i <= s@.len(),
    ensures
        r is Some <==> scan_string_end(s@, i as int) is Some,
        r matches Some(j) ==> scan_string_end(s@, i as int) == Some(j as int) && i <= j
            < s@.len(),
    decreases s@.len() - i,
{
    let n = s.unicode_len();
    if i >= n {
        return None;
    }
    let c = s.get_char(i);
    if c == '"' {
        Some(i)
    } else if c == '\\' {
        if i + 1 < n && escape_code_char(s.get_char(i + 1)) {
            scan_string_end_at(s, i + 2)
        } else {
            None
        }
    } else {
        scan_string_end_at(s, i + 1)
    }
}

/// Resolve the escapes of the string body `s` from `i` on.
fn unescape_at(s: &str, i: usize) -> (r: String)
    requires
        i <= s@.len(),
    ensures
        r@ == spec_unescape(s@.skip(i as int)),
    decreases s@.len() - i,
{
    let n = s.unicode_len();
    if i >= n {
        proof {
            assert(s@.skip(i as int) =~= Seq::<char>::empty());
        }
        return String::new();
    }
    proof {
        assert(s@.skip(i as int).len() > 0);
        assert(s@.skip(i as int)[0] == s@[i as int]);
    }
    let c = s.get_char(i);
    if c == '\\' && i + 1 < n {
        proof {
            assert(s@.skip(i as int)[1] == s@[i as int + 1]);
            assert(s@.skip(i as int).skip(2) =~= s@.skip(i as int + 2));
        }
        let code = s.get_char(i + 1);
        let rest = unescape_at(s, i + 2);
        let mut out: String = if code == 'b' {
            proof {
                reveal_strlit("\u{8}");
                assert("\u{8}"@ =~= seq!['\u{8}']);
            }
            String::from_str("\u{8}")
        } else if code == 'f' {
            proof {
                reveal_strlit("\u{c}");
                assert("\u{c}"@ =~= seq!['\u{c}']);
            }
            String::from_str("\u{c}")
        } else if code == 'n' {
            proof {
                reveal_strlit("\n");
                assert("\n"@ =~= seq!['\n']);
            }
            String::from_str("\n")
        } else if code == 'r' {
            proof {
                reveal_strlit("\r");
                assert("\r"@ =~= seq!['\r']);
            }
            String::from_str("\r")
        } else if code == 't' {
            proof {
                reveal_strlit("\t");
                assert("\t"@ =~= seq!['\t']);
            }
            String::from_str("\t")
        } else {
            let piece = s.substring_char(i + 1, i + 2);
            proof {
                assert(piece@ =~= seq![s@[i as int + 1]]);
            }
            piece.to_owned()
        };
        out.append(rest.as_str());
        proof {
            assert(out@ =~= seq![escape_meaning(s@[i as int + 1])] + spec_unescape(
                s@.skip(i as int + 2),
            ));
        }
        out
    } else {
        proof {
            assert(s@.skip(i as int).drop_first() =~= s@.skip(i as int + 1));
        }
        let piece = s.substring_char(i, i + 1);
        proof {
            assert(piece@ =~= seq![s@[i as int]]);
        }
        let mut out = piece.to_owned();
        let rest = unescape_at(s, i + 1);
        out.append(rest.as_str());
        out
    }
}

/// Parse a quoted string starting at `i`.
fn parse_string_at(s: &str, i: usize) -> (r: Option<(String, usize)>)
    requires
        i <= s@.len(),
    ensures
        r is Some <==> spec_parse_string(s@, i as int) is Some,
        r matches Some(p) ==> spec_parse_string(s@, i as int) == Some((p.0@, p.1 as int)) && i
            < p.1 <= s@.len(),
{
    let n = s.unicode_len();
    if i >= n || s.get_char(i) != '"' {
        return None;
    }
    let j = match scan_string_end_at(s, i + 1) {
        Some(j) => j,
        None => {
            return None;
        },
    };
    let raw = s.substring_char(i + 1, j);
    proof {
        assert(raw@ =~= s@.subrange(i as int + 1, j as int));
        assert(raw@.skip(0) =~= raw@);
    }
    let value = unescape_at(raw, 0);
    Some((value, j + 1))
}

/// `scan_digits` never moves backward.
proof fn lemma_scan_digits_bounds(s: Seq<char>, i: int)
    requires
        0 <= i,
    ensures
        i <= scan_digits(s, i),
    decreases s.len() - i,
{
    if 0 <= i < s.len() && is_digit(s[i]) {
        lemma_scan_digits_bounds(s, i + 1);
    }
}

/// Read over a non-string scalar starting at `i`.
fn skip_scalar_at(s: &str, i: usize) -> (r: Option<usize>)
    requires
        i <= s@.len(),
    ensures
        r is Some <==> spec_skip_scalar(s@, i as int) is Some,
        r matches Some(j) ==> spec_skip_scalar(s@, i as int) == Some(j as int) && i < j
            <= s@.len(),
{
    let n = s.unicode_len();
    if n - i >= 4 && crate::text::str_eq(s.substring_char(i, i + 4), "true") {
        return Some(i + 4);
    }
    if n - i >= 5 && crate::text::str_eq(s.substring_char(i, i + 5), "false") {
        return Some(i + 5);
    }
    if n - i >= 4 && crate::text::str_eq(s.substring_char(i, i + 4), "null") {
        return Some(i + 4);
    }
    let i0 = if i < n && s.get_char(i) == '-' {
        i + 1
    } else {
        i
    };
    if i0 >= n || !digit_char(s.get_char(i0)) {
        return None;
    }
    let i1 = scan_digits_at(s, i0);
    proof {
        assert(i1 as int >= i0 + 1) by {
            assert(scan_digits(s@, i0 as int) == scan_digits(s@, i0 as int + 1));
            lemma_scan_digits_bounds(s@, i0 as int + 1);
        }
    }
    let i2 = if i1 < n && s.get_char(i1) == '.' && i1 + 1 < n && digit_char(s.get_char(i1 + 1)) {
        scan_digits_at(s, i1 + 1)
    } else {
        i1
    };
    if i2 < n && (s.get_char(i2) == 'e' || s.get_char(i2) == 'E') {
        let im = if i2 + 1 < n && (s.get_char(i2 + 1) == '+' || s.get_char(i2 + 1) == '-') {
            i2 + 2
        } else {
            i2 + 1
        };
        if im < n && digit_char(s.get_char(im)) {
            let end = scan_digits_at(s, im);
            proof {
                assert(end as int >= im + 1) by {
                    assert(scan_digits(s@, im as int) == scan_digits(s@, im as int + 1));
                    lemma_scan_digits_bounds(s@, im as int + 1);
                }
            }
            Some(end)
        } else {
            None
        }
    } else {
        Some(i2)
    }
}

/// Parse a `"key" : value` member starting at `i`.
fn parse_member_at(s: &str, i: usize) -> (r: Option<((String, Option<String>), usize)>)
    requires
        i <= s@.len(),
    ensures
        r is Some <==> spec_parse_member(s@, i as int) is Some,
        r matches Some(p) ==> ({
            let ((key, value), j) = spec_parse_member(s@, i as int)->0;
            &&& (p.0).0@ == key
            &&& ((p.0).1 is Some <==> value is Some)
            &&& ((p.0).1 matches Some(v) ==> value == Some(v@))
            &&& p.1 as int == j
            &&& i < p.1 <= s@.len()
        }),
{
    let (key, i1) = match parse_string_at(s, i) {
        Some(p) => p,
        None => {
            return None;
        },
    };
    let i2 = skip_ws_at(s, i1);
    let n = s.unicode_len();
    if i2 >= n || s.get_char(i2) != ':' {
        return None;
    }
    let i3 = skip_ws_at(s, i2 + 1);
    if i3 < n && s.get_char(i3) == '"' {
        let (value, i4) = match parse_string_at(s, i3) {
            Some(p) => p,
            None => {
                return None;
            },
        };
        Some(((key, Some(value)), i4))
    } else {
        let i4 = match skip_scalar_at(s, i3) {
            Some(j) => j,
            None => {
                return None;
            },
        };
        Some(((key, None), i4))
    }
}

/// Parse a non-empty member list starting at `i`, through the closing
/// brace; only string-valued members are collected.
fn parse_members_at(s: &str, i: usize) -> (r: Option<(Vec<(String, String)>, usize)>)
    requires
        i <= s@.len(),
    ensures
        r is Some <==> spec_parse_members(s@, i as int) is Some,
        r matches Some(p) ==> spec_parse_members(s@, i as int) == Some(
            (p.0@.map_values(|m: (String, String)| (m.0@, m.1@)), p.1 as int),
        ) && p.1 <= s@.len(),
    decreases s@.len() - i,
{
    let ((key, value), j) = match parse_member_at(s, i) {
        Some(p) => p,
        None => {
            return None;
        },
    };
    let ghost spec_value = ((spec_parse_member(s@, i as int)->0).0).1;
    let ghost own = match spec_value {
        Some(v) => seq![(key@, v)],
        None => Seq::<(Seq<char>, Seq<char>)>::empty(),
    };
    let j2 = skip_ws_at(s, j);
    let n = s.unicode_len();
    if j2 < n && s.get_char(j2) == ',' {
        let j3 = skip_ws_at(s, j2 + 1);
        if i < j3 && j3 <= n {
            match parse_members_at(s, j3) {
                None => None,
                Some((rest, k)) => {
                    let ghost rest_view = rest@;
                    let mut members = rest;
                    match value {
                        Some(v) => {
                            members.insert(0, (key, v));
                            proof {
                                assert(members@.map_values(|m: (String, String)| (m.0@, m.1@))
                                    =~= own + rest_view.map_values(
                                    |m: (String, String)| (m.0@, m.1@),
                                ));
                            }
                        },
                        None => {
                            proof {
                                assert(members@.map_values(|m: (String, String)| (m.0@, m.1@))
                                    =~= own + rest_view.map_values(
                                    |m: (String, String)| (m.0@, m.1@),
                                ));
                            }
                        },
                    }
                    Some((members, k))
                },
            }
        } else {
            None
        }
    } else if j2 < n && s.get_char(j2) == '}' {
        let mut members: Vec<(String, String)> = Vec::new();
        match value {
            Some(v) => {
                members.push((key, v));
                proof {
                    assert(members@.map_values(|m: (String, String)| (m.0@, m.1@)) =~= own);
                }
            },
            None => {
                proof {
                    assert(members@.map_values(|m: (String, String)| (m.0@, m.1@)) =~= own);
                }
            },
        }
        Some((members, j2 + 1))
    } else {
        None
    }
}

/// Parse a whole payload into its string-valued members; `None` when
/// the input is not an object of the payload grammar covering the whole
/// input.
pub fn parse_payload(s: &str) -> (r: Option<Vec<(String, String)>>)
    ensures
        r is Some <==> spec_parse_payload(s@) is Some,
        r matches Some(v) ==> spec_parse_payload(s@) == Some(
            v@.map_values(|m: (String, String)| (m.0@, m.1@)),
        ),
{
    let n = s.unicode_len();
    let i = skip_ws_at(s, 0);
    if i >= n || s.get_char(i) != '{' {
        return None;
    }
    let j = skip_ws_at(s, i + 1);
    if j < n && s.get_char(j) == '}' {
        if skip_ws_at(s, j + 1) == n {
            let members: Vec<(String, String)> = Vec::new();
            proof {
                assert(members@.map_values(|m: (String, String)| (m.0@, m.1@)) =~= Seq::<
                    (Seq<char>, Seq<char>),
                >::empty());
            }
            Some(members)
        } else {
            None
        }
    } else {
        match parse_members_at(s, j) {
            None => None,
            Some((members, k)) => {
                if skip_ws_at(s, k) == n {
                    Some(members)
                } else {
                    None
                }
            },
        }
    }
}

/// The value of the first member named `key`.
pub fn field_value(members: &Vec<(String, String)>, key: &str) -> (r: Option<String>)
    ensures
        r is Some <==> spec_field(
            members@.map_values(|m: (String, String)| (m.0@, m.1@)),
            key@,
        ) is Some,
        r matches Some(v) ==> spec_field(
            members@.map_values(|m: (String, String)| (m.0@, m.1@)),
            key@,
        ) == Some(v@),
{
    let ghost all = members@.map_values(|m: (String, String)| (m.0@, m.1@));
    let mut idx: usize = 0;
    proof {
        assert(all.skip(0) =~= all);
    }
    while idx < members.len()
        invariant
            0 <= idx <= members.len(),
            all == members@.map_values(|m: (String, String)| (m.0@, m.1@)),
            spec_field(all, key@) == spec_field(all.skip(idx as int), key@),
        decreases members.len() - idx,
    {
        let entry = &members[idx];
        if crate::text::str_eq(entry.0.as_str(), key) {
            proof {
                assert(all.skip(idx as int)[0] == (entry.0@, entry.1@));
            }
            return Some(entry.1.clone());
        }
        proof {
            assert(all.skip(idx as int)[0] == (entry.0@, entry.1@));
            assert(all.skip(idx as int).drop_first() =~= all.skip(idx as int + 1));
        }
        idx += 1;
    }
    proof {
        assert(all.skip(idx as int) =~= Seq::<(Seq<char>, Seq<char>)>::empty());
    }
    None
}

/// What a command payload says: its status, and its failure reason if it
/// carries one. `None` when the payload is malformed or names no status.
pub open spec fn spec_parse_status_payload(s: Seq<char>) -> Option<
    (CommandStatus, Option<Seq<char>>),
> {
    match spec_parse_payload(s) {
        None => None,
        Some(members) => match spec_field(members, "status"@) {
            None => None,
            Some(status_name) => match CommandStatus::spec_parse(status_name) {
                None => None,
                Some(status) => Some((status, spec_field(members, "reason"@))),
            },
        },
    }
}

/// Parse a command payload into its status and optional reason.
pub fn parse_status_payload(s: &str) -> (r: Option<(CommandStatus, Option<String>)>)
    ensures
        r is Some <==> spec_parse_status_payload(s@) is Some,
        r matches Some(p) ==> ({
            let sp = spec_parse_status_payload(s@)->0;
            &&& p.0 == sp.0
            &&& (p.1 is Some <==> sp.1 is Some)
            &&& (p.1 matches Some(reason) ==> sp.1 == Some(reason@))
        }),
{
    let members = match parse_payload(s) {
        Some(m) => m,
        None => {
            return None;
        },
    };
    let status_name = match field_value(&members, "status") {
        Some(v) => v,
        None => {
            return None;
        },
    };
    let status = match CommandStatus::parse(status_name.as_str()) {
        Some(st) => st,
        None => {
            return None;
        },
    };
    let reason = field_value(&members, "reason");
    Some((status, reason))
}

/// A character as it stands inside a rendered string: the quote, the
/// backslash, newline, carriage return and tab behind escapes, anything
/// else as itself.
pub open spec fn escape_json_char(c: char) -> Seq<char> {
    if c == '"' {
        seq!['\\', '"']
    } else if c == '\\' {
        seq!['\\', '\\']
    } else if c == '\n' {
        seq!['\\', 'n']
    } else if c == '\r' {
        seq!['\\', 'r']
    } else if c == '\t' {
        seq!['\\', 't']
    } else {
        seq![c]
    }
}

/// A whole value as it stands inside a rendered string.
pub open spec fn spec_escape_json(s: Seq<char>) -> Seq<char>
    decreases s.len(),
{
    if s.len() == 0 {
        Seq::<char>::empty()
    } else {
        escape_json_char(s[0]) + spec_escape_json(s.drop_first())
    }
}

/// Escaping one more character appends its escaped form.
proof fn lemma_escape_json_push(s: Seq<char>, c: char)
    ensures
        spec_escape_json(s.push(c)) == spec_escape_json(s) + escape_json_char(c),
    decreases s.len(),
{
    if s.len() == 0 {
        reveal_with_fuel(spec_escape_json, 3);
        assert(s.push(c)[0] == c);
        assert(s.push(c).drop_first() =~= Seq::<char>::empty());
        assert(spec_escape_json(s.push(c)) =~= spec_escape_json(s) + escape_json_char(c));
    } else {
        assert(s.push(c)[0] == s[0]);
        assert(s.push(c).drop_first() =~= s.drop_first().push(c));
        lemma_escape_json_push(s.drop_first(), c);
        assert(spec_escape_json(s.push(c)) =~= spec_escape_json(s) + escape_json_char(c));
    }
}

/// Escape a value for a rendered string.
fn escape_json(value: &str) -> (r: String)
    ensures
        r@ == spec_escape_json(value@),
{
    let n = value.unicode_len();
    let mut out = String::new();
    let mut i: usize = 0;
    proof {
        assert(value@.take(0) =~= Seq::<char>::empty());
    }
    while i < n
        invariant
            0 <= i <= n,
            n == value@.len(),
            out@ == spec_escape_json(value@.take(i as int)),
        decreases n - i,
    {
        let c = value.get_char(i);
        proof {
            assert(value@.take(i as int + 1) =~= value@.take(i as int).push(value@[i as int]));
            lemma_escape_json_push(value@.take(i as int), value@[i as int]);
        }
        if c == '"' {
            proof {
                reveal_strlit("\\\"");
                assert("\\\""@ =~= seq!['\\', '"']);
            }
            out.append("\\\"");
        } else if c == '\\' {
            proof {
                reveal_strlit("\\\\");
                assert("\\\\"@ =~= seq!['\\', '\\']);
            }
            out.append("\\\\");
        } else if c == '\n' {
            proof {
                reveal_strlit("\\n");
                assert("\\n"@ =~= seq!['\\', 'n']);
            }
            out.append("\\n");
        } else if c == '\r' {
            proof {
                reveal_strlit("\\r");
                assert("\\r"@ =~= seq!['\\', 'r']);
            }
            out.append("\\r");
        } else if c == '\t' {
            proof {
                reveal_strlit("\\t");
                assert("\\t"@ =~= seq!['\\', 't']);
            }
            out.append("\\t");
        } else {
            let piece = value.substring_char(i, i + 1);
            proof {
                assert(piece@ =~= seq![value@[i as int]]);
            }
            out.append(piece);
        }
        i += 1;
    }
    proof {
        assert(value@.take(n as int) =~= value@);
    }
    out
}

/// The canonical rendering of a status payload: no whitespace, the status
/// member first, the reason member — escaped — only when there is a
/// reason.
pub open spec fn spec_render_status_payload(
    status: CommandStatus,
    reason: Option<Seq<char>>,
) -> Seq<char> {
    match reason {
        None => "{\"status\":\""@ + status.spec_name() + "\"}"@,
        Some(r) => "{\"status\":\""@ + status.spec_name() + "\",\"reason\":\""@
            + spec_escape_json(r) + "\"}"@,
    }
}

/// Render a status payload.
pub fn render_status_payload(status: CommandStatus, reason: &Option<String>) -> (r: String)
    ensures
        reason is None ==> r@ == spec_render_status_payload(status, None),
        reason matches Some(text) ==> r@ == spec_render_status_payload(status, Some(text@)),
{
    let mut out = String::from_str("{\"status\":\"");
    out.append(status.as_str());
    match reason {
        None => {
            out.append("\"}");
        },
        Some(text) => {
            out.append("\",\"reason\":\"");
            let escaped = escape_json(text.as_str());
            out.append(escaped.as_str());
            out.append("\"}");
        },
    }
    out
}

} // verus!

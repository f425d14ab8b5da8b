//! Character-level JSON text primitives used by the chunk decoder:
//! whitespace, strings with escape sequences, integers, and a skipper for
//! arbitrary values (so unknown object members are tolerated and ignored).
//!
//! Every executable parser mirrors a specification function over the payload's
//! character sequence; the specification functions are the crate's definition
//! of the accepted grammar.

use vstd::prelude::*;

verus! {

/// Relies on `String::push`: appends exactly the one given character.
#[verifier::external_body]
pub(crate) fn push_char(s: &mut String, c: char)
    ensures
        final(s)@ == old(s)@.push(c),
{
    s.push(c);
}

/// Relies on `char::from_u32`: every code point outside the surrogate range
/// and at most 0x10FFFF is a character, and the conversion returns it.
#[verifier::external_body]
pub(crate) fn char_from_code(v: u32) -> (c: char)
    requires
        v < 0xD800 || (0xDFFF < v && v <= 0x10FFFF),
    ensures
        c == v as char,
        c as u32 == v,
{
    char::from_u32(v).unwrap()
}

/// View of an optional owned text as an optional character sequence.
pub open spec fn opt_str_view(o: Option<String>) -> Option<Seq<char>> {
    match o {
        Some(s) => Some(s@),
        None => None,
    }
}

/// View of a doubly optional owned text (outer: member seen; inner: `null`).
pub open spec fn opt2_view(o: Option<Option<String>>) -> Option<Option<Seq<char>>> {
    match o {
        Some(v) => Some(opt_str_view(v)),
        None => None,
    }
}

/// An unseen member and a member set to `null` both stand for no value.
pub open spec fn flat_opt(o: Option<Option<Seq<char>>>) -> Option<Seq<char>> {
    match o {
        Some(v) => v,
        None => None,
    }
}

pub open spec fn is_ws_char(c: char) -> bool {
    c == ' ' || c == '\t' || c == '\n' || c == '\r'
}

pub open spec fn is_digit_char(c: char) -> bool {
    '0' as u32 <= c as u32 && c as u32 <= '9' as u32
}

/// First position at or after `i` holding no whitespace.
pub open spec fn spec_skip_ws(s: Seq<char>, i: int) -> int
    decreases s.len() - i,
{
    if 0 <= i && i < s.len() && is_ws_char(s[i]) {
        spec_skip_ws(s, i + 1)
    } else {
        i
    }
}

pub(crate) fn exec_is_ws(c: char) -> (b: bool)
    ensures
        b == is_ws_char(c),
{
    c == ' ' || c == '\t' || c == '\n' || c == '\r'
}

pub(crate) fn skip_ws(cs: &Vec<char>, i: usize) -> (j: usize)
    requires
        i <= cs@.len(),
    ensures
        j == spec_skip_ws(cs@, i as int),
        i <= j <= cs@.len(),
{
    let mut j = i;
    while j < cs.len() && exec_is_ws(cs[j])
        invariant
            i <= j <= cs@.len(),
            spec_skip_ws(cs@, i as int) == spec_skip_ws(cs@, j as int),
        decreases cs@.len() - j,
    {
        j = j + 1;
    }
    j
}

/// Value of one hexadecimal digit, if the character is one.
pub open spec fn spec_hex_digit(c: char) -> Option<int> {
    if '0' as u32 <= c as u32 && c as u32 <= '9' as u32 {
        Some(c as u32 - '0' as u32)
    } else if 'a' as u32 <= c as u32 && c as u32 <= 'f' as u32 {
        Some(10 + c as u32 - 'a' as u32)
    } else if 'A' as u32 <= c as u32 && c as u32 <= 'F' as u32 {
        Some(10 + c as u32 - 'A' as u32)
    } else {
        None
    }
}

pub(crate) fn hex_digit(c: char) -> (r: Option<u32>)
    ensures
        r is Some <==> spec_hex_digit(c) is Some,
        r matches Some(v) ==> spec_hex_digit(c) == Some(v as int) && v < 16,
{
    let u = c as u32;
    if '0' as u32 <= u && u <= '9' as u32 {
        Some(u - '0' as u32)
    } else if 'a' as u32 <= u && u <= 'f' as u32 {
        Some(10 + (u - 'a' as u32))
    } else if 'A' as u32 <= u && u <= 'F' as u32 {
        Some(10 + (u - 'A' as u32))
    } else {
        None
    }
}

/// The character stood for by a single-letter escape, if the letter is one.
pub open spec fn spec_escape_char(c: char) -> Option<char> {
    if c == '"' {
        Some('"')
    } else if c == '\\' {
        Some('\\')
    } else if c == '/' {
        Some('/')
    } else if c == 'b' {
        Some('\u{0008}')
    } else if c == 'f' {
        Some('\u{000C}')
    } else if c == 'n' {
        Some('\n')
    } else if c == 'r' {
        Some('\r')
    } else if c == 't' {
        Some('\t')
    } else {
        None
    }
}

pub(crate) fn escape_char(c: char) -> (r: Option<char>)
    ensures
        r == spec_escape_char(c),
{
    if c == '"' {
        Some('"')
    } else if c == '\\' {
        Some('\\')
    } else if c == '/' {
        Some('/')
    } else if c == 'b' {
        Some('\u{0008}')
    } else if c == 'f' {
        Some('\u{000C}')
    } else if c == 'n' {
        Some('\n')
    } else if c == 'r' {
        Some('\r')
    } else if c == 't' {
        Some('\t')
    } else {
        None
    }
}

/// Remainder of a string literal, starting just inside the opening quote:
/// the decoded characters appended to `acc`, and the position after the
/// closing quote. Escapes are decoded; a high-surrogate `\u` escape must be
/// followed at once by a low-surrogate one, and the pair stands for one
/// supplementary character; a lone surrogate escape, an unescaped control
/// character and an unterminated literal are refused.
pub open spec fn spec_string_body(s: Seq<char>, i: int, acc: Seq<char>) -> Option<(Seq<char>, int)>
    decreases s.len() - i,
{
    if i < 0 || i >= s.len() {
        None
    } else {
        let c = s[i];
        if c == '"' {
            Some((acc, i + 1))
        } else if c == '\\' {
            if i + 1 < s.len() {
                let e = s[i + 1];
                if e == 'u' {
                    if i + 6 <= s.len() {
                        if spec_hex_digit(s[i + 2]) is Some && spec_hex_digit(s[i + 3]) is Some
                            && spec_hex_digit(s[i + 4]) is Some && spec_hex_digit(s[i + 5]) is Some {
                            let v = spec_hex_digit(s[i + 2])->Some_0 * 4096
                                + spec_hex_digit(s[i + 3])->Some_0 * 256
                                + spec_hex_digit(s[i + 4])->Some_0 * 16
                                + spec_hex_digit(s[i + 5])->Some_0;
                            if 0xD800 <= v && v <= 0xDBFF {
                                if i + 12 <= s.len() && s[i + 6] == '\\' && s[i + 7] == 'u'
                                    && spec_hex_digit(s[i + 8]) is Some
                                    && spec_hex_digit(s[i + 9]) is Some
                                    && spec_hex_digit(s[i + 10]) is Some
                                    && spec_hex_digit(s[i + 11]) is Some {
                                    let w = spec_hex_digit(s[i + 8])->Some_0 * 4096
                                        + spec_hex_digit(s[i + 9])->Some_0 * 256
                                        + spec_hex_digit(s[i + 10])->Some_0 * 16
                                        + spec_hex_digit(s[i + 11])->Some_0;
                                    if 0xDC00 <= w && w <= 0xDFFF {
                                        let code = 0x10000 + (v - 0xD800) * 0x400 + (w - 0xDC00);
                                        spec_string_body(s, i + 12, acc.push((code as u32) as char))
                                    } else {
                                        None
                                    }
                                } else {
                                    None
                                }
                            } else if 0xDC00 <= v && v <= 0xDFFF {
                                None
                            } else {
                                spec_string_body(s, i + 6, acc.push((v as u32) as char))
                            }
                        } else {
                            None
                        }
                    } else {
                        None
                    }
                } else {
                    match spec_escape_char(e) {
                        Some(d) => spec_string_body(s, i + 2, acc.push(d)),
                        None => None,
                    }
                }
            } else {
                None
            }
        } else if (c as u32) < 0x20 {
            None
        } else {
            spec_string_body(s, i + 1, acc.push(c))
        }
    }
}

/// A whole string literal at `i`: the decoded content and the position after
/// the closing quote.
pub open spec fn spec_parse_string(s: Seq<char>, i: int) -> Option<(Seq<char>, int)> {
    if 0 <= i && i < s.len() && s[i] == '"' {
        spec_string_body(s, i + 1, Seq::empty())
    } else {
        None
    }
}

pub(crate) fn string_body(cs: &Vec<char>, i: usize, acc: String) -> (r: Option<(String, usize)>)
    requires
        i <= cs@.len(),
    ensures
        r is Some <==> spec_string_body(cs@, i as int, acc@) is Some,
        r matches Some(p) ==> (spec_string_body(cs@, i as int, acc@) matches Some(q)
            && p.0@ == q.0 && p.1 as int == q.1 && i < p.1 <= cs@.len()),
    decreases cs@.len() - i,
{
    if i >= cs.len() {
        return None;
    }
    let c = cs[i];
    if c == '"' {
        Some((acc, i + 1))
    } else if c == '\\' {
        if cs.len() - i > 1 {
            let e = cs[i + 1];
            if e == 'u' {
                if cs.len() - i >= 6 {
                    let h1 = hex_digit(cs[i + 2]);
                    let h2 = hex_digit(cs[i + 3]);
                    let h3 = hex_digit(cs[i + 4]);
                    let h4 = hex_digit(cs[i + 5]);
                    match (h1, h2, h3, h4) {
                        (Some(a), Some(b), Some(x), Some(y)) => {
                            let v: u32 = a * 4096 + b * 256 + x * 16 + y;
                            if 0xD800 <= v && v <= 0xDBFF {
                                if cs.len() - i >= 12 && cs[i + 6] == '\\' && cs[i + 7] == 'u' {
                                    let h5 = hex_digit(cs[i + 8]);
                                    let h6 = hex_digit(cs[i + 9]);
                                    let h7 = hex_digit(cs[i + 10]);
                                    let h8 = hex_digit(cs[i + 11]);
                                    match (h5, h6, h7, h8) {
                                        (Some(a2), Some(b2), Some(x2), Some(y2)) => {
                                            let w: u32 = a2 * 4096 + b2 * 256 + x2 * 16 + y2;
                                            if 0xDC00 <= w && w <= 0xDFFF {
                                                let code: u32 = 0x10000 + (v - 0xD800) * 0x400
                                                    + (w - 0xDC00);
                                                let mut acc2 = acc;
                                                push_char(&mut acc2, char_from_code(code));
                                                string_body(cs, i + 12, acc2)
                                            } else {
                                                None
                                            }
                                        },
                                        _ => None,
                                    }
                                } else {
                                    None
                                }
                            } else if 0xDC00 <= v && v <= 0xDFFF {
                                None
                            } else {
                                let mut acc2 = acc;
                                push_char(&mut acc2, char_from_code(v));
                                string_body(cs, i + 6, acc2)
                            }
                        },
                        _ => None,
                    }
                } else {
                    None
                }
            } else {
                match escape_char(e) {
                    Some(d) => {
                        let mut acc2 = acc;
                        push_char(&mut acc2, d);
                        string_body(cs, i + 2, acc2)
                    },
                    None => None,
                }
            }
        } else {
            None
        }
    } else if (c as u32) < 0x20 {
        None
    } else {
        let mut acc2 = acc;
        push_char(&mut acc2, c);
        string_body(cs, i + 1, acc2)
    }
}

pub(crate) fn parse_string(cs: &Vec<char>, i: usize) -> (r: Option<(String, usize)>)
    requires
        i <= cs@.len(),
    ensures
        r is Some <==> spec_parse_string(cs@, i as int) is Some,
        r matches Some(p) ==> (spec_parse_string(cs@, i as int) matches Some(q)
            && p.0@ == q.0 && p.1 as int == q.1 && i < p.1 <= cs@.len()),
{
    if i < cs.len() && cs[i] == '"' {
        string_body(cs, i + 1, String::new())
    } else {
        None
    }
}

/// Digits of an unsigned decimal at `i`, accumulated onto `acc`; refused if
/// the value would not fit a 64-bit magnitude.
pub open spec fn spec_int_digits(s: Seq<char>, i: int, acc: int) -> Option<(int, int)>
    decreases s.len() - i,
{
    if 0 <= i && i < s.len() && is_digit_char(s[i]) {
        let d = s[i] as u32 - '0' as u32;
        if acc > (0xFFFF_FFFF_FFFF_FFFF - d) / 10 {
            None
        } else {
            spec_int_digits(s, i + 1, acc * 10 + d)
        }
    } else {
        Some((acc, i))
    }
}

/// A JSON integer at `i`: an optional minus sign and decimal digits, with no
/// leading zero, not followed by a fraction or exponent, and fitting a 64-bit
/// magnitude. Returns its value and the position after it.
pub open spec fn spec_parse_int(s: Seq<char>, i: int) -> Option<(int, int)> {
    let neg = 0 <= i && i < s.len() && s[i] == '-';
    let j = if neg { i + 1 } else { i };
    if 0 <= j && j < s.len() && is_digit_char(s[j]) {
        if s[j] == '0' && j + 1 < s.len() && is_digit_char(s[j + 1]) {
            None
        } else {
            match spec_int_digits(s, j, 0) {
                Some((v, k)) => {
                    if k < s.len() && (s[k] == '.' || s[k] == 'e' || s[k] == 'E') {
                        None
                    } else {
                        Some((if neg { -v } else { v }, k))
                    }
                },
                None => None,
            }
        }
    } else {
        None
    }
}

pub(crate) fn int_digits(cs: &Vec<char>, i: usize, acc: u64) -> (r: Option<(u64, usize)>)
    requires
        i <= cs@.len(),
    ensures
        r is Some <==> spec_int_digits(cs@, i as int, acc as int) is Some,
        r matches Some(p) ==> (spec_int_digits(cs@, i as int, acc as int) matches Some(q)
            && p.0 as int == q.0 && p.1 as int == q.1 && i <= p.1 <= cs@.len()),
        r matches Some(p) ==> ((i < cs@.len() && is_digit_char(cs@[i as int])) ==> i < p.1),
    decreases cs@.len() - i,
{
    if i < cs.len() {
        let u = cs[i] as u32;
        if '0' as u32 <= u && u <= '9' as u32 {
            let d: u64 = (u - '0' as u32) as u64;
            if acc > (0xFFFF_FFFF_FFFF_FFFFu64 - d) / 10 {
                return None;
            }
            return int_digits(cs, i + 1, acc * 10 + d);
        }
    }
    Some((acc, i))
}

pub(crate) fn parse_int(cs: &Vec<char>, i: usize) -> (r: Option<(bool, u64, usize)>)
    requires
        i <= cs@.len(),
    ensures
        r is Some <==> spec_parse_int(cs@, i as int) is Some,
        r matches Some(p) ==> (spec_parse_int(cs@, i as int) matches Some(q)
            && (if p.0 { -(p.1 as int) } else { p.1 as int }) == q.0
            && p.2 as int == q.1 && i < p.2 <= cs@.len()),
{
    let neg = i < cs.len() && cs[i] == '-';
    let j = if neg { i + 1 } else { i };
    if j < cs.len() && {
        let u = cs[j] as u32;
        '0' as u32 <= u && u <= '9' as u32
    } {
        if cs[j] == '0' && j + 1 < cs.len() && {
            let u2 = cs[j + 1] as u32;
            '0' as u32 <= u2 && u2 <= '9' as u32
        } {
            None
        } else {
            match int_digits(cs, j, 0) {
                Some((v, k)) => {
                    if k < cs.len() && (cs[k] == '.' || cs[k] == 'e' || cs[k] == 'E') {
                        None
                    } else {
                        Some((neg, v, k))
                    }
                },
                None => None,
            }
        }
    } else {
        None
    }
}

/// First position at or after `i` holding no decimal digit.
pub open spec fn spec_skip_digits(s: Seq<char>, i: int) -> int
    decreases s.len() - i,
{
    if 0 <= i && i < s.len() && is_digit_char(s[i]) {
        spec_skip_digits(s, i + 1)
    } else {
        i
    }
}

pub(crate) fn exec_is_digit(c: char) -> (b: bool)
    ensures
        b == is_digit_char(c),
{
    let u = c as u32;
    '0' as u32 <= u && u <= '9' as u32
}

pub(crate) fn skip_digits(cs: &Vec<char>, i: usize) -> (j: usize)
    requires
        i <= cs@.len(),
    ensures
        j == spec_skip_digits(cs@, i as int),
        i <= j <= cs@.len(),
{
    let mut j = i;
    while j < cs.len() && exec_is_digit(cs[j])
        invariant
            i <= j <= cs@.len(),
            spec_skip_digits(cs@, i as int) == spec_skip_digits(cs@, j as int),
        decreases cs@.len() - j,
    {
        j = j + 1;
    }
    j
}

/// One JSON number in a skipped value, and the position after it: an
/// optional minus sign, an integer part with no leading zero, an optional
/// fraction with at least one digit, an optional signed exponent with at
/// least one digit. Anything looser is refused.
pub open spec fn spec_skip_number(s: Seq<char>, i: int) -> Option<int> {
    let j = if 0 <= i && i < s.len() && s[i] == '-' {
        i + 1
    } else {
        i
    };
    if 0 <= j && j < s.len() && is_digit_char(s[j]) {
        let k = if s[j] == '0' {
            j + 1
        } else {
            spec_skip_digits(s, j + 1)
        };
        let after_frac = if k < s.len() && s[k] == '.' {
            if k + 1 < s.len() && is_digit_char(s[k + 1]) {
                Some(spec_skip_digits(s, k + 2))
            } else {
                None
            }
        } else {
            Some(k)
        };
        match after_frac {
            Some(k2) => {
                if k2 < s.len() && (s[k2] == 'e' || s[k2] == 'E') {
                    let k3 = if k2 + 1 < s.len() && (s[k2 + 1] == '+' || s[k2 + 1] == '-') {
                        k2 + 2
                    } else {
                        k2 + 1
                    };
                    if k3 < s.len() && is_digit_char(s[k3]) {
                        Some(spec_skip_digits(s, k3 + 1))
                    } else {
                        None
                    }
                } else {
                    Some(k2)
                }
            },
            None => None,
        }
    } else {
        None
    }
}

pub(crate) fn skip_number(cs: &Vec<char>, i: usize) -> (r: Option<usize>)
    requires
        i <= cs@.len(),
    ensures
        r is Some <==> spec_skip_number(cs@, i as int) is Some,
        r matches Some(j) ==> spec_skip_number(cs@, i as int) == Some(j as int) && i < j
            <= cs@.len(),
{
    let j = if i < cs.len() && cs[i] == '-' {
        i + 1
    } else {
        i
    };
    if j < cs.len() && exec_is_digit(cs[j]) {
        let k = if cs[j] == '0' {
            j + 1
        } else {
            skip_digits(cs, j + 1)
        };
        let after_frac: Option<usize> = if k < cs.len() && cs[k] == '.' {
            if k + 1 < cs.len() && exec_is_digit(cs[k + 1]) {
                Some(skip_digits(cs, k + 2))
            } else {
                None
            }
        } else {
            Some(k)
        };
        match after_frac {
            Some(k2) => {
                if k2 < cs.len() && (cs[k2] == 'e' || cs[k2] == 'E') {
                    let k3 = if k2 + 1 < cs.len() && (cs[k2 + 1] == '+' || cs[k2 + 1] == '-') {
                        k2 + 2
                    } else {
                        k2 + 1
                    };
                    if k3 < cs.len() && exec_is_digit(cs[k3]) {
                        Some(skip_digits(cs, k3 + 1))
                    } else {
                        None
                    }
                } else {
                    Some(k2)
                }
            },
            None => None,
        }
    } else {
        None
    }
}

/// Position after one JSON value of any shape at `i`, or nothing if the text
/// there is not one. Guards that refuse a non-advancing sub-parse keep the
/// recursion well founded; a successful sub-parse always advances.
pub open spec fn spec_skip_value(s: Seq<char>, i: int) -> Option<int>
    decreases s.len() - i, 0int,
{
    if i < 0 || i >= s.len() {
        None
    } else {
        let c = s[i];
        if c == '"' {
            match spec_parse_string(s, i) {
                Some((_cs, j)) => Some(j),
                None => None,
            }
        } else if c == '{' {
            let j = spec_skip_ws(s, i + 1);
            if i < j && j <= s.len() {
                spec_skip_members(s, j)
            } else {
                None
            }
        } else if c == '[' {
            let j = spec_skip_ws(s, i + 1);
            if i < j && j <= s.len() {
                spec_skip_elements(s, j)
            } else {
                None
            }
        } else if c == 't' {
            if i + 4 <= s.len() && s[i + 1] == 'r' && s[i + 2] == 'u' && s[i + 3] == 'e' {
                Some(i + 4)
            } else {
                None
            }
        } else if c == 'f' {
            if i + 5 <= s.len() && s[i + 1] == 'a' && s[i + 2] == 'l' && s[i + 3] == 's'
                && s[i + 4] == 'e' {
                Some(i + 5)
            } else {
                None
            }
        } else if c == 'n' {
            if i + 4 <= s.len() && s[i + 1] == 'u' && s[i + 2] == 'l' && s[i + 3] == 'l' {
                Some(i + 4)
            } else {
                None
            }
        } else if c == '-' || is_digit_char(c) {
            spec_skip_number(s, i)
        } else {
            None
        }
    }
}

/// Members of a skipped object, starting at a key or the closing brace.
pub open spec fn spec_skip_members(s: Seq<char>, i: int) -> Option<int>
    decreases s.len() - i, 1int,
{
    if i < 0 || i >= s.len() {
        None
    } else if s[i] == '}' {
        Some(i + 1)
    } else {
        match spec_parse_string(s, i) {
            Some((_key, j)) => {
                let j2 = spec_skip_ws(s, j);
                if j2 < s.len() && s[j2] == ':' {
                    let k = spec_skip_ws(s, j2 + 1);
                    if i < k && k <= s.len() {
                        match spec_skip_value(s, k) {
                            Some(m) => {
                                let m2 = spec_skip_ws(s, m);
                                if m2 < s.len() && s[m2] == ',' {
                                    let n = spec_skip_ws(s, m2 + 1);
                                    if i < n && n <= s.len() && !(n < s.len() && s[n] == '}') {
                                        spec_skip_members(s, n)
                                    } else {
                                        None
                                    }
                                } else if m2 < s.len() && s[m2] == '}' {
                                    Some(m2 + 1)
                                } else {
                                    None
                                }
                            },
                            None => None,
                        }
                    } else {
                        None
                    }
                } else {
                    None
                }
            },
            None => None,
        }
    }
}

/// Elements of a skipped array, starting at a value or the closing bracket.
pub open spec fn spec_skip_elements(s: Seq<char>, i: int) -> Option<int>
    decreases s.len() - i, 1int,
{
    if i < 0 || i >= s.len() {
        None
    } else if s[i] == ']' {
        Some(i + 1)
    } else {
        match spec_skip_value(s, i) {
            Some(j) => {
                if i < j && j <= s.len() {
                    let j2 = spec_skip_ws(s, j);
                    if j2 < s.len() && s[j2] == ',' {
                        let n = spec_skip_ws(s, j2 + 1);
                        if i < n && n <= s.len() && !(n < s.len() && s[n] == ']') {
                            spec_skip_elements(s, n)
                        } else {
                            None
                        }
                    } else if j2 < s.len() && s[j2] == ']' {
                        Some(j2 + 1)
                    } else {
                        None
                    }
                } else {
                    None
                }
            },
            None => None,
        }
    }
}

pub(crate) fn skip_value(cs: &Vec<char>, i: usize) -> (r: Option<usize>)
    requires
        i <= cs@.len(),
    ensures
        r is Some <==> spec_skip_value(cs@, i as int) is Some,
        r matches Some(j) ==> spec_skip_value(cs@, i as int) == Some(j as int) && i <= j
            <= cs@.len(),
    decreases cs@.len() - i, 0int,
{
    if i >= cs.len() {
        return None;
    }
    let c = cs[i];
    if c == '"' {
        match parse_string(cs, i) {
            Some((_s, j)) => Some(j),
            None => None,
        }
    } else if c == '{' {
        let j = skip_ws(cs, i + 1);
        if i < j && j <= cs.len() {
            skip_members(cs, j)
        } else {
            None
        }
    } else if c == '[' {
        let j = skip_ws(cs, i + 1);
        if i < j && j <= cs.len() {
            skip_elements(cs, j)
        } else {
            None
        }
    } else if c == 't' {
        if cs.len() - i >= 4 && cs[i + 1] == 'r' && cs[i + 2] == 'u' && cs[i + 3] == 'e' {
            Some(i + 4)
        } else {
            None
        }
    } else if c == 'f' {
        if cs.len() - i >= 5 && cs[i + 1] == 'a' && cs[i + 2] == 'l' && cs[i + 3] == 's' && cs[i
            + 4] == 'e' {
            Some(i + 5)
        } else {
            None
        }
    } else if c == 'n' {
        if cs.len() - i >= 4 && cs[i + 1] == 'u' && cs[i + 2] == 'l' && cs[i + 3] == 'l' {
            Some(i + 4)
        } else {
            None
        }
    } else if c == '-' || {
        let u = c as u32;
        '0' as u32 <= u && u <= '9' as u32
    } {
        skip_number(cs, i)
    } else {
        None
    }
}

pub(crate) fn skip_members(cs: &Vec<char>, i: usize) -> (r: Option<usize>)
    requires
        i <= cs@.len(),
    ensures
        r is Some <==> spec_skip_members(cs@, i as int) is Some,
        r matches Some(j) ==> spec_skip_members(cs@, i as int) == Some(j as int) && i < j
            <= cs@.len(),
    decreases cs@.len() - i, 1int,
{
    if i >= cs.len() {
        return None;
    }
    if cs[i] == '}' {
        return Some(i + 1);
    }
    match parse_string(cs, i) {
        Some((_key, j)) => {
            let j2 = skip_ws(cs, j);
            if j2 < cs.len() && cs[j2] == ':' {
                let k = skip_ws(cs, j2 + 1);
                if i < k && k <= cs.len() {
                    match skip_value(cs, k) {
                        Some(m) => {
                            let m2 = skip_ws(cs, m);
                            if m2 < cs.len() && cs[m2] == ',' {
                                let n = skip_ws(cs, m2 + 1);
                                if i < n && n <= cs.len() && !(n < cs.len() && cs[n] == '}') {
                                    skip_members(cs, n)
                                } else {
                                    None
                                }
                            } else if m2 < cs.len() && cs[m2] == '}' {
                                Some(m2 + 1)
                            } else {
                                None
                            }
                        },
                        None => None,
                    }
                } else {
                    None
                }
            } else {
                None
            }
        },
        None => None,
    }
}

pub(crate) fn skip_elements(cs: &Vec<char>, i: usize) -> (r: Option<usize>)
    requires
        i <= cs@.len(),
    ensures
        r is Some <==> spec_skip_elements(cs@, i as int) is Some,
        r matches Some(j) ==> spec_skip_elements(cs@, i as int) == Some(j as int) && i < j
            <= cs@.len(),
    decreases cs@.len() - i, 1int,
{
    if i >= cs.len() {
        return None;
    }
    if cs[i] == ']' {
        return Some(i + 1);
    }
    match skip_value(cs, i) {
        Some(j) => {
            if i < j && j <= cs.len() {
                let j2 = skip_ws(cs, j);
                if j2 < cs.len() && cs[j2] == ',' {
                    let n = skip_ws(cs, j2 + 1);
                    if i < n && n <= cs.len() && !(n < cs.len() && cs[n] == ']') {
                        skip_elements(cs, n)
                    } else {
                        None
                    }
                } else if j2 < cs.len() && cs[j2] == ']' {
                    Some(j2 + 1)
                } else {
                    None
                }
            } else {
                None
            }
        },
        None => None,
    }
}

/// The characters of a text, for handing a payload to the decoder.
pub(crate) fn str_chars(s: &str) -> (v: Vec<char>)
    ensures
        v@ == s@,
{
    let n = s.unicode_len();
    let mut v: Vec<char> = Vec::new();
    let mut k: usize = 0;
    while k < n
        invariant
            k <= n,
            n == s@.len(),
            v@ == s@.subrange(0, k as int),
        decreases n - k,
    {
        let c = s.get_char(k);
        v.push(c);
        assert(v@ =~= s@.subrange(0, k + 1 as int));
        k = k + 1;
    }
    assert(v@ =~= s@);
    v
}

} // verus!

//! Parsing of what the service accepts from a request: the id path segment
//! (a decimal integer) and the JSON request body `{ "message": <string> }`.
//! Each parser has a spec-level grammar function and an executable parser
//! proved to follow it exactly.

use vstd::prelude::*;
use crate::chars::{char_from_u32, chars_eq, chars_to_string, str_chars};
use crate::store::Message;

verus! {

/// Whether a character is a decimal digit.
pub open spec fn is_digit(c: char) -> bool {
    48 <= c as u32 <= 57
}

/// The value of a decimal digit character.
pub open spec fn digit_val(c: char) -> int {
    c as u32 - 48
}

/// Whether every character of the text is a decimal digit.
pub open spec fn all_digits(s: Seq<char>) -> bool {
    forall|i: int| 0 <= i < s.len() ==> is_digit(#[trigger] s[i])
}

/// The number denoted by a digit string, most significant digit first.
pub open spec fn dec_val(s: Seq<char>) -> int
    decreases s.len(),
{
    if s.len() == 0 {
        0
    } else {
        dec_val(s.drop_last()) * 10 + digit_val(s.last())
    }
}

/// The digit part of an id segment: everything after an optional leading '+'.
pub open spec fn id_digits(s: Seq<char>) -> Seq<char> {
    if s.len() > 0 && s[0] == '+' {
        s.skip(1)
    } else {
        s
    }
}

/// The id grammar, as the unsigned integer grammar of the path parameter: an
/// optional leading '+', then one or more decimal digits whose value fits in
/// `usize`. Anything else (empty, a minus sign, other characters, an
/// overflowing value) is not a valid id.
pub open spec fn spec_parse_id(s: Seq<char>) -> Option<usize> {
    let t = id_digits(s);
    if t.len() > 0 && all_digits(t) && dec_val(t) <= usize::MAX {
        Some(dec_val(t) as usize)
    } else {
        None
    }
}

proof fn lemma_dec_val_nonneg(s: Seq<char>)
    requires
        all_digits(s),
    ensures
        dec_val(s) >= 0,
    decreases s.len(),
{
    if s.len() > 0 {
        assert(all_digits(s.drop_last()));
        lemma_dec_val_nonneg(s.drop_last());
    }
}

proof fn lemma_dec_val_extend(s: Seq<char>, k: int)
    requires
        0 <= k <= s.len(),
        all_digits(s),
    ensures
        dec_val(s) >= dec_val(s.take(k)),
    decreases s.len() - k,
{
    if k == s.len() {
        assert(s.take(k) =~= s);
    } else {
        assert(s.take(k + 1).drop_last() =~= s.take(k));
        assert(all_digits(s.take(k)));
        lemma_dec_val_nonneg(s.take(k));
        assert(dec_val(s.take(k + 1)) == dec_val(s.take(k)) * 10 + digit_val(s[k]));
        lemma_dec_val_extend(s, k + 1);
    }
}

/// Parses an id path segment. Returns the id exactly when the segment is a
/// digit string whose value fits in `usize`.
pub fn parse_id(s: &str) -> (r: Option<usize>)
    ensures
        r == spec_parse_id(s@),
{
    let v = str_chars(s);
    let ghost t = id_digits(s@);
    let start: usize = if v.len() > 0 && v[0] == '+' {
        1
    } else {
        0
    };
    proof {
        assert(t =~= v@.skip(start as int));
    }
    if v.len() == start {
        return None;
    }
    let mut acc: usize = 0;
    let mut i: usize = start;
    while i < v.len()
        invariant
            start <= i <= v@.len(),
            v@ == s@,
            t == id_digits(s@),
            t =~= v@.skip(start as int),
            forall|j: int| start <= j < i ==> is_digit(#[trigger] v@[j]),
            acc as int == dec_val(v@.subrange(start as int, i as int)),
        decreases v@.len() - i,
    {
        let u = v[i] as u32;
        if u < 48 || u > 57 {
            proof {
                assert(t[i - start] == v@[i as int]);
                assert(!is_digit(t[i - start]));
            }
            return None;
        }
        let d = (u - 48) as usize;
        proof {
            assert(v@.subrange(start as int, i + 1).drop_last() =~= v@.subrange(
                start as int,
                i as int,
            ));
            assert(v@.subrange(start as int, i + 1).last() == v@[i as int]);
        }
        if acc > (usize::MAX - d) / 10 {
            proof {
                assert(dec_val(v@.subrange(start as int, i + 1)) == acc * 10 + d);
                assert(acc * 10 + d > usize::MAX) by {
                    let lim = (usize::MAX - d) as int / 10;
                    assert((usize::MAX - d) as int == lim * 10 + (usize::MAX - d) as int % 10);
                    assert(acc >= lim + 1);
                    assert(acc * 10 >= (lim + 1) * 10) by (nonlinear_arith)
                        requires
                            acc >= lim + 1,
                    ;
                }
                if all_digits(t) {
                    lemma_dec_val_extend(t, i + 1 - start);
                    assert(t.take(i + 1 - start) =~= v@.subrange(start as int, i + 1));
                    assert(dec_val(t) > usize::MAX);
                }
            }
            return None;
        }
        acc = acc * 10 + d;
        i = i + 1;
    }
    proof {
        assert(v@.subrange(start as int, v@.len() as int) =~= t);
        assert(forall|j: int|
            0 <= j < t.len() ==> is_digit(#[trigger] t[j]) == is_digit(v@[j + start]));
        assert(all_digits(t));
    }
    Some(acc)
}

/// Whether a character is JSON whitespace.
pub open spec fn is_ws(c: char) -> bool {
    c == ' ' || c == '\t' || c == '\n' || c == '\r'
}

/// The first position at or after `i` holding no whitespace.
pub open spec fn skip_ws(s: Seq<char>, i: int) -> int
    decreases s.len() - i when 0 <= i <= s.len()
{
    if i < s.len() && is_ws(s[i]) {
        skip_ws(s, i + 1)
    } else {
        i
    }
}

/// Whether a character is a hexadecimal digit (either case).
pub open spec fn is_hex_digit(c: char) -> bool {
    48 <= c as u32 <= 57 || 97 <= c as u32 <= 102 || 65 <= c as u32 <= 70
}

/// The value of a hexadecimal digit character.
pub open spec fn hex_digit_val(c: char) -> int {
    if 48 <= c as u32 <= 57 {
        c as u32 - 48
    } else if 97 <= c as u32 <= 102 {
        c as u32 - 87
    } else {
        c as u32 - 55
    }
}

/// Whether four hexadecimal digits stand at position `i`.
pub open spec fn has_hex4(s: Seq<char>, i: int) -> bool {
    i + 4 <= s.len() && is_hex_digit(s[i]) && is_hex_digit(s[i + 1]) && is_hex_digit(s[i + 2])
        && is_hex_digit(s[i + 3])
}

/// The value of the four hexadecimal digits at position `i`.
pub open spec fn hex4_val(s: Seq<char>, i: int) -> int {
    ((hex_digit_val(s[i]) * 16 + hex_digit_val(s[i + 1])) * 16 + hex_digit_val(s[i + 2])) * 16
        + hex_digit_val(s[i + 3])
}

/// The character denoted by a single-character escape, if it is one.
pub open spec fn unescape_char(c: char) -> Option<char> {
    if c == '"' {
        Some('"')
    } else if c == '\\' {
        Some('\\')
    } else if c == '/' {
        Some('/')
    } else if c == 'n' {
        Some('\n')
    } else if c == 'r' {
        Some('\r')
    } else if c == 't' {
        Some('\t')
    } else if c == 'b' {
        Some('\u{0008}')
    } else if c == 'f' {
        Some('\u{000c}')
    } else {
        None
    }
}

/// The JSON string grammar, entered just after the opening quote: the decoded
/// characters up to the closing quote, and the position just after it. A
/// `\uXXXX` escape denotes the scalar with that code, and a surrogate pair of
/// two such escapes the scalar they encode; bare control characters, unknown
/// escapes, lone surrogates and a missing closing quote are rejected.
pub open spec fn parse_string_body(s: Seq<char>, i: int) -> Option<(Seq<char>, int)>
    decreases s.len() - i when 0 <= i <= s.len()
{
    if i >= s.len() {
        None
    } else if s[i] == '"' {
        Some((Seq::empty(), i + 1))
    } else if s[i] == '\\' {
        if i + 1 < s.len() {
            if s[i + 1] == 'u' {
                if has_hex4(s, i + 2) {
                    let x = hex4_val(s, i + 2);
                    if 0xD800 <= x <= 0xDBFF {
                        if i + 8 <= s.len() && s[i + 6] == '\\' && s[i + 7] == 'u' && has_hex4(
                            s,
                            i + 8,
                        ) && 0xDC00 <= hex4_val(s, i + 8) <= 0xDFFF {
                            match parse_string_body(s, i + 12) {
                                Some(p) => Some(
                                    (
                                        seq![
                                            (0x10000 + (x - 0xD800) * 0x400 + (hex4_val(s, i + 8)
                                                - 0xDC00)) as char
                                        ] + p.0,
                                        p.1,
                                    ),
                                ),
                                None => None,
                            }
                        } else {
                            None
                        }
                    } else if 0xDC00 <= x <= 0xDFFF {
                        None
                    } else {
                        match parse_string_body(s, i + 6) {
                            Some(p) => Some((seq![x as char] + p.0, p.1)),
                            None => None,
                        }
                    }
                } else {
                    None
                }
            } else {
                match unescape_char(s[i + 1]) {
                    Some(c) => match parse_string_body(s, i + 2) {
                        Some(p) => Some((seq![c] + p.0, p.1)),
                        None => None,
                    },
                    None => None,
                }
            }
        } else {
            None
        }
    } else if (s[i] as u32) < 0x20 {
        None
    } else {
        match parse_string_body(s, i + 1) {
            Some(p) => Some((seq![s[i]] + p.0, p.1)),
            None => None,
        }
    }
}

/// The first position at or after `i` holding no decimal digit.
pub open spec fn skip_digits(s: Seq<char>, i: int) -> int
    decreases s.len() - i when 0 <= i <= s.len()
{
    if i < s.len() && is_digit(s[i]) {
        skip_digits(s, i + 1)
    } else {
        i
    }
}

/// The fraction part of a JSON number, if one starts at `i`: a point must be
/// followed by at least one digit.
pub open spec fn skip_fraction(s: Seq<char>, i: int) -> Option<int> {
    if i < s.len() && s[i] == '.' {
        if i + 1 < s.len() && is_digit(s[i + 1]) {
            Some(skip_digits(s, i + 1))
        } else {
            None
        }
    } else {
        Some(i)
    }
}

/// The exponent part of a JSON number, if one starts at `i`: 'e' or 'E', an
/// optional sign, and at least one digit.
pub open spec fn skip_exponent(s: Seq<char>, i: int) -> Option<int> {
    if i < s.len() && (s[i] == 'e' || s[i] == 'E') {
        let a = if i + 1 < s.len() && (s[i + 1] == '+' || s[i + 1] == '-') {
            i + 2
        } else {
            i + 1
        };
        if a < s.len() && is_digit(s[a]) {
            Some(skip_digits(s, a))
        } else {
            None
        }
    } else {
        Some(i)
    }
}

/// The JSON number grammar: an optional minus sign, an integer part with no
/// leading zero, and optional fraction and exponent parts. Yields the
/// position just after the number.
pub open spec fn skip_number(s: Seq<char>, i: int) -> Option<int> {
    let a = if i < s.len() && s[i] == '-' {
        i + 1
    } else {
        i
    };
    if a < s.len() && is_digit(s[a]) {
        let b = if s[a] == '0' {
            a + 1
        } else {
            skip_digits(s, a)
        };
        match skip_fraction(s, b) {
            Some(c) => skip_exponent(s, c),
            None => None,
        }
    } else {
        None
    }
}

/// Whether the given literal text stands at position `i`.
pub open spec fn matches_lit(s: Seq<char>, i: int, lit: Seq<char>) -> bool {
    0 <= i && i + lit.len() <= s.len() && s.subrange(i, i + lit.len()) == lit
}

/// Any JSON value: a string, object, array, number, or one of the three
/// literals. Yields the position just after the value. The body parser steps
/// over the members a request body carries besides "message" with this.
pub open spec fn skip_value(s: Seq<char>, i: int) -> Option<int>
    decreases s.len() - i, 1int when 0 <= i <= s.len()
{
    if i >= s.len() {
        None
    } else if s[i] == '"' {
        match parse_string_body(s, i + 1) {
            Some(p) => Some(p.1),
            None => None,
        }
    } else if s[i] == '{' {
        skip_object_rest(s, i + 1)
    } else if s[i] == '[' {
        skip_array_rest(s, i + 1)
    } else if matches_lit(s, i, "true"@) {
        Some(i + 4)
    } else if matches_lit(s, i, "false"@) {
        Some(i + 5)
    } else if matches_lit(s, i, "null"@) {
        Some(i + 4)
    } else {
        skip_number(s, i)
    }
}

/// An object from just after its opening brace: either an immediate closing
/// brace or a member list.
pub open spec fn skip_object_rest(s: Seq<char>, i: int) -> Option<int>
    decreases s.len() - i, 3int when 0 <= i <= s.len()
{
    let j = skip_ws(s, i);
    if i <= j <= s.len() {
        if j < s.len() && s[j] == '}' {
            Some(j + 1)
        } else {
            skip_members(s, j)
        }
    } else {
        None
    }
}

/// An object's member list: a string key, a colon and a value, then either a
/// comma and another member or the closing brace.
pub open spec fn skip_members(s: Seq<char>, i: int) -> Option<int>
    decreases s.len() - i, 2int when 0 <= i <= s.len()
{
    if i < s.len() && s[i] == '"' {
        match parse_string_body(s, i + 1) {
            Some(kp) => if i < kp.1 <= s.len() {
                let a = skip_ws(s, kp.1);
                if kp.1 <= a && a < s.len() && s[a] == ':' {
                    let b = skip_ws(s, a + 1);
                    if a + 1 <= b <= s.len() {
                        match skip_value(s, b) {
                            Some(vend) => if b <= vend <= s.len() {
                                let c = skip_ws(s, vend);
                                if vend <= c && c < s.len() {
                                    if s[c] == ',' {
                                        let m = skip_ws(s, c + 1);
                                        if c + 1 <= m <= s.len() {
                                            skip_members(s, m)
                                        } else {
                                            None
                                        }
                                    } else if s[c] == '}' {
                                        Some(c + 1)
                                    } else {
                                        None
                                    }
                                } else {
                                    None
                                }
                            } else {
                                None
                            },
                            None => None,
                        }
                    } else {
                        None
                    }
                } else {
                    None
                }
            } else {
                None
            },
            None => None,
        }
    } else {
        None
    }
}

/// An array from just after its opening bracket: either an immediate closing
/// bracket or an element list.
pub open spec fn skip_array_rest(s: Seq<char>, i: int) -> Option<int>
    decreases s.len() - i, 3int when 0 <= i <= s.len()
{
    let j = skip_ws(s, i);
    if i <= j <= s.len() {
        if j < s.len() && s[j] == ']' {
            Some(j + 1)
        } else {
            skip_elements(s, j)
        }
    } else {
        None
    }
}

/// An array's element list: a value, then either a comma and another element
/// or the closing bracket.
pub open spec fn skip_elements(s: Seq<char>, i: int) -> Option<int>
    decreases s.len() - i, 2int when 0 <= i <= s.len()
{
    match skip_value(s, i) {
        Some(vend) => if i < vend <= s.len() {
            let c = skip_ws(s, vend);
            if vend <= c && c < s.len() {
                if s[c] == ',' {
                    let m = skip_ws(s, c + 1);
                    if c + 1 <= m <= s.len() {
                        skip_elements(s, m)
                    } else {
                        None
                    }
                } else if s[c] == ']' {
                    Some(c + 1)
                } else {
                    None
                }
            } else {
                None
            }
        } else {
            None
        },
        None => None,
    }
}

/// The member list of the request body object, read member by member: the
/// "message" member must appear exactly once and hold a string; any other
/// member is stepped over, whatever well-formed value it holds. `found`
/// carries the message seen so far. Yields the decoded message once the
/// closing brace and the end of the input are reached.
pub open spec fn parse_members(s: Seq<char>, i: int, found: Option<Seq<char>>) -> Option<Seq<char>>
    decreases s.len() - i, 1int when 0 <= i <= s.len()
{
    if i < s.len() && s[i] == '"' {
        match parse_string_body(s, i + 1) {
            Some(kp) => if i < kp.1 <= s.len() {
                let a = skip_ws(s, kp.1);
                if kp.1 <= a && a < s.len() && s[a] == ':' {
                    let b = skip_ws(s, a + 1);
                    if a + 1 <= b <= s.len() {
                        if kp.0 == "message"@ {
                            if found is Some {
                                None
                            } else if b < s.len() && s[b] == '"' {
                                match parse_string_body(s, b + 1) {
                                    Some(mp) => if b < mp.1 <= s.len() {
                                        parse_members_end(s, mp.1, Some(mp.0))
                                    } else {
                                        None
                                    },
                                    None => None,
                                }
                            } else {
                                None
                            }
                        } else {
                            match skip_value(s, b) {
                                Some(vend) => if b < vend <= s.len() {
                                    parse_members_end(s, vend, found)
                                } else {
                                    None
                                },
                                None => None,
                            }
                        }
                    } else {
                        None
                    }
                } else {
                    None
                }
            } else {
                None
            },
            None => None,
        }
    } else {
        None
    }
}

/// After a member's value: a comma and another member, or the closing brace,
/// after which only whitespace may remain and the message must have been
/// found.
pub open spec fn parse_members_end(s: Seq<char>, i: int, found: Option<Seq<char>>) -> Option<
    Seq<char>,
>
    decreases s.len() - i, 0int when 0 <= i <= s.len()
{
    let c = skip_ws(s, i);
    if i <= c && c < s.len() {
        if s[c] == ',' {
            let m = skip_ws(s, c + 1);
            if c + 1 <= m <= s.len() {
                parse_members(s, m, found)
            } else {
                None
            }
        } else if s[c] == '}' {
            if skip_ws(s, c + 1) == s.len() {
                found
            } else {
                None
            }
        } else {
            None
        }
    } else {
        None
    }
}

/// The request body grammar: a JSON object holding a "message" member with a
/// string value, anywhere among other members (which are stepped over), with
/// any whitespace around the tokens and nothing after the closing brace. A
/// missing or repeated "message" member, a non-string message value, or any
/// ill-formed piece rejects the body. Yields the decoded message text.
pub open spec fn spec_parse_message(s: Seq<char>) -> Option<Seq<char>> {
    let i0 = skip_ws(s, 0);
    if 0 <= i0 && i0 < s.len() && s[i0] == '{' {
        let i1 = skip_ws(s, i0 + 1);
        if i0 + 1 <= i1 <= s.len() {
            parse_members(s, i1, None)
        } else {
            None
        }
    } else {
        None
    }
}

/// The view of an optional character vector.
pub open spec fn opt_chars_view(o: Option<Vec<char>>) -> Option<Seq<char>> {
    match o {
        Some(f) => Some(f@),
        None => None,
    }
}

fn skip_ws_exec(v: &Vec<char>, i: usize) -> (j: usize)
    requires
        i <= v@.len(),
    ensures
        i <= j <= v@.len(),
        j as int == skip_ws(v@, i as int),
    decreases v@.len() - i,
{
    if i < v.len() {
        let c = v[i];
        if c == ' ' || c == '\t' || c == '\n' || c == '\r' {
            return skip_ws_exec(v, i + 1);
        }
    }
    i
}

fn unescape_exec(c: char) -> (r: Option<char>)
    ensures
        r == unescape_char(c),
{
    if c == '"' {
        Some('"')
    } else if c == '\\' {
        Some('\\')
    } else if c == '/' {
        Some('/')
    } else if c == 'n' {
        Some('\n')
    } else if c == 'r' {
        Some('\r')
    } else if c == 't' {
        Some('\t')
    } else if c == 'b' {
        Some('\u{0008}')
    } else if c == 'f' {
        Some('\u{000c}')
    } else {
        None
    }
}

fn hex_digit_value(c: char) -> (r: Option<u8>)
    ensures
        match r {
            Some(d) => is_hex_digit(c) && d as int == hex_digit_val(c) && d < 16,
            None => !is_hex_digit(c),
        },
{
    let u = c as u32;
    if 48 <= u && u <= 57 {
        Some((u - 48) as u8)
    } else if 97 <= u && u <= 102 {
        Some((u - 87) as u8)
    } else if 65 <= u && u <= 70 {
        Some((u - 55) as u8)
    } else {
        None
    }
}

fn read_hex4(v: &Vec<char>, i: usize) -> (r: Option<u32>)
    requires
        i <= v@.len(),
    ensures
        match r {
            Some(x) => has_hex4(v@, i as int) && x as int == hex4_val(v@, i as int) && x
                <= 0xFFFF,
            None => !has_hex4(v@, i as int),
        },
{
    if v.len() - i < 4 {
        return None;
    }
    let d0 = match hex_digit_value(v[i]) {
        Some(d) => d,
        None => {
            return None;
        },
    };
    let d1 = match hex_digit_value(v[i + 1]) {
        Some(d) => d,
        None => {
            return None;
        },
    };
    let d2 = match hex_digit_value(v[i + 2]) {
        Some(d) => d,
        None => {
            return None;
        },
    };
    let d3 = match hex_digit_value(v[i + 3]) {
        Some(d) => d,
        None => {
            return None;
        },
    };
    Some(((d0 as u32 * 16 + d1 as u32) * 16 + d2 as u32) * 16 + d3 as u32)
}

fn parse_string_at(v: &Vec<char>, i: usize) -> (r: Option<(Vec<char>, usize)>)
    requires
        i <= v@.len(),
    ensures
        match parse_string_body(v@, i as int) {
            Some(p) => r matches Some(q) && q.0@ == p.0 && q.1 as int == p.1 && i < q.1
                <= v@.len(),
            None => r is None,
        },
    decreases v@.len() - i,
{
    if i >= v.len() {
        return None;
    }
    let c = v[i];
    if c == '"' {
        let out: Vec<char> = Vec::new();
        proof {
            assert(out@ =~= Seq::<char>::empty());
        }
        Some((out, i + 1))
    } else if c == '\\' {
        if i + 1 < v.len() {
            if v[i + 1] == 'u' {
                match read_hex4(v, i + 2) {
                    Some(x) => {
                        if 0xD800 <= x && x <= 0xDBFF {
                            if v.len() - i >= 8 && v[i + 6] == '\\' && v[i + 7] == 'u' {
                                match read_hex4(v, i + 8) {
                                    Some(y) => {
                                        if 0xDC00 <= y && y <= 0xDFFF {
                                            let cp = 0x10000 + (x - 0xD800) * 0x400 + (y - 0xDC00);
                                            let u = match char_from_u32(cp) {
                                                Some(u) => u,
                                                None => {
                                                    proof {
                                                        assert(false);
                                                    }
                                                    return None;
                                                },
                                            };
                                            match parse_string_at(v, i + 12) {
                                                Some((mut rest, e)) => {
                                                    rest.insert(0, u);
                                                    proof {
                                                        let p = parse_string_body(
                                                            v@,
                                                            i as int,
                                                        ).unwrap();
                                                        assert(u as u32 == cp);
                                                        assert(rest@ =~= p.0);
                                                    }
                                                    Some((rest, e))
                                                },
                                                None => None,
                                            }
                                        } else {
                                            None
                                        }
                                    },
                                    None => None,
                                }
                            } else {
                                None
                            }
                        } else if 0xDC00 <= x && x <= 0xDFFF {
                            None
                        } else {
                            let u = match char_from_u32(x) {
                                Some(u) => u,
                                None => {
                                    proof {
                                        assert(false);
                                    }
                                    return None;
                                },
                            };
                            match parse_string_at(v, i + 6) {
                                Some((mut rest, e)) => {
                                    rest.insert(0, u);
                                    proof {
                                        let p = parse_string_body(v@, i as int).unwrap();
                                        assert(u as u32 == x);
                                        assert(rest@ =~= p.0);
                                    }
                                    Some((rest, e))
                                },
                                None => None,
                            }
                        }
                    },
                    None => None,
                }
            } else {
                match unescape_exec(v[i + 1]) {
                    Some(u) => match parse_string_at(v, i + 2) {
                        Some((mut rest, e)) => {
                            rest.insert(0, u);
                            proof {
                                let p = parse_string_body(v@, i as int).unwrap();
                                assert(rest@ =~= p.0);
                            }
                            Some((rest, e))
                        },
                        None => None,
                    },
                    None => None,
                }
            }
        } else {
            None
        }
    } else if (c as u32) < 0x20 {
        None
    } else {
        match parse_string_at(v, i + 1) {
            Some((mut rest, e)) => {
                rest.insert(0, c);
                proof {
                    let p = parse_string_body(v@, i as int).unwrap();
                    assert(rest@ =~= p.0);
                }
                Some((rest, e))
            },
            None => None,
        }
    }
}

fn skip_digits_exec(v: &Vec<char>, i: usize) -> (j: usize)
    requires
        i <= v@.len(),
    ensures
        i <= j <= v@.len(),
        j as int == skip_digits(v@, i as int),
    decreases v@.len() - i,
{
    if i < v.len() {
        let u = v[i] as u32;
        if 48 <= u && u <= 57 {
            return skip_digits_exec(v, i + 1);
        }
    }
    i
}

fn skip_number_exec(v: &Vec<char>, i: usize) -> (r: Option<usize>)
    requires
        i <= v@.len(),
    ensures
        match skip_number(v@, i as int) {
            Some(e) => r matches Some(j) && j as int == e && i < j <= v@.len(),
            None => r is None,
        },
{
    let a = if i < v.len() && v[i] == '-' {
        i + 1
    } else {
        i
    };
    if a >= v.len() {
        return None;
    }
    let u = v[a] as u32;
    if !(48 <= u && u <= 57) {
        return None;
    }
    let b = if v[a] == '0' {
        a + 1
    } else {
        proof {
            assert(skip_digits(v@, a as int) == skip_digits(v@, a + 1));
        }
        skip_digits_exec(v, a + 1)
    };
    let c = if b < v.len() && v[b] == '.' {
        if b + 1 < v.len() {
            let u2 = v[b + 1] as u32;
            if 48 <= u2 && u2 <= 57 {
                skip_digits_exec(v, b + 1)
            } else {
                return None;
            }
        } else {
            return None;
        }
    } else {
        b
    };
    if c < v.len() && (v[c] == 'e' || v[c] == 'E') {
        let a2 = if c + 1 < v.len() && (v[c + 1] == '+' || v[c + 1] == '-') {
            c + 2
        } else {
            c + 1
        };
        if a2 < v.len() {
            let u3 = v[a2] as u32;
            if 48 <= u3 && u3 <= 57 {
                Some(skip_digits_exec(v, a2))
            } else {
                None
            }
        } else {
            None
        }
    } else {
        Some(c)
    }
}

fn lit_at(v: &Vec<char>, i: usize, lit: &str) -> (r: bool)
    requires
        i <= v@.len(),
    ensures
        r == matches_lit(v@, i as int, lit@),
{
    let n = lit.unicode_len();
    if v.len() - i < n {
        return false;
    }
    let mut k: usize = 0;
    while k < n
        invariant
            n == lit@.len(),
            i + n <= v@.len(),
            v@.len() <= usize::MAX,
            0 <= k <= n,
            forall|j: int| 0 <= j < k ==> v@[i + j] == lit@[j],
        decreases n - k,
    {
        proof {
            assert(i + k < v@.len());
        }
        if v[i + k] != lit.get_char(k) {
            proof {
                assert(v@.subrange(i as int, i + n)[k as int] == v@[i + k]);
            }
            return false;
        }
        k = k + 1;
    }
    proof {
        assert(v@.subrange(i as int, i + n) =~= lit@);
    }
    true
}

fn skip_value_exec(v: &Vec<char>, i: usize) -> (r: Option<usize>)
    requires
        i <= v@.len(),
    ensures
        match skip_value(v@, i as int) {
            Some(e) => r matches Some(j) && j as int == e && i < j <= v@.len(),
            None => r is None,
        },
    decreases v@.len() - i, 1int,
{
    if i >= v.len() {
        return None;
    }
    let c = v[i];
    if c == '"' {
        match parse_string_at(v, i + 1) {
            Some((_content, e)) => Some(e),
            None => None,
        }
    } else if c == '{' {
        skip_object_rest_exec(v, i + 1)
    } else if c == '[' {
        skip_array_rest_exec(v, i + 1)
    } else if lit_at(v, i, "true") {
        proof {
            reveal_strlit("true");
        }
        Some(i + 4)
    } else if lit_at(v, i, "false") {
        proof {
            reveal_strlit("false");
        }
        Some(i + 5)
    } else if lit_at(v, i, "null") {
        proof {
            reveal_strlit("null");
        }
        Some(i + 4)
    } else {
        skip_number_exec(v, i)
    }
}

fn skip_object_rest_exec(v: &Vec<char>, i: usize) -> (r: Option<usize>)
    requires
        i <= v@.len(),
    ensures
        match skip_object_rest(v@, i as int) {
            Some(e) => r matches Some(j) && j as int == e && i < j <= v@.len(),
            None => r is None,
        },
    decreases v@.len() - i, 3int,
{
    let j = skip_ws_exec(v, i);
    if j < v.len() && v[j] == '}' {
        Some(j + 1)
    } else {
        skip_members_exec(v, j)
    }
}

fn skip_members_exec(v: &Vec<char>, i: usize) -> (r: Option<usize>)
    requires
        i <= v@.len(),
    ensures
        match skip_members(v@, i as int) {
            Some(e) => r matches Some(j) && j as int == e && i < j <= v@.len(),
            None => r is None,
        },
    decreases v@.len() - i, 2int,
{
    if i >= v.len() {
        return None;
    }
    if v[i] != '"' {
        return None;
    }
    let kend = match parse_string_at(v, i + 1) {
        Some((_key, kend)) => kend,
        None => {
            return None;
        },
    };
    let a = skip_ws_exec(v, kend);
    if a >= v.len() {
        return None;
    }
    if v[a] != ':' {
        return None;
    }
    let b = skip_ws_exec(v, a + 1);
    let vend = match skip_value_exec(v, b) {
        Some(e) => e,
        None => {
            return None;
        },
    };
    let c = skip_ws_exec(v, vend);
    if c >= v.len() {
        return None;
    }
    if v[c] == ',' {
        let m = skip_ws_exec(v, c + 1);
        skip_members_exec(v, m)
    } else if v[c] == '}' {
        Some(c + 1)
    } else {
        None
    }
}

fn skip_array_rest_exec(v: &Vec<char>, i: usize) -> (r: Option<usize>)
    requires
        i <= v@.len(),
    ensures
        match skip_array_rest(v@, i as int) {
            Some(e) => r matches Some(j) && j as int == e && i < j <= v@.len(),
            None => r is None,
        },
    decreases v@.len() - i, 3int,
{
    let j = skip_ws_exec(v, i);
    if j < v.len() && v[j] == ']' {
        Some(j + 1)
    } else {
        skip_elements_exec(v, j)
    }
}

fn skip_elements_exec(v: &Vec<char>, i: usize) -> (r: Option<usize>)
    requires
        i <= v@.len(),
    ensures
        match skip_elements(v@, i as int) {
            Some(e) => r matches Some(j) && j as int == e && i < j <= v@.len(),
            None => r is None,
        },
    decreases v@.len() - i, 2int,
{
    let vend = match skip_value_exec(v, i) {
        Some(e) => e,
        None => {
            return None;
        },
    };
    let c = skip_ws_exec(v, vend);
    if c >= v.len() {
        return None;
    }
    if v[c] == ',' {
        let m = skip_ws_exec(v, c + 1);
        skip_elements_exec(v, m)
    } else if v[c] == ']' {
        Some(c + 1)
    } else {
        None
    }
}

fn parse_members_exec(v: &Vec<char>, i: usize, found: Option<Vec<char>>) -> (r: Option<Vec<char>>)
    requires
        i <= v@.len(),
    ensures
        match parse_members(v@, i as int, opt_chars_view(found)) {
            Some(m) => r matches Some(out) && out@ == m,
            None => r is None,
        },
    decreases v@.len() - i, 1int,
{
    if i >= v.len() {
        return None;
    }
    if v[i] != '"' {
        return None;
    }
    let (key, kend) = match parse_string_at(v, i + 1) {
        Some(kp) => kp,
        None => {
            return None;
        },
    };
    let a = skip_ws_exec(v, kend);
    if a >= v.len() {
        return None;
    }
    if v[a] != ':' {
        return None;
    }
    let b = skip_ws_exec(v, a + 1);
    let expected = str_chars("message");
    if chars_eq(&key, &expected) {
        if found.is_some() {
            return None;
        }
        if b >= v.len() {
            return None;
        }
        if v[b] != '"' {
            return None;
        }
        let (msg, mend) = match parse_string_at(v, b + 1) {
            Some(mp) => mp,
            None => {
                return None;
            },
        };
        parse_members_end_exec(v, mend, Some(msg))
    } else {
        let vend = match skip_value_exec(v, b) {
            Some(e) => e,
            None => {
                return None;
            },
        };
        parse_members_end_exec(v, vend, found)
    }
}

fn parse_members_end_exec(v: &Vec<char>, i: usize, found: Option<Vec<char>>) -> (r: Option<
    Vec<char>,
>)
    requires
        i <= v@.len(),
    ensures
        match parse_members_end(v@, i as int, opt_chars_view(found)) {
            Some(m) => r matches Some(out) && out@ == m,
            None => r is None,
        },
    decreases v@.len() - i, 0int,
{
    let c = skip_ws_exec(v, i);
    if c >= v.len() {
        return None;
    }
    if v[c] == ',' {
        let m = skip_ws_exec(v, c + 1);
        parse_members_exec(v, m, found)
    } else if v[c] == '}' {
        let e = skip_ws_exec(v, c + 1);
        if e == v.len() {
            found
        } else {
            None
        }
    } else {
        None
    }
}

/// Parses a request body. Returns the message exactly when the body is a
/// well-formed JSON object with a "message" string member (other members are
/// allowed and ignored).
pub fn parse_message(s: &str) -> (r: Option<Message>)
    ensures
        match spec_parse_message(s@) {
            Some(m) => r matches Some(msg) && msg.message@ == m,
            None => r is None,
        },
{
    let v = str_chars(s);
    let i0 = skip_ws_exec(&v, 0);
    if !(i0 < v.len() && v[i0] == '{') {
        return None;
    }
    let i1 = skip_ws_exec(&v, i0 + 1);
    match parse_members_exec(&v, i1, None) {
        Some(msg) => Some(Message { message: chars_to_string(&msg) }),
        None => None,
    }
}

} // verus!

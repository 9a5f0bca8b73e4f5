//! JSON encoding of the service's response bodies. Every body shape the
//! service produces has a spec function giving its exact character sequence,
//! and an executable builder proved to produce it.

use vstd::prelude::*;
use crate::chars::{append_str, chars_to_string, str_chars};
use crate::store::Greeting;

verus! {

/// The decimal digit character for a value 0 ..= 9.
pub open spec fn digit_char(d: int) -> char {
    if d == 0 {
        '0'
    } else if d == 1 {
        '1'
    } else if d == 2 {
        '2'
    } else if d == 3 {
        '3'
    } else if d == 4 {
        '4'
    } else if d == 5 {
        '5'
    } else if d == 6 {
        '6'
    } else if d == 7 {
        '7'
    } else if d == 8 {
        '8'
    } else {
        '9'
    }
}

/// The lower-case hexadecimal digit character for a value 0 ..= 15.
pub open spec fn hex_char(d: int) -> char {
    if d < 10 {
        digit_char(d)
    } else if d == 10 {
        'a'
    } else if d == 11 {
        'b'
    } else if d == 12 {
        'c'
    } else if d == 13 {
        'd'
    } else if d == 14 {
        'e'
    } else {
        'f'
    }
}

/// The usual decimal rendering of a natural number, most significant digit
/// first, with no leading zeros (zero itself is "0").
pub open spec fn dec_digits(n: nat) -> Seq<char>
    decreases n,
{
    if n < 10 {
        seq![digit_char(n as int)]
    } else {
        dec_digits(n / 10).push(digit_char((n % 10) as int))
    }
}

/// How one character is written inside a JSON string: quote, backslash and
/// the common control characters get a named escape, the remaining control
/// characters a \u00XX escape, and everything else stands as itself.
pub open spec fn escape_char(c: char) -> Seq<char> {
    if c == '"' {
        "\\\""@
    } else if c == '\\' {
        "\\\\"@
    } else if c == '\n' {
        "\\n"@
    } else if c == '\r' {
        "\\r"@
    } else if c == '\t' {
        "\\t"@
    } else if (c as u32) < 0x20 {
        "\\u00"@ + seq![hex_char((c as u32 / 16) as int), hex_char((c as u32 % 16) as int)]
    } else {
        seq![c]
    }
}

/// A whole text with each character escaped.
pub open spec fn escape_string(s: Seq<char>) -> Seq<char>
    decreases s.len(),
{
    if s.len() == 0 {
        Seq::empty()
    } else {
        escape_string(s.drop_last()) + escape_char(s.last())
    }
}

/// A JSON string literal: the escaped text between double quotes.
pub open spec fn json_string(s: Seq<char>) -> Seq<char> {
    "\""@ + escape_string(s) + "\""@
}

/// The JSON body of a single greeting record.
pub open spec fn greeting_json(id: Option<usize>, msg: Seq<char>) -> Seq<char> {
    "{\"id\":"@ + (match id {
        Some(n) => dec_digits(n as nat),
        None => "null"@,
    }) + ",\"message\":"@ + json_string(msg) + "}"@
}

/// The comma-separated items of the list body: entry `i` rendered with id
/// `i + 1`.
pub open spec fn list_items(msgs: Seq<Seq<char>>) -> Seq<char>
    decreases msgs.len(),
{
    if msgs.len() == 0 {
        Seq::empty()
    } else if msgs.len() == 1 {
        greeting_json(Some(1usize), msgs[0])
    } else {
        list_items(msgs.drop_last()) + ","@ + greeting_json(
            Some(msgs.len() as usize),
            msgs.last(),
        )
    }
}

/// The JSON array holding every record of a store with the given model.
pub open spec fn list_json(msgs: Seq<Seq<char>>) -> Seq<char> {
    "["@ + list_items(msgs) + "]"@
}

/// One `"key":"value"` member of a JSON object.
pub open spec fn pair_item(k: Seq<char>, v: Seq<char>) -> Seq<char> {
    json_string(k) + ":"@ + json_string(v)
}

/// The comma-separated members of a JSON object, in the order given.
pub open spec fn obj_items(ps: Seq<(Seq<char>, Seq<char>)>) -> Seq<char>
    decreases ps.len(),
{
    if ps.len() == 0 {
        Seq::empty()
    } else if ps.len() == 1 {
        pair_item(ps[0].0, ps[0].1)
    } else {
        obj_items(ps.drop_last()) + ","@ + pair_item(ps.last().0, ps.last().1)
    }
}

/// The environment snapshot body: the captured variables under "evar".
pub open spec fn evar_json(ps: Seq<(Seq<char>, Seq<char>)>) -> Seq<char> {
    "{\"evar\":{"@ + obj_items(ps) + "}}"@
}

/// The hostname body.
pub open spec fn hostinfo_json(h: Seq<char>) -> Seq<char> {
    "{\"hostname\":"@ + json_string(h) + "}"@
}

/// The version body.
pub open spec fn version_json(v: Seq<char>) -> Seq<char> {
    "{\"version\":"@ + json_string(v) + "}"@
}

/// The health check body.
pub open spec fn health_json() -> Seq<char> {
    "{\"status\":\"200\",\"message\":\"OK\"}"@
}

/// The uniform body of every 404 response.
pub open spec fn not_found_json() -> Seq<char> {
    "{\"status\":\"404\",\"reason\":\"Resource was not found.\"}"@
}

/// The view of a vector of string pairs.
pub open spec fn pairs_view(ps: Seq<(String, String)>) -> Seq<(Seq<char>, Seq<char>)> {
    ps.map_values(|p: (String, String)| (p.0@, p.1@))
}

fn digit_char_exec(d: u8) -> (c: char)
    requires
        d < 10,
    ensures
        c == digit_char(d as int),
{
    if d == 0 {
        '0'
    } else if d == 1 {
        '1'
    } else if d == 2 {
        '2'
    } else if d == 3 {
        '3'
    } else if d == 4 {
        '4'
    } else if d == 5 {
        '5'
    } else if d == 6 {
        '6'
    } else if d == 7 {
        '7'
    } else if d == 8 {
        '8'
    } else {
        '9'
    }
}

fn hex_char_exec(d: u8) -> (c: char)
    requires
        d < 16,
    ensures
        c == hex_char(d as int),
{
    if d < 10 {
        digit_char_exec(d)
    } else if d == 10 {
        'a'
    } else if d == 11 {
        'b'
    } else if d == 12 {
        'c'
    } else if d == 13 {
        'd'
    } else if d == 14 {
        'e'
    } else {
        'f'
    }
}

/// Appends the decimal rendering of `n`.
fn push_dec(out: &mut Vec<char>, n: usize)
    ensures
        final(out)@ == old(out)@ + dec_digits(n as nat),
    decreases n,
{
    if n < 10 {
        out.push(digit_char_exec(n as u8));
        proof {
            assert(out@ =~= old(out)@ + dec_digits(n as nat));
        }
    } else {
        push_dec(out, n / 10);
        out.push(digit_char_exec((n % 10) as u8));
        proof {
            assert(out@ =~= old(out)@ + dec_digits(n as nat));
        }
    }
}

/// Appends the escape sequence of one character.
fn push_escaped_char(out: &mut Vec<char>, c: char)
    ensures
        final(out)@ == old(out)@ + escape_char(c),
{
    if c == '"' {
        append_str(out, "\\\"");
    } else if c == '\\' {
        append_str(out, "\\\\");
    } else if c == '\n' {
        append_str(out, "\\n");
    } else if c == '\r' {
        append_str(out, "\\r");
    } else if c == '\t' {
        append_str(out, "\\t");
    } else if (c as u32) < 0x20 {
        let v = c as u32;
        append_str(out, "\\u00");
        out.push(hex_char_exec((v / 16) as u8));
        out.push(hex_char_exec((v % 16) as u8));
        proof {
            assert(out@ =~= old(out)@ + escape_char(c));
        }
    } else {
        out.push(c);
        proof {
            assert(out@ =~= old(out)@ + escape_char(c));
        }
    }
}

/// Appends the whole text with each character escaped.
fn push_escaped(out: &mut Vec<char>, s: &Vec<char>)
    ensures
        final(out)@ == old(out)@ + escape_string(s@),
{
    let mut i: usize = 0;
    while i < s.len()
        invariant
            0 <= i <= s@.len(),
            out@ == old(out)@ + escape_string(s@.take(i as int)),
        decreases s@.len() - i,
    {
        push_escaped_char(out, s[i]);
        proof {
            assert(s@.take(i + 1).drop_last() =~= s@.take(i as int));
            assert(s@.take(i + 1).last() == s@[i as int]);
            assert(out@ =~= old(out)@ + escape_string(s@.take(i + 1)));
        }
        i = i + 1;
    }
    proof {
        assert(s@.take(s@.len() as int) =~= s@);
    }
}

/// Appends a JSON string literal holding the given characters.
fn push_json_string(out: &mut Vec<char>, s: &Vec<char>)
    ensures
        final(out)@ == old(out)@ + json_string(s@),
{
    append_str(out, "\"");
    push_escaped(out, s);
    append_str(out, "\"");
    proof {
        assert(out@ =~= old(out)@ + json_string(s@));
    }
}

/// Appends the JSON body of one greeting record.
fn push_greeting(out: &mut Vec<char>, g: &Greeting)
    ensures
        final(out)@ == old(out)@ + greeting_json(g.id, g.message@),
{
    append_str(out, "{\"id\":");
    match g.id {
        Some(n) => push_dec(out, n),
        None => append_str(out, "null"),
    }
    append_str(out, ",\"message\":");
    let msg = str_chars(g.message.as_str());
    push_json_string(out, &msg);
    append_str(out, "}");
    proof {
        assert(out@ =~= old(out)@ + greeting_json(g.id, g.message@));
    }
}

/// The JSON body of one greeting record, as a string.
pub fn greeting_to_json(g: &Greeting) -> (s: String)
    ensures
        s@ == greeting_json(g.id, g.message@),
{
    let mut out: Vec<char> = Vec::new();
    push_greeting(&mut out, g);
    proof {
        assert(out@ =~= greeting_json(g.id, g.message@));
    }
    chars_to_string(&out)
}

/// The JSON array body for a listing, given the records in id order.
pub fn list_to_json(v: &Vec<Greeting>) -> (s: String)
    requires
        forall|i: int| 0 <= i < v@.len() ==> (#[trigger] v@[i]).id == Some((i + 1) as usize),
    ensures
        s@ == list_json(v@.map_values(|g: Greeting| g.message@)),
{
    let ghost msgs = v@.map_values(|g: Greeting| g.message@);
    let mut out: Vec<char> = Vec::new();
    append_str(&mut out, "[");
    let mut i: usize = 0;
    while i < v.len()
        invariant
            0 <= i <= v@.len(),
            msgs == v@.map_values(|g: Greeting| g.message@),
            msgs.len() == v@.len(),
            forall|j: int| 0 <= j < v@.len() ==> (#[trigger] v@[j]).id == Some((j + 1) as usize),
            out@ == "["@ + list_items(msgs.take(i as int)),
        decreases v@.len() - i,
    {
        if i > 0 {
            append_str(&mut out, ",");
        }
        push_greeting(&mut out, &v[i]);
        proof {
            assert(msgs.take(i + 1).drop_last() =~= msgs.take(i as int));
            assert(msgs.take(i + 1).last() == msgs[i as int]);
            assert(msgs[i as int] == v@[i as int].message@);
            if i == 0 {
                assert(list_items(msgs.take(1)) == greeting_json(Some(1usize), msgs[0]));
            } else {
                assert(msgs.take(i + 1).len() == i + 1);
                assert(list_items(msgs.take(i + 1)) == list_items(msgs.take(i as int)) + ","@
                    + greeting_json(Some((i + 1) as usize), msgs[i as int]));
            }
            assert(out@ =~= "["@ + list_items(msgs.take(i + 1)));
        }
        i = i + 1;
    }
    append_str(&mut out, "]");
    proof {
        assert(msgs.take(msgs.len() as int) =~= msgs);
        assert(out@ =~= list_json(msgs));
    }
    chars_to_string(&out)
}

/// The environment snapshot body, with the pairs in the order given.
pub fn evar_to_json(pairs: &Vec<(String, String)>) -> (s: String)
    ensures
        s@ == evar_json(pairs_view(pairs@)),
{
    let ghost ps = pairs_view(pairs@);
    let mut out: Vec<char> = Vec::new();
    append_str(&mut out, "{\"evar\":{");
    let mut i: usize = 0;
    while i < pairs.len()
        invariant
            0 <= i <= pairs@.len(),
            ps == pairs_view(pairs@),
            ps.len() == pairs@.len(),
            out@ == "{\"evar\":{"@ + obj_items(ps.take(i as int)),
        decreases pairs@.len() - i,
    {
        if i > 0 {
            append_str(&mut out, ",");
        }
        let k = str_chars(pairs[i].0.as_str());
        let v = str_chars(pairs[i].1.as_str());
        push_json_string(&mut out, &k);
        append_str(&mut out, ":");
        push_json_string(&mut out, &v);
        proof {
            assert(ps.take(i + 1).drop_last() =~= ps.take(i as int));
            assert(ps.take(i + 1).last() == ps[i as int]);
            assert(ps[i as int] == (pairs@[i as int].0@, pairs@[i as int].1@));
            if i == 0 {
                assert(obj_items(ps.take(1)) == pair_item(ps[0].0, ps[0].1));
            } else {
                assert(obj_items(ps.take(i + 1)) == obj_items(ps.take(i as int)) + ","@
                    + pair_item(ps[i as int].0, ps[i as int].1));
            }
            assert(out@ =~= "{\"evar\":{"@ + obj_items(ps.take(i + 1)));
        }
        i = i + 1;
    }
    append_str(&mut out, "}}");
    proof {
        assert(ps.take(ps.len() as int) =~= ps);
        assert(out@ =~= evar_json(ps));
    }
    chars_to_string(&out)
}

/// The hostname body.
pub fn hostinfo_to_json(h: &str) -> (s: String)
    ensures
        s@ == hostinfo_json(h@),
{
    let mut out: Vec<char> = Vec::new();
    append_str(&mut out, "{\"hostname\":");
    let hc = str_chars(h);
    push_json_string(&mut out, &hc);
    append_str(&mut out, "}");
    proof {
        assert(out@ =~= hostinfo_json(h@));
    }
    chars_to_string(&out)
}

/// The version body.
pub fn version_to_json(v: &str) -> (s: String)
    ensures
        s@ == version_json(v@),
{
    let mut out: Vec<char> = Vec::new();
    append_str(&mut out, "{\"version\":");
    let vc = str_chars(v);
    push_json_string(&mut out, &vc);
    append_str(&mut out, "}");
    proof {
        assert(out@ =~= version_json(v@));
    }
    chars_to_string(&out)
}

} // verus!

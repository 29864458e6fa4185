//! JSON documents: what they are and how they are written.
use vstd::prelude::*;

use crate::text;

verus! {

/// A JSON document, as far as this library writes one.
pub enum Json {
    Bool(bool),
    Num(nat),
    Str(Seq<char>),
    Arr(Seq<Json>),
    Obj(Seq<(Seq<char>, Json)>),
}

/// The character of a hexadecimal digit, in lower case.
pub open spec fn hex_digit(d: nat) -> char {
    if d < 10 {
        (48 + d) as char
    } else {
        (87 + d) as char
    }
}

/// How `c` is written inside a JSON string.
pub open spec fn escape_char(c: char) -> Seq<char> {
    if c == '"' {
        seq!['\\', '"']
    } else if c == '\\' {
        seq!['\\', '\\']
    } else if c == '\n' {
        seq!['\\', 'n']
    } else if c == '\r' {
        seq!['\\', 'r']
    } else if c == '\t' {
        seq!['\\', 't']
    } else if (c as nat) < 0x20 {
        seq!['\\', 'u', '0', '0', hex_digit(c as nat / 16), hex_digit(c as nat % 16)]
    } else {
        seq![c]
    }
}

/// How `s` is written inside a JSON string, without the quotes.
pub open spec fn escape(s: Seq<char>) -> Seq<char>
    decreases s.len(),
{
    if s.len() == 0 {
        Seq::empty()
    } else {
        escape(s.drop_last()) + escape_char(s.last())
    }
}

/// `s` as a JSON string, quotes and all.
pub open spec fn quoted(s: Seq<char>) -> Seq<char> {
    seq!['"'] + escape(s) + seq!['"']
}

/// What stands between the members or items written so far, `n` of them, and the next.
pub open spec fn separator(n: nat) -> Seq<char> {
    if n == 0 {
        Seq::empty()
    } else {
        seq![',']
    }
}

/// The text of a document.
pub open spec fn render(j: Json) -> Seq<char>
    decreases j,
{
    match j {
        Json::Bool(b) => if b {
            "true"@
        } else {
            "false"@
        },
        Json::Num(n) => text::decimal(n),
        Json::Str(s) => quoted(s),
        Json::Arr(items) => seq!['['] + render_items(items) + seq![']'],
        Json::Obj(members) => seq!['{'] + render_members(members) + seq!['}'],
    }
}

/// The text of the items of an array, separated by commas.
pub open spec fn render_items(items: Seq<Json>) -> Seq<char>
    decreases items,
{
    if items.len() == 0 {
        Seq::empty()
    } else {
        let n = (items.len() - 1) as nat;
        render_items(items.take(n as int)) + separator(n) + render(items[n as int])
    }
}

/// The text of the members of an object, separated by commas.
pub open spec fn render_members(members: Seq<(Seq<char>, Json)>) -> Seq<char>
    decreases members,
{
    if members.len() == 0 {
        Seq::empty()
    } else {
        let n = (members.len() - 1) as nat;
        render_members(members.take(n as int)) + separator(n) + quoted(members[n as int].0) + seq![
            ':',
        ] + render(members[n as int].1)
    }
}

/// Escapes `s` for the inside of a JSON string.
pub fn json_escape(s: &str) -> (res: String)
    ensures
        res@ == escape(s@),
{
    let mut out = String::new();
    for c in it: s.chars()
        invariant
            it.seq() == s@,
            out@ == escape(s@.take(it.index() as int)),
    {
        let ghost i = it.index() as int;
        push_escaped(&mut out, c);
        assert(s@.take(i + 1).drop_last() =~= s@.take(i));
        assert(s@.take(i + 1).last() == c);
    }
    assert(s@.take(s@.len() as int) =~= s@);
    out
}

/// Appends `c` as it is written inside a JSON string.
fn push_escaped(out: &mut String, c: char)
    ensures
        final(out)@ == old(out)@ + escape_char(c),
{
    if c == '"' {
        out.push('\\');
        out.push('"');
    } else if c == '\\' {
        out.push('\\');
        out.push('\\');
    } else if c == '\n' {
        out.push('\\');
        out.push('n');
    } else if c == '\r' {
        out.push('\\');
        out.push('r');
    } else if c == '\t' {
        out.push('\\');
        out.push('t');
    } else if (c as u32) < 0x20 {
        let code: u8 = c as u8;
        out.push('\\');
        out.push('u');
        out.push('0');
        out.push('0');
        out.push(to_hex_digit(code / 16));
        out.push(to_hex_digit(code % 16));
    } else {
        out.push(c);
    }
    assert(out@ =~= old(out)@ + escape_char(c));
}

/// The character of the hexadecimal digit `d`, in lower case.
fn to_hex_digit(d: u8) -> (res: char)
    requires
        d < 16,
    ensures
        res == hex_digit(d as nat),
{
    if d < 10 {
        (48 + d) as char
    } else {
        (87 + d) as char
    }
}

/// `base`, then an array of which `items` are written.
pub open spec fn open_array(base: Seq<char>, items: Seq<Json>) -> Seq<char> {
    base + seq!['['] + render_items(items)
}

/// `base`, then an object of which `members` are written.
pub open spec fn open_object(base: Seq<char>, members: Seq<(Seq<char>, Json)>) -> Seq<char> {
    base + seq!['{'] + render_members(members)
}

/// An array whose items are all written is closed with a bracket.
pub proof fn lemma_close_array(base: Seq<char>, items: Seq<Json>)
    ensures
        open_array(base, items).push(']') == base + render(Json::Arr(items)),
{
    assert(open_array(base, items).push(']') =~= base + render(Json::Arr(items)));
}

/// An object whose members are all written is closed with a brace.
pub proof fn lemma_close_object(base: Seq<char>, members: Seq<(Seq<char>, Json)>)
    ensures
        open_object(base, members).push('}') == base + render(Json::Obj(members)),
{
    assert(open_object(base, members).push('}') =~= base + render(Json::Obj(members)));
}

/// One more item of an array is a separator and the item's text.
pub proof fn lemma_next_item(base: Seq<char>, items: Seq<Json>, item: Json)
    ensures
        open_array(base, items.push(item)) == open_array(base, items) + separator(items.len())
            + render(item),
{
    assert(items.push(item).take(items.len() as int) =~= items);
    assert(open_array(base, items.push(item)) =~= open_array(base, items) + separator(items.len())
        + render(item));
}

/// One more member of an object is a separator, the key, a colon and the value's text.
pub proof fn lemma_next_member(
    base: Seq<char>,
    members: Seq<(Seq<char>, Json)>,
    key: Seq<char>,
    value: Json,
)
    ensures
        open_object(base, members.push((key, value))) == open_object(base, members) + separator(
            members.len(),
        ) + quoted(key) + seq![':'] + render(value),
{
    assert(members.push((key, value)).take(members.len() as int) =~= members);
    assert(open_object(base, members.push((key, value))) =~= open_object(base, members)
        + separator(members.len()) + quoted(key) + seq![':'] + render(value));
}

/// Appends `s` as a JSON string.
pub fn push_quoted(out: &mut String, s: &str)
    ensures
        final(out)@ == old(out)@ + quoted(s@),
{
    out.push('"');
    out.append(json_escape(s).as_str());
    out.push('"');
    assert(out@ =~= old(out)@ + quoted(s@));
}

/// Appends `true` or `false`.
pub fn push_bool(out: &mut String, b: bool)
    ensures
        final(out)@ == old(out)@ + render(Json::Bool(b)),
{
    out.append(
        if b {
            "true"
        } else {
            "false"
        },
    );
}

/// Appends the separator before the next item of an array or member of an object.
pub fn push_separator(out: &mut String, n: usize)
    ensures
        final(out)@ == old(out)@ + separator(n as nat),
{
    if n > 0 {
        out.push(',');
    }
    assert(out@ =~= old(out)@ + separator(n as nat));
}

/// Appends the separator, the key and the colon of an object's next member, the one with
/// index `n`.
pub fn push_key(out: &mut String, n: usize, key: &str)
    ensures
        final(out)@ == old(out)@ + separator(n as nat) + quoted(key@) + seq![':'],
{
    push_separator(out, n);
    push_quoted(out, key);
    out.push(':');
    assert(out@ =~= old(out)@ + separator(n as nat) + quoted(key@) + seq![':']);
}

/// Appends a member whose value is a string to an open object.
pub fn push_str_member(
    out: &mut String,
    n: usize,
    key: &str,
    value: &str,
    Ghost(base): Ghost<Seq<char>>,
    Ghost(members): Ghost<Seq<(Seq<char>, Json)>>,
)
    requires
        n == members.len(),
        old(out)@ == open_object(base, members),
    ensures
        final(out)@ == open_object(base, members.push((key@, Json::Str(value@)))),
{
    push_key(out, n, key);
    push_quoted(out, value);
    proof {
        lemma_next_member(base, members, key@, Json::Str(value@));
    }
}

/// Appends a member whose value is a truth value to an open object.
pub fn push_bool_member(
    out: &mut String,
    n: usize,
    key: &str,
    value: bool,
    Ghost(base): Ghost<Seq<char>>,
    Ghost(members): Ghost<Seq<(Seq<char>, Json)>>,
)
    requires
        n == members.len(),
        old(out)@ == open_object(base, members),
    ensures
        final(out)@ == open_object(base, members.push((key@, Json::Bool(value)))),
{
    push_key(out, n, key);
    push_bool(out, value);
    proof {
        lemma_next_member(base, members, key@, Json::Bool(value));
    }
}

/// Appends a member whose value is a number to an open object.
pub fn push_num_member(
    out: &mut String,
    n: usize,
    key: &str,
    value: u64,
    Ghost(base): Ghost<Seq<char>>,
    Ghost(members): Ghost<Seq<(Seq<char>, Json)>>,
)
    requires
        n == members.len(),
        old(out)@ == open_object(base, members),
    ensures
        final(out)@ == open_object(base, members.push((key@, Json::Num(value as nat)))),
{
    push_key(out, n, key);
    text::push_decimal(out, value);
    proof {
        lemma_next_member(base, members, key@, Json::Num(value as nat));
    }
}

} // verus!

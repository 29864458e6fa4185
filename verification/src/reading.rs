//! Reading JSON back: the text of every document reads as that document and as no other.
use vstd::prelude::*;

use crate::json;
use crate::json::Json;
use crate::text;

verus! {

// ---------------------------------------------------------------------------
// The grammar
// ---------------------------------------------------------------------------

/// Whether a character is a decimal digit.
pub open spec fn is_digit(c: char) -> bool {
    '0' <= c && c <= '9'
}

/// Whether a text starts with a decimal digit.
pub open spec fn starts_with_digit(s: Seq<char>) -> bool {
    s.len() > 0 && is_digit(s[0])
}

/// Whether `s` starts with `prefix`.
pub open spec fn starts_with(s: Seq<char>, prefix: Seq<char>) -> bool {
    s.len() >= prefix.len() && s.take(prefix.len() as int) == prefix
}

/// The value of a hexadecimal digit.
pub open spec fn hex_value(c: char) -> Option<nat> {
    if '0' <= c && c <= '9' {
        Some((c as nat - 48) as nat)
    } else if 'a' <= c && c <= 'f' {
        Some((c as nat - 87) as nat)
    } else if 'A' <= c && c <= 'F' {
        Some((c as nat - 55) as nat)
    } else {
        None
    }
}

/// The number that the four hexadecimal digits at the start of `s` stand for.
pub open spec fn hex4_value(s: Seq<char>) -> Option<nat> {
    if s.len() < 4 {
        None
    } else {
        match (hex_value(s[0]), hex_value(s[1]), hex_value(s[2]), hex_value(s[3])) {
            (Some(a), Some(b), Some(c), Some(d)) => Some(4096 * a + 256 * b + 16 * c + d),
            _ => None,
        }
    }
}

/// The first character that the inside of a JSON string stands for, and how many characters
/// write it. A closing quote writes none, and neither does a bare control character.
pub open spec fn read_char(s: Seq<char>) -> Option<(char, nat)> {
    if s.len() == 0 || s[0] == '"' || (s[0] as nat) < 0x20 {
        None
    } else if s[0] != '\\' {
        Some((s[0], 1))
    } else if s.len() < 2 {
        None
    } else if s[1] == '"' || s[1] == '\\' || s[1] == '/' {
        Some((s[1], 2))
    } else if s[1] == 'b' {
        Some((8u8 as char, 2))
    } else if s[1] == 'f' {
        Some((12u8 as char, 2))
    } else if s[1] == 'n' {
        Some(('\n', 2))
    } else if s[1] == 'r' {
        Some(('\r', 2))
    } else if s[1] == 't' {
        Some(('\t', 2))
    } else if s[1] == 'u' {
        match hex4_value(s.skip(2)) {
            Some(code) => if 0xD800 <= code <= 0xDFFF {
                None
            } else {
                Some((code as char, 6))
            },
            None => None,
        }
    } else {
        None
    }
}

/// Reads a JSON string behind its opening quote: what it holds, and what stands behind its
/// closing quote.
pub open spec fn read_string(s: Seq<char>) -> Option<(Seq<char>, Seq<char>)>
    decreases s.len(),
{
    if s.len() > 0 && s[0] == '"' {
        Some((Seq::empty(), s.skip(1)))
    } else {
        match read_char(s) {
            None => None,
            Some((c, n)) => if 0 < n <= s.len() {
                match read_string(s.skip(n as int)) {
                    None => None,
                    Some((inside, rest)) => Some((seq![c] + inside, rest)),
                }
            } else {
                None
            },
        }
    }
}

/// How many decimal digits a text starts with.
pub open spec fn digits(s: Seq<char>) -> nat
    decreases s.len(),
{
    if starts_with_digit(s) {
        1 + digits(s.skip(1))
    } else {
        0
    }
}

/// The number that decimal digits stand for.
pub open spec fn decimal_value(s: Seq<char>) -> nat
    decreases s.len(),
{
    if s.len() == 0 {
        0
    } else {
        10 * decimal_value(s.drop_last()) + (s.last() as nat - 48) as nat
    }
}

/// Reads a natural number: digits without a leading zero, and what stands behind them.
pub open spec fn read_number(s: Seq<char>) -> Option<(nat, Seq<char>)> {
    let n = digits(s);
    if n == 0 || (n > 1 && s[0] == '0') {
        None
    } else {
        Some((decimal_value(s.take(n as int)), s.skip(n as int)))
    }
}

/// Reads a document, and what stands behind it.
#[verifier::opaque]
pub open spec fn read_value(s: Seq<char>) -> Option<(Json, Seq<char>)>
    decreases s.len(), 0nat,
{
    if s.len() == 0 {
        None
    } else if s[0] == '"' {
        match read_string(s.skip(1)) {
            None => None,
            Some((inside, rest)) => Some((Json::Str(inside), rest)),
        }
    } else if s[0] == '[' {
        if s.len() > 1 && s[1] == ']' {
            Some((Json::Arr(Seq::empty()), s.skip(2)))
        } else {
            match read_items(s.skip(1)) {
                None => None,
                Some((items, rest)) => Some((Json::Arr(items), rest)),
            }
        }
    } else if s[0] == '{' {
        if s.len() > 1 && s[1] == '}' {
            Some((Json::Obj(Seq::empty()), s.skip(2)))
        } else {
            match read_members(s.skip(1)) {
                None => None,
                Some((members, rest)) => Some((Json::Obj(members), rest)),
            }
        }
    } else if starts_with(s, "true"@) {
        Some((Json::Bool(true), s.skip("true"@.len() as int)))
    } else if starts_with(s, "false"@) {
        Some((Json::Bool(false), s.skip("false"@.len() as int)))
    } else {
        match read_number(s) {
            None => None,
            Some((n, rest)) => Some((Json::Num(n), rest)),
        }
    }
}

/// Reads one or more items up to the closing bracket, and what stands behind it.
#[verifier::opaque]
pub open spec fn read_items(s: Seq<char>) -> Option<(Seq<Json>, Seq<char>)>
    decreases s.len(), 1nat,
{
    match read_value(s) {
        None => None,
        Some((item, rest)) => if rest.len() == 0 || rest.len() > s.len() {
            None
        } else if rest[0] == ']' {
            Some((seq![item], rest.skip(1)))
        } else if rest[0] == ',' {
            match read_items(rest.skip(1)) {
                None => None,
                Some((items, end)) => Some((seq![item] + items, end)),
            }
        } else {
            None
        },
    }
}

/// Reads one or more members up to the closing brace, and what stands behind it.
#[verifier::opaque]
pub open spec fn read_members(s: Seq<char>) -> Option<(Seq<(Seq<char>, Json)>, Seq<char>)>
    decreases s.len(), 1nat,
{
    if s.len() == 0 || s[0] != '"' {
        None
    } else {
        match read_string(s.skip(1)) {
            None => None,
            Some((key, colon)) => if colon.len() == 0 || colon.len() >= s.len() || colon[0]
                != ':' {
                None
            } else {
                match read_value(colon.skip(1)) {
                    None => None,
                    Some((value, rest)) => if rest.len() == 0 || rest.len() > s.len() {
                        None
                    } else if rest[0] == '}' {
                        Some((seq![(key, value)], rest.skip(1)))
                    } else if rest[0] == ',' {
                        match read_members(rest.skip(1)) {
                            None => None,
                            Some((members, end)) => Some((seq![(key, value)] + members, end)),
                        }
                    } else {
                        None
                    },
                }
            },
        }
    }
}

// ---------------------------------------------------------------------------
// Strings
// ---------------------------------------------------------------------------

/// Escaping goes character by character.
pub proof fn law_escape_concat(a: Seq<char>, b: Seq<char>)
    ensures
        json::escape(a + b) == json::escape(a) + json::escape(b),
    decreases b.len(),
{
    if b.len() == 0 {
        assert(a + b =~= a);
        assert(json::escape(a) + json::escape(b) =~= json::escape(a));
    } else {
        law_escape_concat(a, b.drop_last());
        assert((a + b).drop_last() =~= a + b.drop_last());
        assert((a + b).last() == b.last());
        assert(json::escape(a + b) =~= json::escape(a) + json::escape(b));
    }
}

proof fn lemma_read_escaped_char(c: char, tail: Seq<char>)
    ensures
        read_char(json::escape_char(c) + tail) == Some((c, json::escape_char(c).len())),
        json::escape_char(c).len() > 0,
        json::escape_char(c)[0] != '"',
{
    let s = json::escape_char(c) + tail;
    let code = c as nat;
    if c == '"' || c == '\\' || c == '\n' || c == '\r' || c == '\t' {
        assert(s[0] == '\\');
    } else if code < 0x20 {
        assert(s[0] == '\\' && s[1] == 'u');
        let h = s.skip(2);
        assert(h[0] == '0' && h[1] == '0');
        assert(h[2] == json::hex_digit(code / 16));
        assert(h[3] == json::hex_digit(code % 16));
        assert(hex_value(h[0]) == Some(0nat));
        assert(hex_value(h[2]) == Some(code / 16));
        assert(hex_value(h[3]) == Some(code % 16));
        assert(hex4_value(h) == Some(code));
    } else {
        assert(s[0] == c);
    }
}

/// What is escaped and closed with a quote reads back, whatever stands behind the quote.
pub proof fn law_string_reads_back(s: Seq<char>, rest: Seq<char>)
    ensures
        read_string(json::escape(s) + seq!['"'] + rest) == Some((s, rest)),
    decreases s.len(),
{
    let whole = json::escape(s) + seq!['"'] + rest;
    if s.len() == 0 {
        assert(whole[0] == '"');
        assert(whole.skip(1) =~= rest);
        assert(s =~= Seq::empty());
    } else {
        let c = s[0];
        let tail = s.skip(1);
        let behind = json::escape(tail) + seq!['"'] + rest;
        assert(s =~= seq![c] + tail);
        law_escape_concat(seq![c], tail);
        assert(json::escape(seq![c]) =~= json::escape_char(c)) by {
            assert(seq![c].drop_last() =~= Seq::empty());
            assert(json::escape(seq![c].drop_last()) =~= Seq::empty());
        }
        assert(whole =~= json::escape_char(c) + behind);
        lemma_read_escaped_char(c, behind);
        law_string_reads_back(tail, rest);
        assert(whole.skip(json::escape_char(c).len() as int) =~= behind);
    }
}

/// Two texts that are escaped alike are the same.
pub proof fn law_escape_injective(a: Seq<char>, b: Seq<char>)
    requires
        json::escape(a) == json::escape(b),
    ensures
        a == b,
{
    law_string_reads_back(a, Seq::empty());
    law_string_reads_back(b, Seq::empty());
}

// ---------------------------------------------------------------------------
// Numbers
// ---------------------------------------------------------------------------

proof fn lemma_decimal(n: nat)
    ensures
        text::decimal(n).len() > 0,
        forall|i: int| 0 <= i < text::decimal(n).len() ==> is_digit(#[trigger] text::decimal(n)[i]),
        decimal_value(text::decimal(n)) == n,
        n > 0 ==> text::decimal(n)[0] != '0',
        n < 10 ==> text::decimal(n).len() == 1,
    decreases n,
{
    let s = text::decimal(n);
    if n < 10 {
        assert(s.drop_last() =~= Seq::empty());
        assert(decimal_value(s.drop_last()) == 0);
    } else {
        lemma_decimal(n / 10);
        assert(s.drop_last() =~= text::decimal(n / 10));
        assert(s.last() == text::digit(n % 10));
    }
}

proof fn lemma_digits(s: Seq<char>, rest: Seq<char>)
    requires
        forall|i: int| 0 <= i < s.len() ==> is_digit(#[trigger] s[i]),
        !starts_with_digit(rest),
    ensures
        digits(s + rest) == s.len(),
    decreases s.len(),
{
    if s.len() == 0 {
        assert(s + rest =~= rest);
    } else {
        assert forall|i: int| 0 <= i < s.skip(1).len() implies is_digit(
            #[trigger] s.skip(1)[i],
        ) by {
            assert(s.skip(1)[i] == s[i + 1]);
        }
        lemma_digits(s.skip(1), rest);
        assert((s + rest).skip(1) =~= s.skip(1) + rest);
        assert(is_digit(s[0]));
    }
}

/// A number reads back, unless a further digit stands behind it.
pub proof fn law_number_reads_back(n: nat, rest: Seq<char>)
    requires
        !starts_with_digit(rest),
    ensures
        read_number(text::decimal(n) + rest) == Some((n, rest)),
        starts_with_digit(text::decimal(n) + rest),
{
    let s = text::decimal(n);
    lemma_decimal(n);
    lemma_digits(s, rest);
    assert((s + rest).take(s.len() as int) =~= s);
    assert((s + rest).skip(s.len() as int) =~= rest);
    assert(is_digit(s[0]));
}

// ---------------------------------------------------------------------------
// Documents
// ---------------------------------------------------------------------------

/// The items with a comma behind each but the last, read from the front.
proof fn lemma_items_front(items: Seq<Json>)
    requires
        items.len() > 1,
    ensures
        json::render_items(items) == json::render(items[0]) + seq![','] + json::render_items(
            items.skip(1),
        ),
    decreases items.len(),
{
    let n = items.len() - 1;
    let front = items.take(n);
    let tail = items.skip(1);
    assert(tail.take(n - 1) =~= front.skip(1));
    assert(tail[n - 1] == items[n]);
    if n == 1 {
        lemma_one_item(front);
        lemma_one_item(tail);
        assert(front[0] == items[0]);
        assert(json::render_items(items) =~= json::render(items[0]) + seq![',']
            + json::render_items(tail));
    } else {
        lemma_items_front(front);
        assert(front[0] == items[0]);
        assert(json::render_items(tail) == json::render_items(tail.take(n - 1)) + seq![',']
            + json::render(tail[n - 1]));
        assert(json::render_items(items) =~= json::render(items[0]) + seq![',']
            + json::render_items(tail));
    }
}

proof fn lemma_one_item(items: Seq<Json>)
    requires
        items.len() == 1,
    ensures
        json::render_items(items) == json::render(items[0]),
{
    assert(items.take(0) =~= Seq::empty());
    assert(json::render_items(items.take(0)) =~= Seq::empty());
    assert(json::render_items(items) =~= json::render(items[0]));
}

/// The text of one member.
spec fn member_text(member: (Seq<char>, Json)) -> Seq<char> {
    json::quoted(member.0) + seq![':'] + json::render(member.1)
}

/// The members with a comma behind each but the last, read from the front.
proof fn lemma_members_front(members: Seq<(Seq<char>, Json)>)
    requires
        members.len() > 1,
    ensures
        json::render_members(members) == member_text(members[0]) + seq![',']
            + json::render_members(members.skip(1)),
    decreases members.len(),
{
    let n = members.len() - 1;
    let front = members.take(n);
    let tail = members.skip(1);
    assert(tail.take(n - 1) =~= front.skip(1));
    assert(tail[n - 1] == members[n]);
    assert(json::render_members(members) =~= json::render_members(front) + seq![',']
        + member_text(members[n]));
    if n == 1 {
        lemma_one_member(front);
        lemma_one_member(tail);
        assert(front[0] == members[0]);
        assert(json::render_members(members) =~= member_text(members[0]) + seq![',']
            + json::render_members(tail));
    } else {
        lemma_members_front(front);
        assert(front[0] == members[0]);
        assert(json::render_members(tail) =~= json::render_members(tail.take(n - 1)) + seq![',']
            + member_text(tail[n - 1]));
        assert(json::render_members(members) =~= member_text(members[0]) + seq![',']
            + json::render_members(tail));
    }
}

proof fn lemma_one_member(members: Seq<(Seq<char>, Json)>)
    requires
        members.len() == 1,
    ensures
        json::render_members(members) == member_text(members[0]),
{
    assert(members.take(0) =~= Seq::empty());
    assert(json::render_members(members.take(0)) =~= Seq::empty());
    assert(json::render_members(members) =~= member_text(members[0]));
}

/// How the text of a document starts.
proof fn lemma_first_char(j: Json)
    ensures
        json::render(j).len() > 0,
        json::render(j)[0] != ']',
{
    reveal_strlit("true");
    reveal_strlit("false");
    match j {
        Json::Num(n) => {
            lemma_decimal(n);
            assert(is_digit(text::decimal(n)[0]));
        },
        _ => {},
    }
}

proof fn lemma_not_literal(s: Seq<char>)
    requires
        s.len() > 0,
    ensures
        s[0] != 't' ==> !starts_with(s, "true"@),
        s[0] != 'f' ==> !starts_with(s, "false"@),
{
    reveal_strlit("true");
    reveal_strlit("false");
    if starts_with(s, "true"@) {
        assert(s.take(4)[0] == 't');
    }
    if starts_with(s, "false"@) {
        assert(s.take(5)[0] == 'f');
    }
}

proof fn lemma_read_bool(b: bool, rest: Seq<char>)
    ensures
        read_value(json::render(Json::Bool(b)) + rest) == Some((Json::Bool(b), rest)),
{
    let s = json::render(Json::Bool(b)) + rest;
    reveal(read_value);
    reveal_strlit("true");
    reveal_strlit("false");
    lemma_not_literal(s);
    if b {
        assert(s.take(4) =~= "true"@);
        assert(s.skip(4) =~= rest);
    } else {
        assert(s.take(5) =~= "false"@);
        assert(s.skip(5) =~= rest);
    }
}

proof fn lemma_read_num(n: nat, rest: Seq<char>)
    requires
        !starts_with_digit(rest),
    ensures
        read_value(json::render(Json::Num(n)) + rest) == Some((Json::Num(n), rest)),
{
    reveal(read_value);
    law_number_reads_back(n, rest);
    lemma_not_literal(text::decimal(n) + rest);
}

proof fn lemma_read_str(inside: Seq<char>, rest: Seq<char>)
    ensures
        read_value(json::render(Json::Str(inside)) + rest) == Some((Json::Str(inside), rest)),
{
    let s = json::quoted(inside) + rest;
    reveal(read_value);
    law_string_reads_back(inside, rest);
    assert(s.skip(1) =~= json::escape(inside) + seq!['"'] + rest);
}

proof fn lemma_read_arr(items: Seq<Json>, rest: Seq<char>)
    requires
        items.len() > 0 ==> read_items(json::render_items(items) + seq![']'] + rest) == Some(
            (items, rest),
        ),
    ensures
        read_value(json::render(Json::Arr(items)) + rest) == Some((Json::Arr(items), rest)),
{
    let s = json::render(Json::Arr(items)) + rest;
    reveal(read_value);
    reveal(read_items);
    if items.len() == 0 {
        assert(items =~= Seq::empty());
        assert(s.skip(2) =~= rest);
    } else {
        assert(s.skip(1) =~= json::render_items(items) + seq![']'] + rest);
        lemma_first_item(items);
        assert(s[1] == json::render_items(items)[0]);
    }
}

proof fn lemma_read_obj(members: Seq<(Seq<char>, Json)>, rest: Seq<char>)
    requires
        members.len() > 0 ==> read_members(json::render_members(members) + seq!['}'] + rest)
            == Some((members, rest)),
    ensures
        read_value(json::render(Json::Obj(members)) + rest) == Some((Json::Obj(members), rest)),
{
    let s = json::render(Json::Obj(members)) + rest;
    reveal(read_value);
    reveal(read_members);
    if members.len() == 0 {
        assert(members =~= Seq::empty());
        assert(s.skip(2) =~= rest);
    } else {
        assert(s.skip(1) =~= json::render_members(members) + seq!['}'] + rest);
        lemma_first_member(members);
        assert(s[1] == '"');
    }
}

proof fn lemma_first_item(items: Seq<Json>)
    requires
        items.len() > 0,
    ensures
        json::render_items(items).len() > 0,
        json::render_items(items)[0] != ']',
{
    lemma_first_char(items[0]);
    if items.len() == 1 {
        lemma_one_item(items);
    } else {
        lemma_items_front(items);
    }
}

proof fn lemma_first_member(members: Seq<(Seq<char>, Json)>)
    requires
        members.len() > 0,
    ensures
        json::render_members(members).len() > 0,
        json::render_members(members)[0] == '"',
{
    if members.len() == 1 {
        lemma_one_member(members);
    } else {
        lemma_members_front(members);
    }
}

/// Reads the first of the items that stand before `behind`.
proof fn lemma_read_item(item: Json, behind: Seq<char>)
    requires
        read_value(json::render(item) + behind) == Some((item, behind)),
        behind.len() > 0,
    ensures
        behind[0] == ']' ==> read_items(json::render(item) + behind) == Some(
            (seq![item], behind.skip(1)),
        ),
        behind[0] == ',' ==> read_items(json::render(item) + behind) == (match read_items(
            behind.skip(1),
        ) {
            None => None,
            Some((items, end)) => Some((seq![item] + items, end)),
        }),
{
    reveal(read_value);
    reveal(read_items);
}

/// Reads the first of the members that stand before `behind`.
proof fn lemma_read_member(key: Seq<char>, value: Json, behind: Seq<char>)
    requires
        read_value(json::render(value) + behind) == Some((value, behind)),
        behind.len() > 0,
    ensures
        behind[0] == '}' ==> read_members(member_text((key, value)) + behind) == Some(
            (seq![(key, value)], behind.skip(1)),
        ),
        behind[0] == ',' ==> read_members(member_text((key, value)) + behind) == (
        match read_members(behind.skip(1)) {
            None => None,
            Some((members, end)) => Some((seq![(key, value)] + members, end)),
        }),
{
    let s = member_text((key, value)) + behind;
    let colon = seq![':'] + json::render(value) + behind;
    reveal(read_value);
    reveal(read_members);
    law_string_reads_back(key, colon);
    assert(s.skip(1) =~= json::escape(key) + seq!['"'] + colon);
    assert(colon.skip(1) =~= json::render(value) + behind);
    assert(s.len() == 2 + json::escape(key).len() + colon.len());
}

/// The text of every document reads back as that document, whatever stands behind it, unless
/// that is a further digit.
pub proof fn law_reads_back(j: Json, rest: Seq<char>)
    requires
        !starts_with_digit(rest),
    ensures
        read_value(json::render(j) + rest) == Some((j, rest)),
    decreases j, 0nat,
{
    match j {
        Json::Bool(b) => lemma_read_bool(b, rest),
        Json::Num(n) => lemma_read_num(n, rest),
        Json::Str(inside) => lemma_read_str(inside, rest),
        Json::Arr(items) => {
            if items.len() > 0 {
                lemma_items_read_back(items, rest);
            }
            lemma_read_arr(items, rest);
        },
        Json::Obj(members) => {
            if members.len() > 0 {
                lemma_members_read_back(members, rest);
            }
            lemma_read_obj(members, rest);
        },
    }
}

proof fn lemma_items_read_back(items: Seq<Json>, rest: Seq<char>)
    requires
        items.len() > 0,
    ensures
        read_items(json::render_items(items) + seq![']'] + rest) == Some((items, rest)),
    decreases items, 1nat,
{
    let s = json::render_items(items) + seq![']'] + rest;
    if items.len() == 1 {
        let behind = seq![']'] + rest;
        lemma_one_item(items);
        law_reads_back(items[0], behind);
        lemma_read_item(items[0], behind);
        assert(s =~= json::render(items[0]) + behind);
        assert(behind.skip(1) =~= rest);
        assert(items =~= seq![items[0]]);
    } else {
        let tail = items.skip(1);
        let next = json::render_items(tail) + seq![']'] + rest;
        let behind = seq![','] + next;
        lemma_items_front(items);
        law_reads_back(items[0], behind);
        lemma_read_item(items[0], behind);
        lemma_items_read_back(tail, rest);
        assert(s =~= json::render(items[0]) + behind);
        assert(behind.skip(1) =~= next);
        assert(items =~= seq![items[0]] + tail);
    }
}

proof fn lemma_members_read_back(members: Seq<(Seq<char>, Json)>, rest: Seq<char>)
    requires
        members.len() > 0,
    ensures
        read_members(json::render_members(members) + seq!['}'] + rest) == Some((members, rest)),
    decreases members, 1nat,
{
    let s = json::render_members(members) + seq!['}'] + rest;
    let first = members[0];
    assert(decreases_to!(members => first));
    if members.len() == 1 {
        let behind = seq!['}'] + rest;
        lemma_one_member(members);
        law_reads_back(first.1, behind);
        lemma_read_member(first.0, first.1, behind);
        assert(s =~= member_text(first) + behind);
        assert(behind.skip(1) =~= rest);
        assert(members =~= seq![first]);
    } else {
        let tail = members.skip(1);
        let next = json::render_members(tail) + seq!['}'] + rest;
        let behind = seq![','] + next;
        lemma_members_front(members);
        law_reads_back(first.1, behind);
        lemma_read_member(first.0, first.1, behind);
        lemma_members_read_back(tail, rest);
        assert(s =~= member_text(first) + behind);
        assert(behind.skip(1) =~= next);
        assert(members =~= seq![first] + tail);
    }
}

/// A whole text is a document and nothing else.
pub open spec fn is_document(s: Seq<char>, j: Json) -> bool {
    read_value(s) == Some((j, Seq::<char>::empty()))
}

/// The text of a document is that document and nothing else.
pub proof fn law_render_is_document(j: Json)
    ensures
        is_document(json::render(j), j),
{
    law_reads_back(j, Seq::empty());
    assert(json::render(j) + Seq::<char>::empty() =~= json::render(j));
}

/// Two documents with the same text are the same.
pub proof fn law_render_injective(a: Json, b: Json)
    requires
        json::render(a) == json::render(b),
    ensures
        a == b,
{
    law_render_is_document(a);
    law_render_is_document(b);
}

/// A text without quotes, backslashes and control characters is escaped as itself.
pub proof fn law_escape_plain(s: Seq<char>)
    requires
        forall|i: int|
            0 <= i < s.len() ==> {
                let c = #[trigger] s[i];
                c != '"' && c != '\\' && c as nat >= 0x20
            },
    ensures
        json::escape(s) == s,
    decreases s.len(),
{
    if s.len() > 0 {
        let front = s.drop_last();
        assert forall|i: int| 0 <= i < front.len() implies {
            let c = #[trigger] front[i];
            c != '"' && c != '\\' && c as nat >= 0x20
        } by {
            assert(front[i] == s[i]);
        }
        law_escape_plain(front);
        assert(s[s.len() - 1] == s.last());
        assert(json::escape(s) =~= s);
    }
}

/// A quote, a backslash, a line feed, a carriage return and a tab are escaped with two
/// characters, any other control character with six, in which no letter is a capital.
pub proof fn law_escape_short(c: char)
    ensures
        ({
            let out = json::escape(seq![c]);
            if c == '"' || c == '\\' || c == '\n' || c == '\r' || c == '\t' {
                out.len() == 2
            } else if (c as nat) < 0x20 {
                &&& out.len() == 6
                &&& forall|i: int|
                    0 <= i < out.len() ==> !('A' <= #[trigger] out[i] && out[i] <= 'Z')
            } else {
                out == seq![c]
            }
        }),
{
    let out = json::escape(seq![c]);
    assert(seq![c].drop_last() =~= Seq::empty());
    assert(json::escape(seq![c].drop_last()) =~= Seq::empty());
    assert(out =~= json::escape_char(c));
}

} // verus!

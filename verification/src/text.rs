//! Text building blocks: decimal numbers, ASCII case folding and comparison.
//!
//! Every function here is stated over the characters of the strings, `Seq<char>`.
use vstd::prelude::*;

verus! {

/// `String::push` of the standard library appends one character to the end of the string.
pub assume_specification[ String::push ](s: &mut String, ch: char)
    ensures
        final(s)@ == old(s)@.push(ch),
;

/// The character of a decimal digit.
pub open spec fn digit(d: nat) -> char {
    (48 + d) as char
}

/// The decimal notation of `n`, without leading zeros.
pub open spec fn decimal(n: nat) -> Seq<char>
    decreases n,
{
    if n < 10 {
        seq![digit(n)]
    } else {
        decimal(n / 10).push(digit(n % 10))
    }
}

/// Appends the decimal notation of `n`.
pub fn push_decimal(out: &mut String, n: u64)
    ensures
        final(out)@ == old(out)@ + decimal(n as nat),
    decreases n,
{
    if n >= 10 {
        push_decimal(out, n / 10);
    }
    let d: u8 = (n % 10) as u8;
    out.push((48 + d) as char);
    assert(out@ =~= old(out)@ + decimal(n as nat));
}

/// `c` in lower case if it is an ASCII capital, `c` itself otherwise.
pub open spec fn lower_char(c: char) -> char {
    if 'A' <= c && c <= 'Z' {
        (c as u32 + 32) as char
    } else {
        c
    }
}

/// `s` with every ASCII capital in lower case.
pub open spec fn lower(s: Seq<char>) -> Seq<char> {
    s.map_values(|c: char| lower_char(c))
}

/// A copy of `s` with every ASCII capital in lower case.
pub fn to_ascii_lowercase(s: &str) -> (res: String)
    ensures
        res@ == lower(s@),
{
    let mut out = String::new();
    for c in it: s.chars()
        invariant
            it.seq() == s@,
            out@ == lower(s@.take(it.index() as int)),
    {
        let l = if 'A' <= c && c <= 'Z' {
            (c as u8 + 32) as char
        } else {
            c
        };
        out.push(l);
        assert(out@ =~= lower(s@.take(it.index() as int + 1)));
    }
    assert(s@.take(s@.len() as int) =~= s@);
    out
}

/// Whether `a` and `b` are the same but for the case of ASCII letters.
pub fn eq_ignore_ascii_case(a: &str, b: &str) -> (res: bool)
    ensures
        res == (lower(a@) == lower(b@)),
{
    to_ascii_lowercase(a) == to_ascii_lowercase(b)
}

/// Whether `a` and `b` hold the same characters.
pub fn same_text(a: &str, b: &str) -> (res: bool)
    ensures
        res == (a@ == b@),
{
    a.to_owned() == b.to_owned()
}

/// `s` without any `suffix` at its end, however often it stands there.
pub open spec fn trimmed(s: Seq<char>, suffix: Seq<char>) -> Seq<char>
    decreases s.len(),
{
    let n = s.len() - suffix.len();
    if 0 < suffix.len() && 0 <= n && s.skip(n) == suffix {
        trimmed(s.take(n), suffix)
    } else {
        s
    }
}

/// The part of `s` that is left when every `suffix` at its end is taken off.
pub fn trim_end_matches<'a>(s: &'a str, suffix: &str) -> (res: &'a str)
    ensures
        res@ == trimmed(s@, suffix@),
{
    let mut n: usize = s.unicode_len();
    let k: usize = suffix.unicode_len();
    assert(s@.take(n as int) =~= s@);
    loop
        invariant
            k == suffix@.len(),
            n <= s@.len(),
            trimmed(s@, suffix@) == trimmed(s@.take(n as int), suffix@),
        ensures
            trimmed(s@, suffix@) == s@.take(n as int),
            n <= s@.len(),
        decreases n,
    {
        if k == 0 || n < k {
            break;
        }
        assert(s@.take(n as int).skip(n - k) =~= s@.subrange(n - k, n as int));
        assert(s@.take(n as int).take(n - k) =~= s@.take(n - k));
        if !same_text(s.substring_char(n - k, n), suffix) {
            break;
        }
        n = n - k;
    }
    assert(s@.take(n as int) =~= s@.subrange(0, n as int));
    s.substring_char(0, n)
}

/// `s`, `k` times over.
pub open spec fn repeated(s: Seq<char>, k: nat) -> Seq<char>
    decreases k,
{
    if k == 0 {
        Seq::empty()
    } else {
        repeated(s, (k - 1) as nat) + s
    }
}

/// Whether `s` ends in `suffix`.
pub open spec fn ends_with(s: Seq<char>, suffix: Seq<char>) -> bool {
    exists|front: Seq<char>| s == #[trigger] (front + suffix)
}

/// Lower case keeps the length, leaves no ASCII capital, keeps every other character, and turns
/// a capital into the small letter at the same place of the alphabet.
pub proof fn law_lower(s: Seq<char>)
    ensures
        lower(s).len() == s.len(),
        forall|i: int|
            0 <= i < s.len() ==> {
                let c = s[i];
                let l = #[trigger] lower(s)[i];
                &&& !('A' <= l && l <= 'Z')
                &&& !('A' <= c && c <= 'Z') ==> l == c
                &&& ('A' <= c && c <= 'Z') ==> 'a' <= l && l <= 'z' && l as int - 'a' as int == c as int
                    - 'A' as int
            },
{
}

/// Lower case is the same when taken twice, and goes character by character.
pub proof fn law_lower_twice(a: Seq<char>, b: Seq<char>)
    ensures
        lower(lower(a)) == lower(a),
        lower(a + b) == lower(a) + lower(b),
{
    assert(lower(lower(a)) =~= lower(a));
    assert(lower(a + b) =~= lower(a) + lower(b));
}

/// What is trimmed off the end of a text is nothing but repetitions of the suffix, and none of
/// them is left.
pub proof fn law_trimmed(s: Seq<char>, suffix: Seq<char>)
    requires
        suffix.len() > 0,
    ensures
        exists|k: nat| s == trimmed(s, suffix) + #[trigger] repeated(suffix, k),
        !ends_with(trimmed(s, suffix), suffix),
    decreases s.len(),
{
    let n = s.len() - suffix.len();
    if 0 <= n && s.skip(n) == suffix {
        let front = s.take(n);
        law_trimmed(front, suffix);
        let k = choose|k: nat| front == trimmed(front, suffix) + #[trigger] repeated(suffix, k);
        assert(s =~= front + suffix);
        assert(s =~= trimmed(s, suffix) + repeated(suffix, k + 1));
    } else {
        assert(s =~= s + repeated(suffix, 0));
        if ends_with(s, suffix) {
            let front = choose|front: Seq<char>| s == #[trigger] (front + suffix);
            assert(s.skip(n) =~= suffix);
        }
    }
}

/// One more suffix at the end of a text makes no difference to what is left of it.
pub proof fn law_trimmed_again(s: Seq<char>, suffix: Seq<char>)
    requires
        suffix.len() > 0,
    ensures
        trimmed(s + suffix, suffix) == trimmed(s, suffix),
{
    let long = s + suffix;
    assert(long.skip(long.len() - suffix.len()) =~= suffix);
    assert(long.take(long.len() - suffix.len()) =~= s);
}

/// A text that does not end in the suffix is what is left of it, however often the suffix stands
/// behind it.
pub proof fn law_trimmed_keeps(s: Seq<char>, suffix: Seq<char>, k: nat)
    requires
        suffix.len() > 0,
        !ends_with(s, suffix),
    ensures
        trimmed(s + repeated(suffix, k), suffix) == s,
    decreases k,
{
    if k == 0 {
        assert(s + repeated(suffix, k) =~= s);
        let n = s.len() - suffix.len();
        if 0 <= n && s.skip(n) == suffix {
            assert(s =~= s.take(n) + suffix);
        }
    } else {
        let rest = (k - 1) as nat;
        law_trimmed_keeps(s, suffix, rest);
        law_trimmed_again(s + repeated(suffix, rest), suffix);
        assert(s + repeated(suffix, k) =~= s + repeated(suffix, rest) + suffix);
    }
}

} // verus!

//! Reading small pieces of text: comparing, splitting at a separator, and
//! unsigned decimal numbers.

use vstd::prelude::*;

verus! {

/// The value of a decimal digit.
pub open spec fn digit_value(c: char) -> Option<nat> {
    if '0' <= c && c <= '9' {
        Some((c as nat - '0' as nat) as nat)
    } else {
        None
    }
}

/// The value of a run of decimal digits; `None` where the run is empty or holds
/// anything but digits.
pub open spec fn digits_value(s: Seq<char>) -> Option<nat>
    decreases s.len(),
{
    if s.len() == 0 {
        None
    } else if s.len() == 1 {
        digit_value(s[0])
    } else {
        match (digits_value(s.drop_last()), digit_value(s.last())) {
            (Some(high), Some(low)) => Some(10 * high + low),
            _ => None,
        }
    }
}

/// The value of an unsigned decimal number: digits, after at most one `+`.
pub open spec fn unsigned_value(s: Seq<char>) -> Option<nat> {
    if s.len() > 0 && s[0] == '+' {
        digits_value(s.skip(1))
    } else {
        digits_value(s)
    }
}

/// The value, where there is one and it is no more than `max`.
pub open spec fn within(value: Option<nat>, max: nat) -> Option<nat> {
    match value {
        Some(value) => if value <= max {
            Some(value)
        } else {
            None
        },
        None => None,
    }
}

/// The value of an unsigned decimal number that is no more than `max`.
pub open spec fn bounded_value(s: Seq<char>, max: nat) -> Option<nat> {
    within(unsigned_value(s), max)
}

/// Where the separator stands in `s` at index `at`.
pub open spec fn separator_at(s: Seq<char>, sep: Seq<char>, at: int) -> bool {
    0 <= at && at + sep.len() <= s.len() && s.subrange(at, at + sep.len()) == sep
}

/// The pieces of `s` from `start` on, between separators, where no separator
/// begins in `start..at`. Separators are found from left to right and do not
/// overlap.
pub open spec fn pieces_from(s: Seq<char>, sep: Seq<char>, start: int, at: int) -> Seq<Seq<char>>
    recommends
        0 <= start <= at <= s.len(),
    decreases s.len() - at,
{
    if sep.len() == 0 || at < 0 || at + sep.len() > s.len() {
        seq![s.subrange(start, s.len() as int)]
    } else if separator_at(s, sep, at) {
        seq![s.subrange(start, at)] + pieces_from(s, sep, at + sep.len(), at + sep.len())
    } else {
        pieces_from(s, sep, start, at + 1)
    }
}

/// The pieces of `s` between separators: `s` itself where it holds none, and an
/// empty piece where two stand side by side or one stands at an end. An empty
/// separator separates nothing.
pub open spec fn pieces(s: Seq<char>, sep: Seq<char>) -> Seq<Seq<char>> {
    pieces_from(s, sep, 0, 0)
}

/// The texts as sequences of characters.
pub open spec fn texts_view(texts: Seq<&str>) -> Seq<Seq<char>> {
    texts.map_values(|text: &str| text@)
}

/// The characters of a text.
pub fn chars_of(text: &str) -> (chars: Vec<char>)
    ensures
        chars@ == text@,
{
    let mut chars: Vec<char> = Vec::new();
    for c in it: text.chars()
        invariant
            chars@ == it.seq().take(it.index() as int),
    {
        chars.push(c);
    }
    chars
}

/// Whether two texts hold the same characters.
pub fn same_text(a: &str, b: &str) -> (same: bool)
    ensures
        same == (a@ == b@),
{
    a.to_owned() == b.to_owned()
}

fn separator_here(chars: &Vec<char>, sep: &Vec<char>, at: usize) -> (here: bool)
    requires
        at + sep@.len() <= chars@.len(),
    ensures
        here == separator_at(chars@, sep@, at as int),
{
    let mut k: usize = 0;
    while k < sep.len()
        invariant
            k <= sep.len(),
            at + sep.len() <= chars.len(),
            forall|j: int| 0 <= j < k ==> chars@[at + j] == sep@[j],
        decreases sep@.len() - k,
    {
        if chars[at + k] != sep[k] {
            assert(chars@.subrange(at as int, at + sep@.len())[k as int] == chars@[at + k]);
            return false;
        }
        k = k + 1;
    }
    assert(chars@.subrange(at as int, at + sep@.len()) =~= sep@);
    true
}

/// Splits a text at each separator, from left to right.
pub fn split<'a>(text: &'a str, separator: &str) -> (parts: Vec<&'a str>)
    ensures
        texts_view(parts@) == pieces(text@, separator@),
{
    let chars = chars_of(text);
    let sep = chars_of(separator);
    let mut parts: Vec<&'a str> = Vec::new();
    if sep.len() == 0 {
        parts.push(text);
        assert(text@.subrange(0, text@.len() as int) =~= text@);
        assert(texts_view(parts@) =~= seq![text@]);
        return parts;
    }
    let mut start: usize = 0;
    let mut at: usize = 0;
    while sep.len() <= chars.len() - at
        invariant
            chars@ == text@,
            sep@ == separator@,
            sep@.len() > 0,
            start <= at <= chars@.len(),
            texts_view(parts@) + pieces_from(text@, separator@, start as int, at as int) == pieces(
                text@,
                separator@,
            ),
        decreases chars@.len() - at,
    {
        if separator_here(&chars, &sep, at) {
            let ghost before = texts_view(parts@);
            parts.push(text.substring_char(start, at));
            assert(texts_view(parts@) =~= before + seq![text@.subrange(start as int, at as int)]);
            at = at + sep.len();
            start = at;
        } else {
            at = at + 1;
        }
    }
    let ghost before = texts_view(parts@);
    parts.push(text.substring_char(start, chars.len()));
    assert(texts_view(parts@) =~= before + seq![text@.subrange(start as int, text@.len() as int)]);
    parts
}

/// Adding a digit to a run of digits multiplies its value by ten and adds the
/// digit.
proof fn lemma_digits_push(s: Seq<char>, c: char)
    requires
        s.len() > 0,
    ensures
        digits_value(s.push(c)) == match (digits_value(s), digit_value(c)) {
            (Some(high), Some(low)) => Some(10 * high + low),
            _ => None,
        },
{
    assert(s.push(c).drop_last() =~= s);
}

/// A run that has anything but digits in front has no value, however it goes on.
proof fn lemma_digits_prefix(s: Seq<char>, n: int)
    requires
        0 < n <= s.len(),
    ensures
        digits_value(s.take(n)) is None ==> digits_value(s) is None,
        digits_value(s.take(n)) is Some && digits_value(s) is Some ==> digits_value(s.take(n))->0
            <= digits_value(s)->0,
    decreases s.len() - n,
{
    if n < s.len() {
        assert(s.take(n + 1) =~= s.take(n).push(s[n]));
        lemma_digits_push(s.take(n), s[n]);
        lemma_digits_prefix(s, n + 1);
    } else {
        assert(s.take(n) =~= s);
    }
}

fn digits_bounded(chars: &Vec<char>, from: usize, max: u32) -> (value: Option<u32>)
    requires
        from <= chars@.len(),
    ensures
        value matches Some(v) ==> within(digits_value(chars@.skip(from as int)), max as nat)
            == Some(v as nat),
        value is None ==> within(digits_value(chars@.skip(from as int)), max as nat) is None,
{
    let ghost digits = chars@.skip(from as int);
    if from == chars.len() {
        return None;
    }
    let mut total: u64 = 0;
    let mut i: usize = from;
    while i < chars.len()
        invariant
            from <= i <= chars@.len(),
            from < chars@.len(),
            digits == chars@.skip(from as int),
            total <= max,
            i > from ==> digits_value(digits.take(i - from)) == Some(total as nat),
            i == from ==> total == 0,
        decreases chars@.len() - i,
    {
        let c = chars[i];
        proof {
            assert(digits.take(i - from + 1) =~= digits.take(i - from).push(c));
            if i > from {
                lemma_digits_push(digits.take(i - from), c);
            } else {
                assert(digits.take(1).len() == 1);
            }
            lemma_digits_prefix(digits, i - from + 1);
        }
        if c < '0' || c > '9' {
            return None;
        }
        let low: u64 = (c as u32 - '0' as u32) as u64;
        let next: u64 = 10 * total + low;
        if next > max as u64 {
            return None;
        }
        total = next;
        i = i + 1;
    }
    assert(digits.take(i - from) =~= digits);
    Some(total as u32)
}

/// Reads an unsigned decimal number of at most `max`: digits after at most one
/// `+`, and nothing else.
pub fn parse_unsigned(text: &str, max: u32) -> (value: Option<u32>)
    ensures
        value matches Some(v) ==> bounded_value(text@, max as nat) == Some(v as nat),
        value is None ==> bounded_value(text@, max as nat) is None,
{
    let chars = chars_of(text);
    if chars.len() > 0 && chars[0] == '+' {
        digits_bounded(&chars, 1, max)
    } else {
        assert(chars@.skip(0) =~= chars@);
        digits_bounded(&chars, 0, max)
    }
}

} // verus!

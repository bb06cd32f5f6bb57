//! Text as sequences of characters: what it means to trim a text, to split it
//! at a character, to read a number out of it and to write one into it.

use vstd::prelude::*;
use vstd::string::StringExecFns;

verus! {

/// Whether a character is white space: it carries the Unicode property
/// `White_Space`, which is the notion of white space of `str::trim`.
pub open spec fn is_white(c: char) -> bool {
    let n = c as u32;
    ||| 0x9 <= n <= 0xd
    ||| n == 0x20 || n == 0x85 || n == 0xa0 || n == 0x1680
    ||| 0x2000 <= n <= 0x200a
    ||| n == 0x2028 || n == 0x2029 || n == 0x202f || n == 0x205f || n == 0x3000
}

/// A text without the white space at its two ends.
pub open spec fn trim(s: Seq<char>) -> Seq<char>
    decreases s.len(),
{
    if s.len() > 0 && is_white(s.first()) {
        trim(s.drop_first())
    } else if s.len() > 0 && is_white(s.last()) {
        trim(s.drop_last())
    } else {
        s
    }
}

/// The parts of a text between the occurrences of a separator: always one part
/// more than there are separators.
pub open spec fn split(s: Seq<char>, sep: char) -> Seq<Seq<char>>
    decreases s.len(),
{
    if s.len() == 0 {
        seq![Seq::empty()]
    } else {
        let parts = split(s.drop_last(), sep);
        if s.last() == sep {
            parts.push(Seq::empty())
        } else {
            parts.drop_last().push(parts.last().push(s.last()))
        }
    }
}

/// Whether a character is one of the ten ASCII digits.
pub open spec fn is_digit(c: char) -> bool {
    '0' <= c <= '9'
}

/// Whether a text is made of ASCII digits only.
pub open spec fn all_digits(s: Seq<char>) -> bool {
    forall|i: int| 0 <= i < s.len() ==> is_digit(#[trigger] s[i])
}

/// The number that a row of decimal digits stands for.
pub open spec fn decimal_value(s: Seq<char>) -> nat
    decreases s.len(),
{
    if s.len() == 0 {
        0
    } else {
        decimal_value(s.drop_last()) * 10 + (s.last() as u32 - '0' as u32) as nat
    }
}

/// The number that a text reads as: one or more decimal digits and nothing else,
/// with a value that a `u32` can hold.
pub open spec fn number(s: Seq<char>) -> Option<u32> {
    if s.len() > 0 && all_digits(s) && decimal_value(s) <= u32::MAX {
        Some(decimal_value(s) as u32)
    } else {
        None
    }
}

/// The decimal digit that stands for a value below ten.
pub open spec fn digit_char(d: int) -> char {
    seq!['0', '1', '2', '3', '4', '5', '6', '7', '8', '9'][d]
}

/// A number below one hundred as two decimal digits.
pub open spec fn two_digits(n: int) -> Seq<char> {
    seq![digit_char(n / 10), digit_char(n % 10)]
}

/// Texts in a row, with a separator between any two neighbours.
pub open spec fn join(list: Seq<Seq<char>>, sep: Seq<char>) -> Seq<char>
    decreases list.len(),
{
    if list.len() == 0 {
        Seq::empty()
    } else if list.len() == 1 {
        list[0]
    } else {
        join(list.drop_last(), sep) + sep + list.last()
    }
}

/// The characters that each of some rows of characters holds.
pub open spec fn rows(parts: Seq<Vec<char>>) -> Seq<Seq<char>> {
    parts.map_values(|part: Vec<char>| part@)
}

/// More digits never make a smaller number.
proof fn lemma_decimal_value_grows(s: Seq<char>, i: int)
    requires
        0 <= i <= s.len(),
        all_digits(s),
    ensures
        decimal_value(s.take(i)) <= decimal_value(s),
    decreases s.len() - i,
{
    if i < s.len() {
        lemma_decimal_value_grows(s, i + 1);
        assert(s.take(i + 1).drop_last() =~= s.take(i));
    } else {
        assert(s.take(i) =~= s);
    }
}

/// The characters of a text, one by one.
pub(crate) fn chars_of(text: &str) -> (chars: Vec<char>)
    ensures
        chars@ == text@,
{
    let mut chars: Vec<char> = Vec::new();
    for c in it: text.chars()
        invariant
            it.seq() == text@,
            chars@ == text@.take(it.index()),
    {
        chars.push(c);
    }
    assert(text@.take(text@.len() as int) =~= text@);
    chars
}

/// Tells white space by the code point.
fn white(c: char) -> (r: bool)
    ensures
        r == is_white(c),
{
    let n: u32 = c as u32;
    (0x9 <= n && n <= 0xd) || n == 0x20 || n == 0x85 || n == 0xa0 || n == 0x1680
        || (0x2000 <= n && n <= 0x200a) || n == 0x2028 || n == 0x2029 || n == 0x202f
        || n == 0x205f || n == 0x3000
}

/// Where the trimmed text begins and ends.
pub(crate) fn trim_bounds(chars: &Vec<char>) -> (r: (usize, usize))
    ensures
        r.0 <= r.1 <= chars@.len(),
        chars@.subrange(r.0 as int, r.1 as int) == trim(chars@),
{
    let mut from: usize = 0;
    let mut to: usize = chars.len();
    assert(chars@.subrange(0, to as int) =~= chars@);
    while from < to && white(chars[from])
        invariant
            from <= to == chars@.len(),
            trim(chars@) == trim(chars@.subrange(from as int, to as int)),
        decreases to - from,
    {
        let ghost rest = chars@.subrange(from as int, to as int);
        assert(rest.drop_first() =~= chars@.subrange(from + 1, to as int));
        from = from + 1;
    }
    while from < to && white(chars[to - 1])
        invariant
            from <= to <= chars@.len(),
            from < to ==> !is_white(chars@[from as int]),
            trim(chars@) == trim(chars@.subrange(from as int, to as int)),
        decreases to - from,
    {
        let ghost rest = chars@.subrange(from as int, to as int);
        assert(rest.drop_last() =~= chars@.subrange(from as int, to - 1));
        assert(rest.first() == chars@[from as int]);
        to = to - 1;
    }
    (from, to)
}

/// Cuts a stretch of a text at each separator.
pub(crate) fn split_at(chars: &Vec<char>, from: usize, to: usize, sep: char) -> (parts: Vec<Vec<char>>)
    requires
        from <= to <= chars@.len(),
    ensures
        rows(parts@) == split(chars@.subrange(from as int, to as int), sep),
{
    let mut parts: Vec<Vec<char>> = Vec::new();
    let mut part: Vec<char> = Vec::new();
    let mut i: usize = from;
    assert(rows(parts@).push(part@) =~= split(chars@.subrange(from as int, from as int), sep));
    while i < to
        invariant
            from <= i <= to <= chars@.len(),
            rows(parts@).push(part@) == split(chars@.subrange(from as int, i as int), sep),
        decreases to - i,
    {
        let ghost seen = chars@.subrange(from as int, i + 1);
        let ghost before = rows(parts@).push(part@);
        assert(seen.drop_last() =~= chars@.subrange(from as int, i as int));
        assert(before.drop_last() =~= rows(parts@));
        let c = chars[i];
        if c == sep {
            let ghost done = part@;
            let ghost old_parts = parts@;
            parts.push(part);
            part = Vec::new();
            assert(rows(parts@) =~= rows(old_parts).push(done));
            assert(part@ =~= Seq::<char>::empty());
        } else {
            part.push(c);
        }
        i = i + 1;
    }
    let ghost old_parts = parts@;
    let ghost done = part@;
    parts.push(part);
    assert(rows(parts@) =~= rows(old_parts).push(done));
    parts
}

/// Reads a number out of a part.
pub(crate) fn read_number(part: &Vec<char>) -> (r: Option<u32>)
    ensures
        r == number(part@),
{
    if part.len() == 0 {
        return None;
    }
    let mut value: u32 = 0;
    let mut i: usize = 0;
    while i < part.len()
        invariant
            i <= part@.len(),
            all_digits(part@.take(i as int)),
            value == decimal_value(part@.take(i as int)),
        decreases part@.len() - i,
    {
        let c = part[i];
        if !('0' <= c && c <= '9') {
            assert(!is_digit(part@[i as int]));
            return None;
        }
        let digit: u32 = c as u32 - '0' as u32;
        let wide: u64 = value as u64 * 10 + digit as u64;
        let ghost seen = part@.take(i + 1);
        assert(seen.drop_last() =~= part@.take(i as int));
        assert(wide == decimal_value(seen));
        if wide > u32::MAX as u64 {
            proof {
                if all_digits(part@) {
                    lemma_decimal_value_grows(part@, i + 1);
                }
            }
            return None;
        }
        value = wide as u32;
        assert forall|k: int| 0 <= k < seen.len() implies is_digit(#[trigger] seen[k]) by {
            if k < i {
                assert(part@.take(i as int)[k] == seen[k]);
            }
        }
        i = i + 1;
    }
    assert(part@.take(part@.len() as int) =~= part@);
    Some(value)
}

/// The digit for a value below ten, as a text.
fn digit_text(d: u32) -> (r: &'static str)
    requires
        d < 10,
    ensures
        r@ == seq![digit_char(d as int)],
{
    proof {
        reveal_strlit("0");
        reveal_strlit("1");
        reveal_strlit("2");
        reveal_strlit("3");
        reveal_strlit("4");
        reveal_strlit("5");
        reveal_strlit("6");
        reveal_strlit("7");
        reveal_strlit("8");
        reveal_strlit("9");
    }
    match d {
        0 => "0",
        1 => "1",
        2 => "2",
        3 => "3",
        4 => "4",
        5 => "5",
        6 => "6",
        7 => "7",
        8 => "8",
        _ => "9",
    }
}

/// Writes a number below one hundred as two decimal digits.
pub(crate) fn push_two_digits(out: &mut String, n: u32)
    requires
        n < 100,
    ensures
        final(out)@ == old(out)@ + two_digits(n as int),
{
    out.append(digit_text(n / 10));
    out.append(digit_text(n % 10));
    assert(out@ =~= old(out)@ + two_digits(n as int));
}

} // verus!

//! What holds of texts: of the white space that is taken off, of the parts a
//! text falls into, and of the numbers that are read and written.

use vstd::prelude::*;

use crate::laws;
use crate::text;

verus! {

/// White space is these characters and no other.
pub proof fn the_characters_that_are_white_space(c: char)
    ensures
        text::is_white(c) <==> seq![
            '\u{9}',
            '\u{a}',
            '\u{b}',
            '\u{c}',
            '\u{d}',
            '\u{20}',
            '\u{85}',
            '\u{a0}',
            '\u{1680}',
            '\u{2000}',
            '\u{2001}',
            '\u{2002}',
            '\u{2003}',
            '\u{2004}',
            '\u{2005}',
            '\u{2006}',
            '\u{2007}',
            '\u{2008}',
            '\u{2009}',
            '\u{200a}',
            '\u{2028}',
            '\u{2029}',
            '\u{202f}',
            '\u{205f}',
            '\u{3000}',
        ].contains(c),
{
    let list = seq![
        '\u{9}',
        '\u{a}',
        '\u{b}',
        '\u{c}',
        '\u{d}',
        '\u{20}',
        '\u{85}',
        '\u{a0}',
        '\u{1680}',
        '\u{2000}',
        '\u{2001}',
        '\u{2002}',
        '\u{2003}',
        '\u{2004}',
        '\u{2005}',
        '\u{2006}',
        '\u{2007}',
        '\u{2008}',
        '\u{2009}',
        '\u{200a}',
        '\u{2028}',
        '\u{2029}',
        '\u{202f}',
        '\u{205f}',
        '\u{3000}',
    ];
    if text::is_white(c) {
        let n = c as u32 as int;
        let place = if n <= 0xd {
            n - 0x9
        } else if n == 0x20 {
            5
        } else if n == 0x85 {
            6
        } else if n == 0xa0 {
            7
        } else if n == 0x1680 {
            8
        } else if n <= 0x200a {
            9 + n - 0x2000
        } else if n == 0x2028 {
            20
        } else if n == 0x2029 {
            21
        } else if n == 0x202f {
            22
        } else if n == 0x205f {
            23
        } else {
            24
        };
        assert(list[place] == c);
    }
}

/// Trimming takes off all the white space in front and behind, and nothing of
/// what stands between.
pub proof fn trimming_takes_the_white_ends_off(
    front: Seq<char>,
    middle: Seq<char>,
    back: Seq<char>,
)
    requires
        forall|i: int| 0 <= i < front.len() ==> text::is_white(#[trigger] front[i]),
        forall|i: int| 0 <= i < back.len() ==> text::is_white(#[trigger] back[i]),
        middle.len() > 0 ==> !text::is_white(middle.first()) && !text::is_white(middle.last()),
    ensures
        text::trim(front + middle + back) == middle,
    decreases front.len() + back.len(),
{
    let s = front + middle + back;
    if front.len() > 0 {
        let fewer = front.drop_first();
        assert(s.first() == front[0]);
        assert(s.drop_first() =~= fewer + middle + back);
        assert forall|i: int| 0 <= i < fewer.len() implies text::is_white(
            #[trigger] fewer[i],
        ) by {
            assert(fewer[i] == front[i + 1]);
        }
        trimming_takes_the_white_ends_off(fewer, middle, back);
    } else if back.len() > 0 && middle.len() > 0 {
        let fewer = back.drop_last();
        assert(s.first() == middle.first());
        assert(s.last() == back[back.len() - 1]);
        assert(s.drop_last() =~= front + middle + fewer);
        assert forall|i: int| 0 <= i < fewer.len() implies text::is_white(
            #[trigger] fewer[i],
        ) by {
            assert(fewer[i] == back[i]);
        }
        trimming_takes_the_white_ends_off(front, middle, fewer);
    } else if back.len() > 0 {
        let fewer = back.drop_first();
        assert(s.first() == back[0]);
        assert(s.drop_first() =~= front + middle + fewer);
        assert forall|i: int| 0 <= i < fewer.len() implies text::is_white(
            #[trigger] fewer[i],
        ) by {
            assert(fewer[i] == back[i + 1]);
        }
        trimming_takes_the_white_ends_off(front, middle, fewer);
    } else {
        assert(s =~= middle);
        if s.len() > 0 {
            assert(s.first() == middle.first() && s.last() == middle.last());
        }
    }
}

/// A trimmed text is a stretch of the text: all before and behind it is white,
/// and it neither begins nor ends with white space.
pub proof fn a_trimmed_text_is_a_stretch_of_it(s: Seq<char>) -> (r: (int, int))
    ensures
        0 <= r.0 <= r.1 <= s.len(),
        text::trim(s) == s.subrange(r.0, r.1),
        forall|i: int| 0 <= i < r.0 ==> text::is_white(#[trigger] s[i]),
        forall|i: int| r.1 <= i < s.len() ==> text::is_white(#[trigger] s[i]),
        r.0 < r.1 ==> !text::is_white(s[r.0]) && !text::is_white(s[r.1 - 1]),
    decreases s.len(),
{
    if s.len() > 0 && text::is_white(s.first()) {
        let rest = s.drop_first();
        let (from, to) = a_trimmed_text_is_a_stretch_of_it(rest);
        assert(rest.subrange(from, to) =~= s.subrange(from + 1, to + 1));
        assert forall|i: int| 0 <= i < from + 1 implies text::is_white(#[trigger] s[i]) by {
            if i > 0 {
                assert(rest[i - 1] == s[i]);
            }
        }
        assert forall|i: int| to + 1 <= i < s.len() implies text::is_white(#[trigger] s[i]) by {
            assert(rest[i - 1] == s[i]);
        }
        (from + 1, to + 1)
    } else if s.len() > 0 && text::is_white(s.last()) {
        let rest = s.drop_last();
        let (from, to) = a_trimmed_text_is_a_stretch_of_it(rest);
        assert(rest.subrange(from, to) =~= s.subrange(from, to));
        assert forall|i: int| 0 <= i < from implies text::is_white(#[trigger] s[i]) by {
            assert(rest[i] == s[i]);
        }
        assert forall|i: int| to <= i < s.len() implies text::is_white(#[trigger] s[i]) by {
            if i < s.len() - 1 {
                assert(rest[i] == s[i]);
            }
        }
        (from, to)
    } else {
        assert(s.subrange(0, s.len() as int) =~= s);
        (0, s.len() as int)
    }
}

/// White space put around a text is taken off it again.
pub proof fn white_space_put_around_is_taken_off(
    front: Seq<char>,
    s: Seq<char>,
    back: Seq<char>,
)
    requires
        forall|i: int| 0 <= i < front.len() ==> text::is_white(#[trigger] front[i]),
        forall|i: int| 0 <= i < back.len() ==> text::is_white(#[trigger] back[i]),
    ensures
        text::trim(front + s + back) == text::trim(s),
{
    let (from, to) = a_trimmed_text_is_a_stretch_of_it(s);
    let middle = s.subrange(from, to);
    let head = front + s.subrange(0, from);
    let tail = s.subrange(to, s.len() as int) + back;
    assert(front + s + back =~= head + middle + tail);
    trimming_takes_the_white_ends_off(head, middle, tail);
}

/// The parts of a text hold no separator, there is at least one of them, and
/// with a separator between any two they make the text again.
pub proof fn the_parts_of_a_text_make_it_again(s: Seq<char>, sep: char)
    ensures
        text::split(s, sep).len() >= 1,
        forall|i: int|
            0 <= i < text::split(s, sep).len() ==> !(#[trigger] text::split(s, sep)[i]).contains(
                sep,
            ),
        text::join(text::split(s, sep), seq![sep]) == s,
    decreases s.len(),
{
    let parts = text::split(s, sep);
    if s.len() == 0 {
        assert(parts[0] =~= s);
    } else {
        let front = s.drop_last();
        let before = text::split(front, sep);
        the_parts_of_a_text_make_it_again(front, sep);
        assert(front.push(s.last()) =~= s);
        if s.last() == sep {
            assert(parts.drop_last() =~= before);
            assert(text::join(parts, seq![sep]) =~= s);
        } else {
            let last = before.last();
            assert(parts.drop_last() =~= before.drop_last());
            assert(parts.last() =~= last.push(s.last()));
            assert(before[before.len() - 1] == last);
            assert forall|k: int| 0 <= k < parts.last().len() implies parts.last()[k] != sep by {
                if k < last.len() {
                    assert(last.contains(last[k]));
                }
            }
            assert forall|i: int| 0 <= i < parts.len() implies !(#[trigger] parts[i]).contains(
                sep,
            ) by {
                if i < parts.len() - 1 {
                    assert(parts[i] == before[i]);
                }
            }
            assert(text::join(parts, seq![sep]) =~= s);
        }
    }
}

/// Texts that hold no separator come apart again as they were put together.
pub proof fn joined_texts_come_apart_again(parts: Seq<Seq<char>>, sep: char)
    requires
        parts.len() > 0,
        forall|i: int| 0 <= i < parts.len() ==> !(#[trigger] parts[i]).contains(sep),
    ensures
        text::split(text::join(parts, seq![sep]), sep) == parts,
    decreases parts.len(),
{
    if parts.len() == 1 {
        laws::lemma_split_whole(parts[0], sep);
        assert(parts =~= seq![parts[0]]);
    } else {
        let front = parts.drop_last();
        assert forall|i: int| 0 <= i < front.len() implies !(#[trigger] front[i]).contains(
            sep,
        ) by {
            assert(front[i] == parts[i]);
        }
        joined_texts_come_apart_again(front, sep);
        let start = text::join(front, seq![sep]);
        assert(parts[parts.len() - 1] == parts.last());
        laws::lemma_split_last(start, parts.last(), sep);
        assert(start + seq![sep] + parts.last() =~= start.push(sep) + parts.last());
        assert(front.push(parts.last()) =~= parts);
    }
}

/// Nothing joined is nothing, and one text joined is that text.
pub proof fn one_text_joined_is_itself(s: Seq<char>, sep: Seq<char>)
    ensures
        text::join(seq![s], sep) == s,
        text::join(Seq::empty(), sep) == Seq::<char>::empty(),
{
}

/// Two rows of texts joined are the one, a separator, and the other.
pub proof fn rows_of_texts_join_with_one_separator(
    a: Seq<Seq<char>>,
    b: Seq<Seq<char>>,
    sep: Seq<char>,
)
    requires
        a.len() > 0,
        b.len() > 0,
    ensures
        text::join(a + b, sep) == text::join(a, sep) + sep + text::join(b, sep),
    decreases b.len(),
{
    let all = a + b;
    assert(all.last() == b.last());
    if b.len() == 1 {
        assert(all.drop_last() =~= a);
    } else {
        assert(all.drop_last() =~= a + b.drop_last());
        rows_of_texts_join_with_one_separator(a, b.drop_last(), sep);
        assert(text::join(all, sep) =~= text::join(a, sep) + sep + text::join(b, sep));
    }
}

/// A number is written in digits, at least one, and in nothing else.
pub proof fn a_number_is_digits_and_nothing_else(s: Seq<char>)
    ensures
        text::number(s) is Some ==> s.len() > 0 && (forall|i: int|
            0 <= i < s.len() ==> '0' <= #[trigger] s[i] <= '9'),
{
    if text::number(s) is Some {
        assert forall|i: int| 0 <= i < s.len() implies '0' <= #[trigger] s[i] <= '9' by {
            assert(text::is_digit(s[i]));
        }
    }
}

/// One digit reads as its value.
pub proof fn one_digit_reads_as_its_value(c: char)
    ensures
        text::number(seq![c]) == (if '0' <= c <= '9' {
            Some((c as u32 - '0' as u32) as u32)
        } else {
            None
        }),
{
    let s = seq![c];
    assert(s[0] == c);
    assert(s.drop_last() =~= Seq::empty());
    reveal_with_fuel(text::decimal_value, 2);
    if '0' <= c <= '9' {
        assert(text::all_digits(s));
    } else {
        assert(!text::is_digit(s[0]));
    }
}

/// A digit behind a number makes it ten times as much and the digit more, as
/// long as that can be held; behind what is no number nothing makes it one.
pub proof fn a_further_digit_makes_ten_times_as_much(s: Seq<char>, c: char)
    requires
        s.len() > 0,
    ensures
        text::number(s.push(c)) == (match text::number(s) {
            Some(n) => if '0' <= c <= '9' && n * 10 + (c as u32 - '0' as u32) <= 0xffff_ffff {
                Some((n * 10 + (c as u32 - '0' as u32)) as u32)
            } else {
                None
            },
            None => None,
        }),
{
    let more = s.push(c);
    assert(more.drop_last() =~= s);
    assert(more.last() == c);
    if text::all_digits(more) {
        assert forall|i: int| 0 <= i < s.len() implies text::is_digit(#[trigger] s[i]) by {
            assert(more[i] == s[i]);
        }
        assert(more[s.len() as int] == c);
    }
    if text::all_digits(s) && text::is_digit(c) {
        assert forall|i: int| 0 <= i < more.len() implies text::is_digit(#[trigger] more[i]) by {
            if i < s.len() {
                assert(more[i] == s[i]);
            }
        }
    }
}

/// A number below one hundred is written as two digits, which read back.
pub proof fn two_digits_read_back(n: int)
    requires
        0 <= n < 100,
    ensures
        text::two_digits(n).len() == 2,
        text::number(text::two_digits(n)) == Some(n as u32),
{
    laws::lemma_two_digits_read_back(n);
}

} // verus!

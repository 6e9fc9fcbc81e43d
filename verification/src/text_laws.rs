//! What the text functions are for, whatever they are given.

use crate::input;
use crate::text;
use vstd::prelude::*;

verus! {

/// White space is what Unicode calls so, by code point.
pub proof fn white_space_is_unicodes(c: char)
    ensures
        ({
            let n = c as u32;
            text::is_white(c) <==> 9 <= n <= 13 || n == 32 || n == 133 || n == 160 || n == 5760
                || 8192 <= n <= 8202 || n == 8232 || n == 8233 || n == 8239 || n == 8287 || n
                == 12288
        }),
{
}

/// Trimming leaves one piece of a text: only white space is cut off, and none is
/// left at the ends.
pub proof fn trimming_cuts_off_white_space(s: Seq<char>) -> (r: (int, int))
    ensures
        0 <= r.0 <= r.1 <= s.len(),
        text::trim(s) == s.subrange(r.0, r.1),
        forall|k: int| 0 <= k < r.0 ==> text::is_white(#[trigger] s[k]),
        forall|k: int| r.1 <= k < s.len() ==> text::is_white(#[trigger] s[k]),
        r.0 < r.1 ==> !text::is_white(s[r.0]) && !text::is_white(s[r.1 - 1]),
{
    let i = start_of(s);
    let t = text::trim_start(s);
    let j = end_of(t);
    text::trimming_is_idempotent(s);
    assert(text::trim(s) =~= s.subrange(i, i + j));
    assert forall|k: int| i + j <= k < s.len() implies text::is_white(#[trigger] s[k]) by {
        assert(s[k] == t[k - i]);
    }
    if j > 0 {
        assert(text::trim(s)[0] == s[i]);
        assert(text::trim(s).last() == s[i + j - 1]);
    }
    (i, i + j)
}

/// How much white space a text starts with.
proof fn start_of(s: Seq<char>) -> (i: int)
    ensures
        0 <= i <= s.len(),
        text::trim_start(s) == s.skip(i),
        forall|k: int| 0 <= k < i ==> text::is_white(#[trigger] s[k]),
    decreases s.len(),
{
    if s.len() > 0 && text::is_white(s[0]) {
        let i = start_of(s.skip(1));
        assert(s.skip(1).skip(i) =~= s.skip(i + 1));
        assert forall|k: int| 0 <= k < i + 1 implies text::is_white(#[trigger] s[k]) by {
            if k > 0 {
                assert(s[k] == s.skip(1)[k - 1]);
            }
        }
        i + 1
    } else {
        assert(s.skip(0) =~= s);
        0
    }
}

/// Where the white space at the end of a text begins.
proof fn end_of(s: Seq<char>) -> (j: int)
    ensures
        0 <= j <= s.len(),
        text::trim_end(s) == s.take(j),
        forall|k: int| j <= k < s.len() ==> text::is_white(#[trigger] s[k]),
    decreases s.len(),
{
    if s.len() > 0 && text::is_white(s.last()) {
        let j = end_of(s.drop_last());
        assert(s.drop_last().take(j) =~= s.take(j));
        assert forall|k: int| j <= k < s.len() implies text::is_white(#[trigger] s[k]) by {
            if k < s.len() - 1 {
                assert(s[k] == s.drop_last()[k]);
            }
        }
        j
    } else {
        assert(s.take(s.len() as int) =~= s);
        s.len() as int
    }
}

/// A text that is not white space at either end, between any white space, is what
/// trimming leaves.
pub proof fn trimming_finds_the_middle(a: Seq<char>, m: Seq<char>, b: Seq<char>)
    requires
        forall|k: int| 0 <= k < a.len() ==> text::is_white(#[trigger] a[k]),
        forall|k: int| 0 <= k < b.len() ==> text::is_white(#[trigger] b[k]),
        m.len() > 0 ==> !text::is_white(m[0]) && !text::is_white(m.last()),
    ensures
        text::trim(a + m + b) == m,
{
    let s = a + m + b;
    let (i, j) = trimming_cuts_off_white_space(s);
    if m.len() == 0 {
        if i < j {
            if i < a.len() {
                assert(s[i] == a[i]);
            } else {
                assert(s[i] == b[i - a.len()]);
            }
        }
        assert(text::trim(s) =~= m);
    } else {
        assert(s[a.len() as int] == m[0]);
        assert(s[a.len() + m.len() - 1] == m.last());
        if i < a.len() && i < j {
            assert(s[i] == a[i]);
        }
        if j > a.len() + m.len() && i < j {
            assert(s[j - 1] == b[j - 1 - a.len() - m.len()]);
        }
        assert(text::trim(s) =~= m);
    }
}

/// A text occurs in another exactly where that is made of something before it, the
/// text itself, and something after it.
pub proof fn occurring_is_being_a_part(a: Seq<char>, m: Seq<char>, b: Seq<char>, hay: Seq<char>) -> (r: (
    Seq<char>,
    Seq<char>,
))
    ensures
        text::occurs(a + m + b, m),
        text::occurs(hay, m) ==> hay == r.0 + m + r.1,
{
    let s = a + m + b;
    assert(s.subrange(a.len() as int, a.len() + m.len() as int) =~= m);
    assert(text::occurs_at(s, m, a.len() as int));
    if text::occurs(hay, m) {
        let at = choose|at: int| #[trigger] text::occurs_at(hay, m, at);
        let x = hay.take(at);
        let y = hay.skip(at + m.len());
        assert(hay =~= x + hay.subrange(at, at + m.len()) + y);
        (x, y)
    } else {
        (Seq::empty(), Seq::empty())
    }
}

/// Dictionary order goes by the first difference, and a text comes before every
/// longer one that it starts.
pub proof fn dictionary_order_goes_by_the_first_difference(
    common: Seq<char>,
    x: char,
    y: char,
    u: Seq<char>,
    v: Seq<char>,
)
    requires
        x < y,
    ensures
        text::text_lt(common + seq![x] + u, common + seq![y] + v),
        v.len() > 0 ==> text::text_lt(common, common + v),
    decreases common.len(),
{
    let a = common + seq![x] + u;
    let b = common + seq![y] + v;
    if common.len() > 0 {
        dictionary_order_goes_by_the_first_difference(common.skip(1), x, y, u, v);
        assert(a.skip(1) =~= common.skip(1) + seq![x] + u);
        assert(b.skip(1) =~= common.skip(1) + seq![y] + v);
        assert((common + v).skip(1) =~= common.skip(1) + v);
    }
}

/// Aligning fills a text up with spaces, on the one side or the other, and never
/// cuts it.
pub proof fn aligning_fills_up(s: Seq<char>, width: int)
    requires
        width >= 0,
    ensures
        ({
            let l = text::left_aligned(s, width);
            let r = text::right_aligned(s, width);
            let n = if s.len() < width {
                width
            } else {
                s.len() as int
            };
            &&& l.len() == n && r.len() == n
            &&& l.take(s.len() as int) == s
            &&& r.skip(n - s.len()) == s
            &&& forall|k: int| s.len() <= k < n ==> #[trigger] l[k] == ' '
            &&& forall|k: int| 0 <= k < n - s.len() ==> #[trigger] r[k] == ' '
        }),
{
    let l = text::left_aligned(s, width);
    let r = text::right_aligned(s, width);
    assert(l.take(s.len() as int) =~= s);
    assert(r.skip(r.len() - s.len()) =~= s);
}

/// The words of a text are what stands between white space: a word with white space
/// before it and after it is split off, and the rest is split likewise.
pub proof fn words_stand_between_white_space(
    before: Seq<char>,
    word: Seq<char>,
    after: char,
    rest: Seq<char>,
)
    requires
        forall|k: int| 0 <= k < before.len() ==> text::is_white(#[trigger] before[k]),
        word.len() > 0,
        forall|k: int| 0 <= k < word.len() ==> !text::is_white(#[trigger] word[k]),
        text::is_white(after),
    ensures
        text::words(before) == Seq::<Seq<char>>::empty(),
        text::words(before + word) == seq![word],
        text::words(before + word + seq![after] + rest) == seq![word] + text::words(rest),
{
    leading_white_goes(before, Seq::empty());
    assert(before + Seq::<char>::empty() =~= before);
    leading_white_goes(before, word);
    let tail = seq![after] + rest;
    leading_white_goes(before, word + tail);
    assert(before + word + seq![after] + rest =~= before + (word + tail));
    word_ends(word, Seq::empty());
    assert(word + Seq::<char>::empty() =~= word);
    word_ends(word, tail);
    assert(text::trim_start(word) == word);
    assert(word.take(word.len() as int) =~= word);
    assert(word.skip(word.len() as int) =~= Seq::<char>::empty());
    assert(text::words(Seq::<char>::empty()) =~= Seq::<Seq<char>>::empty());
    assert(text::words(word) =~= seq![word]);
    let s = word + tail;
    assert(text::trim_start(s) == s) by {
        assert(s[0] == word[0]);
    }
    assert(s.take(word.len() as int) =~= word);
    assert(s.skip(word.len() as int) =~= tail);
    assert(tail.skip(1) =~= rest);
    assert(text::trim_start(tail) == text::trim_start(rest));
    assert(text::words(tail) == text::words(rest));
}

/// Words do not depend on leading white space.
proof fn leading_white_goes(before: Seq<char>, s: Seq<char>)
    requires
        forall|k: int| 0 <= k < before.len() ==> text::is_white(#[trigger] before[k]),
    ensures
        text::trim_start(before + s) == text::trim_start(s),
        text::words(before + s) == text::words(s),
    decreases before.len(),
{
    if before.len() > 0 {
        assert forall|k: int| 0 <= k < before.skip(1).len() implies text::is_white(
            #[trigger] before.skip(1)[k],
        ) by {
            assert(before.skip(1)[k] == before[k + 1]);
        }
        leading_white_goes(before.skip(1), s);
        assert((before + s).skip(1) =~= before.skip(1) + s);
        assert((before + s)[0] == before[0]);
    } else {
        assert(before + s =~= s);
    }
}

/// A word ends at the first white space.
proof fn word_ends(word: Seq<char>, tail: Seq<char>)
    requires
        forall|k: int| 0 <= k < word.len() ==> !text::is_white(#[trigger] word[k]),
        tail.len() > 0 ==> text::is_white(tail[0]),
    ensures
        text::word_len(word + tail) == word.len(),
    decreases word.len(),
{
    let s = word + tail;
    if word.len() > 0 {
        assert(s[0] == word[0]);
        assert(s.skip(1) =~= word.skip(1) + tail);
        assert forall|k: int| 0 <= k < word.skip(1).len() implies !text::is_white(
            #[trigger] word.skip(1)[k],
        ) by {
            assert(word.skip(1)[k] == word[k + 1]);
        }
        word_ends(word.skip(1), tail);
    } else {
        assert(s =~= tail);
    }
}

/// Only the hashes that a text starts with are dropped, all of them.
pub proof fn leading_hashes_are_dropped(hashes: Seq<char>, s: Seq<char>)
    requires
        forall|k: int| 0 <= k < hashes.len() ==> #[trigger] hashes[k] == '#',
        s.len() > 0 ==> s[0] != '#',
    ensures
        text::without_hashes(hashes + s) == s,
    decreases hashes.len(),
{
    if hashes.len() > 0 {
        assert forall|k: int| 0 <= k < hashes.skip(1).len() implies #[trigger] hashes.skip(1)[k]
            == '#' by {
            assert(hashes.skip(1)[k] == hashes[k + 1]);
        }
        leading_hashes_are_dropped(hashes.skip(1), s);
        assert((hashes + s).skip(1) =~= hashes.skip(1) + s);
        assert((hashes + s)[0] == hashes[0]);
    } else {
        assert(hashes + s =~= s);
    }
}

/// Joining puts the separator between neighbours and nowhere else: the first text,
/// the separator, the rest joined.
pub proof fn joining_puts_separators_between(
    first: Seq<char>,
    rest: Seq<Seq<char>>,
    sep: Seq<char>,
)
    ensures
        text::joined(Seq::empty(), sep) == Seq::<char>::empty(),
        text::joined(seq![first], sep) == first,
        rest.len() > 0 ==> text::joined(seq![first] + rest, sep) == first + sep + text::joined(
            rest,
            sep,
        ),
    decreases rest.len(),
{
    let all = seq![first] + rest;
    if rest.len() == 1 {
        assert(all.drop_last() =~= seq![first]);
        assert(all.last() == rest[0]);
        assert(text::joined(seq![first], sep) == first);
        assert(text::joined(rest, sep) == rest[0]);
    } else if rest.len() > 1 {
        let init = rest.drop_last();
        joining_puts_separators_between(first, init, sep);
        assert(all.drop_last() =~= seq![first] + init);
        assert(all.last() == rest.last());
        assert(text::joined(all, sep) =~= first + sep + text::joined(rest, sep));
    }
}

/// Dropping a text from a list keeps all the others, in their order and number.
pub proof fn dropping_is_filtering(list: Seq<Seq<char>>, t: Seq<char>)
    ensures
        text::dropping(list, t) == list.filter(|x: Seq<char>| x != t),
    decreases list.len(),
{
    reveal(Seq::filter);
    if list.len() > 0 {
        dropping_is_filtering(list.drop_last(), t);
    }
}

/// A decimal number has no needless zero at the front.
pub proof fn decimals_are_plain(n: nat)
    ensures
        text::decimal(n).len() > 0,
        text::decimal(n)[0] == '0' ==> n == 0,
        n < 10 ==> text::decimal(n).len() == 1,
    decreases n,
{
    if n >= 10 {
        decimals_are_plain(n / 10);
    }
}

/// Digits read as a number from the left, each ten times what follows; a plus sign
/// may come before them, and nothing else may.
pub proof fn digits_read_as_numbers(d: Seq<char>, max: nat)
    requires
        d.len() > 0,
        forall|k: int| 0 <= k < d.len() ==> '0' <= #[trigger] d[k] <= '9',
    ensures
        text::spelled(d) == text::spelled(d.drop_last()) * 10 + (d.last() as int - '0' as int),
        text::number_of(d, max) == (if text::spelled(d) <= max {
            Some(text::spelled(d))
        } else {
            None
        }),
        text::number_of(seq!['+'] + d, max) == text::number_of(d, max),
        text::number_of(seq!['-'] + d, max) is None,
        text::number_of(Seq::empty(), max) is None,
{
    assert((seq!['+'] + d).skip(1) =~= d);
    assert(d[0] != '+');
    let m = seq!['-'] + d;
    assert(m[0] == '-');
    assert(!text::is_digit(m[0]));
}

/// What is kept of a long text is its end, as long as may be.
pub proof fn tails_are_ends(s: Seq<char>, width: int)
    requires
        width >= 0,
    ensures
        ({
            let t = input::tail_of(s, width);
            &&& t.len() == (if s.len() < width {
                s.len() as int
            } else {
                width
            })
            &&& s == s.take(s.len() - t.len()) + t
        }),
{
    let t = input::tail_of(s, width);
    assert(s =~= s.take(s.len() - t.len()) + t);
}

/// The visible part of an input line is one piece of prompt and input, as long as
/// the width allows. It starts at the beginning while the cursor fits, and otherwise
/// ends with the cursor's column.
pub proof fn windows_show_one_piece(
    prefix: Seq<char>,
    line: Seq<char>,
    cursor: int,
    width: int,
) -> (start: int)
    requires
        width >= 1,
        cursor >= 0,
    ensures
        ({
            let full = prefix + line;
            let at = prefix.len() + (if cursor < line.len() {
                cursor
            } else {
                line.len() as int
            });
            let (vis, col) = input::window_of(prefix, line, cursor, width);
            &&& 0 <= start <= full.len()
            &&& vis == full.subrange(start, start + vis.len())
            &&& vis.len() == (if full.len() - start < width {
                full.len() - start
            } else {
                width
            })
            &&& start + col == at
            &&& at < width ==> start == 0
            &&& at >= width ==> col == width - 1
        }),
{
    let full = prefix + line;
    let start = input::scrolled(prefix, line, cursor, width);
    let (vis, col) = input::window_of(prefix, line, cursor, width);
    assert(vis =~= full.subrange(start, start + vis.len()));
    start
}

/// Of the ASCII letters the capital ones are made small, thirty-two code points on, and
/// everything else is kept, in its place.
pub proof fn capital_letters_are_made_small(s: Seq<char>, i: int)
    requires
        0 <= i < s.len(),
    ensures
        text::ascii_lowered(s).len() == s.len(),
        'A' <= s[i] <= 'Z' ==> text::ascii_lowered(s)[i] as u32 == s[i] as u32 + 32,
        !('A' <= s[i] <= 'Z') ==> text::ascii_lowered(s)[i] == s[i],
{
}

} // verus!

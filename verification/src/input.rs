//! One-line text input: byte offsets, trailing text, and the visible window.

use crate::text;
use vstd::prelude::*;
use vstd::string::*;
use vstd::utf8;

verus! {

/// The smaller of two numbers.
pub open spec fn lesser(a: int, b: int) -> int {
    if a <= b {
        a
    } else {
        b
    }
}

/// The last `width` characters of `s`, or all of them.
pub open spec fn tail_of(s: Seq<char>, width: int) -> Seq<char> {
    if s.len() <= width {
        s
    } else {
        s.skip(s.len() - width)
    }
}

/// Keep the trailing `width` chars so the end of a long input stays visible.
pub fn tail(s: &str, width: usize) -> (r: String)
    ensures
        r@ == tail_of(s@, width as int),
{
    let v = text::chars_of(s);
    if v.len() <= width {
        return s.to_owned();
    }
    let lo: usize = v.len() - width;
    assert(v@.subrange(lo as int, v@.len() as int) =~= s@.skip(s@.len() - width));
    text::text_of(&v, lo, v.len())
}

/// How many bytes the character `c` takes up in UTF-8.
fn utf8_len(c: char) -> (r: usize)
    ensures
        r == utf8::encode_scalar(c as u32).len(),
        1 <= r <= 4,
{
    let u: u32 = c as u32;
    if u <= 0x7f {
        1
    } else if u <= 0x7ff {
        2
    } else if u <= 0xffff {
        3
    } else {
        4
    }
}

/// The encoding of a text is that of its start followed by that of its last
/// character.
proof fn encode_utf8_push(s: Seq<char>, c: char)
    ensures
        utf8::encode_utf8(s.push(c)) == utf8::encode_utf8(s) + utf8::encode_scalar(c as u32),
    decreases s.len(),
{
    let t = s.push(c);
    if s.len() == 0 {
        assert(t.drop_first() =~= Seq::<char>::empty());
        assert(utf8::encode_utf8(t.drop_first()) =~= Seq::<u8>::empty());
        assert(utf8::encode_utf8(t) =~= utf8::encode_scalar(c as u32));
        assert(utf8::encode_utf8(s) + utf8::encode_scalar(c as u32) =~= utf8::encode_scalar(
            c as u32,
        ));
    } else {
        encode_utf8_push(s.drop_first(), c);
        assert(t.drop_first() =~= s.drop_first().push(c));
        assert(utf8::encode_utf8(t) =~= utf8::encode_utf8(s) + utf8::encode_scalar(c as u32));
    }
}

/// A longer text takes up no fewer bytes.
proof fn encode_utf8_grows(s: Seq<char>, k: int)
    requires
        0 <= k <= s.len(),
    ensures
        utf8::encode_utf8(s.take(k)).len() <= utf8::encode_utf8(s).len(),
    decreases s.len() - k,
{
    if k == s.len() {
        assert(s.take(k) =~= s);
    } else {
        encode_utf8_grows(s, k + 1);
        encode_utf8_push(s.take(k), s[k]);
        assert(s.take(k + 1) =~= s.take(k).push(s[k]));
    }
}

/// Byte offset of char index `i` (or the string's end when `i` is past it).
pub fn byte_at(s: &str, i: usize) -> (r: usize)
    ensures
        r == utf8::encode_utf8(s@.take(lesser(i as int, s@.len() as int))).len(),
{
    let total: usize = s.as_bytes().len();
    let v = text::chars_of(s);
    let mut r: usize = 0;
    let mut k: usize = 0;
    assert(s@.take(0) =~= Seq::<char>::empty());
    while k < v.len() && k < i
        invariant
            v@ == s@,
            k <= v@.len(),
            k <= i,
            total == utf8::encode_utf8(s@).len(),
            r == utf8::encode_utf8(s@.take(k as int)).len(),
        decreases v@.len() - k,
    {
        proof {
            assert(s@.take(k + 1) =~= s@.take(k as int).push(s@[k as int]));
            encode_utf8_push(s@.take(k as int), s@[k as int]);
            encode_utf8_grows(s@, k + 1);
        }
        r += utf8_len(v[k]);
        k += 1;
    }
    r
}

/// The line that is edited: the prompt, then the input.
pub open spec fn edit_line(prefix: Seq<char>, input: Seq<char>) -> Seq<char> {
    prefix + input
}

/// Where the cursor stands in the edited line.
pub open spec fn line_cursor(prefix: Seq<char>, input: Seq<char>, cursor: int) -> int {
    prefix.len() + lesser(cursor, input.len() as int)
}

/// How many characters are scrolled out on the left, so that the cursor is inside
/// `width` columns.
pub open spec fn scrolled(prefix: Seq<char>, input: Seq<char>, cursor: int, width: int) -> int {
    let columns = if width < 1 {
        1
    } else {
        width
    };
    let cur = line_cursor(prefix, input, cursor);
    if cur >= columns {
        cur - (columns - 1)
    } else {
        0
    }
}

/// The part of the edited line that is visible, and the cursor's column in it.
pub open spec fn window_of(prefix: Seq<char>, input: Seq<char>, cursor: int, width: int) -> (
    Seq<char>,
    int,
) {
    let columns = if width < 1 {
        1
    } else {
        width
    };
    let line = edit_line(prefix, input);
    let start = scrolled(prefix, input, cursor, width);
    (
        line.subrange(start, lesser(start + columns, line.len() as int)),
        line_cursor(prefix, input, cursor) - start,
    )
}

/// The cursor's column is always inside the window, and while the line fits
/// nothing is scrolled out.
pub proof fn cursor_stays_visible(prefix: Seq<char>, input: Seq<char>, cursor: int, width: int)
    requires
        cursor >= 0,
        width >= 1,
    ensures
        0 <= window_of(prefix, input, cursor, width).1 < width,
        window_of(prefix, input, cursor, width).0.len() <= width,
        edit_line(prefix, input).len() < width ==> window_of(prefix, input, cursor, width).0
            == edit_line(prefix, input),
{
}

/// Window a `prefix + input` line to `width` columns, scrolling horizontally so
/// the cursor stays visible. Returns the visible slice and the cursor's column
/// within it. `cursor` is a char index into `input`.
pub fn input_window(prefix: &str, input: &str, cursor: usize, width: usize) -> (r: (String, usize))
    ensures
        (r.0@, r.1 as int) == window_of(prefix@, input@, cursor as int, width as int),
{
    let columns: usize = if width < 1 {
        1
    } else {
        width
    };
    let mut line = text::chars_of(prefix);
    let head: usize = line.len();
    let mut rest = text::chars_of(input);
    let len: usize = rest.len();
    line.append(&mut rest);
    let total: usize = line.len();
    let cur: usize = head + (if cursor < len {
        cursor
    } else {
        len
    });
    let start: usize = if cur >= columns {
        cur - (columns - 1)
    } else {
        0
    };
    let end: usize = if total - start < columns {
        total
    } else {
        start + columns
    };
    (text::text_of(&line, start, end), cur - start)
}

} // verus!

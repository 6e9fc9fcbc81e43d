//! Base64, and the terminal escape that hands text to the system clipboard.

use vstd::prelude::*;
use vstd::string::*;
use vstd::utf8;

verus! {

/// The character of a six-bit value.
pub open spec fn sextet_char(v: int) -> char {
    if v < 26 {
        (v + 65) as char
    } else if v < 52 {
        (v - 26 + 97) as char
    } else if v < 62 {
        (v - 52 + 48) as char
    } else if v == 62 {
        '+'
    } else {
        '/'
    }
}

/// The byte at `i`, or zero past the end.
pub open spec fn byte_or_zero(d: Seq<u8>, i: int) -> int {
    if 0 <= i < d.len() {
        d[i] as int
    } else {
        0
    }
}

/// The first three bytes as one number, missing ones being zero.
pub open spec fn first_group(d: Seq<u8>) -> int {
    byte_or_zero(d, 0) * 65536 + byte_or_zero(d, 1) * 256 + byte_or_zero(d, 2)
}

/// The four characters of the first three bytes, padded with `=`.
pub open spec fn first_quad(d: Seq<u8>) -> Seq<char> {
    let n = first_group(d);
    seq![
        sextet_char(n / 262144),
        sextet_char(n / 4096 % 64),
        if d.len() > 1 {
            sextet_char(n / 64 % 64)
        } else {
            '='
        },
        if d.len() > 2 {
            sextet_char(n % 64)
        } else {
            '='
        },
    ]
}

/// The Base64 text of some bytes.
pub open spec fn base64_of(d: Seq<u8>) -> Seq<char>
    decreases d.len(),
{
    if d.len() == 0 {
        Seq::empty()
    } else if d.len() <= 3 {
        first_quad(d)
    } else {
        first_quad(d) + base64_of(d.skip(3))
    }
}

/// The six-bit value of a character.
pub open spec fn char_sextet(c: char) -> int {
    if 'A' <= c <= 'Z' {
        c as int - 65
    } else if 'a' <= c <= 'z' {
        c as int - 97 + 26
    } else if '0' <= c <= '9' {
        c as int - 48 + 52
    } else if c == '+' {
        62
    } else if c == '/' {
        63
    } else {
        0
    }
}

/// The bytes that four characters stand for: three, less one per `=`.
pub open spec fn quad_bytes(s: Seq<char>) -> Seq<u8> {
    let n = char_sextet(s[0]) * 262144 + char_sextet(s[1]) * 4096 + char_sextet(s[2]) * 64
        + char_sextet(s[3]);
    if s[2] == '=' {
        seq![(n / 65536) as u8]
    } else if s[3] == '=' {
        seq![(n / 65536) as u8, (n / 256 % 256) as u8]
    } else {
        seq![(n / 65536) as u8, (n / 256 % 256) as u8, (n % 256) as u8]
    }
}

/// The bytes that a Base64 text stands for.
pub open spec fn bytes_of_base64(s: Seq<char>) -> Seq<u8>
    decreases s.len(),
{
    if s.len() < 4 {
        Seq::empty()
    } else {
        quad_bytes(s.take(4)) + bytes_of_base64(s.skip(4))
    }
}

/// A six-bit value and its character stand for one another, and no value is
/// written as the padding.
proof fn sextet_reads_back(v: int)
    requires
        0 <= v < 64,
    ensures
        char_sextet(sextet_char(v)) == v,
        sextet_char(v) != '=',
{
}

/// A number is its six-bit parts put together.
proof fn sextets_add_up(n: int)
    requires
        0 <= n < 16777216,
    ensures
        0 <= n / 262144 < 64,
        (n / 262144) * 262144 + (n / 4096 % 64) * 4096 + (n / 64 % 64) * 64 + n % 64 == n,
{
    let x = n / 64;
    let y = n / 4096;
    assert(n == 64 * x + n % 64);
    assert(y == x / 64);
    assert(x == 64 * y + x % 64);
    assert(n / 262144 == y / 64);
    assert(y == 64 * (y / 64) + y % 64);
}

/// A number put together from three bytes has those bytes as its parts.
proof fn bytes_take_apart(a: int, b: int, c: int)
    requires
        0 <= a < 256,
        0 <= b < 256,
        0 <= c < 256,
    ensures
        (a * 65536 + b * 256 + c) / 65536 == a,
        (a * 65536 + b * 256 + c) / 256 % 256 == b,
        (a * 65536 + b * 256 + c) % 256 == c,
        c == 0 ==> (a * 65536 + b * 256 + c) % 64 == 0,
        b == 0 && c == 0 ==> (a * 65536 + b * 256 + c) / 64 % 64 == 0,
{
    let n = a * 65536 + b * 256 + c;
    assert(n / 256 == a * 256 + b);
}

/// The four characters of a group stand for its bytes.
proof fn quad_reads_back(d: Seq<u8>)
    requires
        d.len() > 0,
    ensures
        quad_bytes(first_quad(d)) == d.take(if d.len() < 3 {
            d.len() as int
        } else {
            3
        }),
{
    let n = first_group(d);
    let q = first_quad(d);
    bytes_take_apart(byte_or_zero(d, 0), byte_or_zero(d, 1), byte_or_zero(d, 2));
    sextets_add_up(n);
    sextet_reads_back(n / 262144);
    sextet_reads_back(n / 4096 % 64);
    sextet_reads_back(n / 64 % 64);
    sextet_reads_back(n % 64);
    let m = char_sextet(q[0]) * 262144 + char_sextet(q[1]) * 4096 + char_sextet(q[2]) * 64
        + char_sextet(q[3]);
    assert(m == n);
    if d.len() > 2 {
        assert(quad_bytes(q) =~= d.take(3));
    } else if d.len() == 2 {
        assert(quad_bytes(q) =~= d.take(2));
    } else {
        assert(quad_bytes(q) =~= d.take(1));
    }
}

/// Decoding undoes encoding, so no two byte strings share an encoding.
pub proof fn base64_reads_back(d: Seq<u8>)
    ensures
        bytes_of_base64(base64_of(d)) == d,
    decreases d.len(),
{
    let s = base64_of(d);
    if d.len() == 0 {
    } else if d.len() <= 3 {
        quad_reads_back(d);
        assert(s.take(4) =~= first_quad(d));
        assert(s.skip(4) =~= Seq::<char>::empty());
        assert(d.take(d.len() as int) =~= d);
        assert(bytes_of_base64(s.skip(4)) =~= Seq::<u8>::empty());
        assert(bytes_of_base64(s) =~= d);
    } else {
        quad_reads_back(d);
        base64_reads_back(d.skip(3));
        assert(s.take(4) =~= first_quad(d));
        assert(s.skip(4) =~= base64_of(d.skip(3)));
        assert(d.take(3) + d.skip(3) =~= d);
    }
}

/// The character of a six-bit value.
fn sextet(v: u32) -> (c: char)
    requires
        v < 64,
    ensures
        c == sextet_char(v as int),
{
    let b: u8 = v as u8;
    if b < 26 {
        (b + 65) as char
    } else if b < 52 {
        (b - 26 + 97) as char
    } else if b < 62 {
        (b - 52 + 48) as char
    } else if b == 62 {
        '+'
    } else {
        '/'
    }
}

/// Base64 with padding.
pub fn base64(data: &[u8]) -> (r: String)
    ensures
        r@ == base64_of(data@),
{
    let mut out = String::new();
    let mut i: usize = 0;
    assert(data@.skip(0) =~= data@);
    assert(out@ + base64_of(data@) =~= base64_of(data@));
    while i < data.len()
        invariant
            i <= data@.len(),
            out@ + base64_of(data@.skip(i as int)) == base64_of(data@),
        decreases data@.len() - i,
    {
        let ghost d = data@.skip(i as int);
        let left: usize = data.len() - i;
        let a: u32 = data[i] as u32;
        let b: u32 = if left > 1 {
            data[i + 1] as u32
        } else {
            0
        };
        let c: u32 = if left > 2 {
            data[i + 2] as u32
        } else {
            0
        };
        let n: u32 = a * 65536 + b * 256 + c;
        assert(n == first_group(d));
        let ghost before = out@;
        out.push(sextet(n / 262144));
        out.push(sextet(n / 4096 % 64));
        out.push(if left > 1 {
            sextet(n / 64 % 64)
        } else {
            '='
        });
        out.push(if left > 2 {
            sextet(n % 64)
        } else {
            '='
        });
        assert(out@ =~= before + first_quad(d));
        if left <= 3 {
            assert(data@.skip(data@.len() as int) =~= Seq::<u8>::empty());
            assert(out@ + base64_of(Seq::empty()) =~= out@);
            i = data.len();
        } else {
            assert(d.skip(3) =~= data@.skip(i + 3));
            assert((before + first_quad(d)) + base64_of(d.skip(3)) =~= before + (first_quad(d)
                + base64_of(d.skip(3))));
            i += 3;
        }
    }
    assert(data@.skip(i as int) =~= Seq::<u8>::empty());
    assert(out@ + base64_of(Seq::empty()) =~= out@);
    out
}

/// The escape that asks the terminal to copy a text.
pub open spec fn clipboard_of(text: Seq<char>) -> Seq<char> {
    "\x1b]52;c;"@ + base64_of(utf8::encode_utf8(text)) + "\x07"@
}

/// The OSC 52 terminal escape that copies `text` to the system clipboard.
/// Portable (works over SSH, no X/Wayland/pbcopy fork) and dependency-free.
pub fn clipboard_escape(text: &str) -> (r: String)
    ensures
        r@ == clipboard_of(text@),
{
    let mut r = "\x1b]52;c;".to_owned();
    r.append(base64(text.as_bytes()).as_str());
    r.append("\x07");
    r
}

} // verus!

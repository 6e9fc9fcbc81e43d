//! Text as sequences of characters: trimming, searching, ordering, and decimal
//! numbers, each over the character view of a string.

use vstd::prelude::*;
use vstd::string::*;

verus! {

/// `String::push` appends the given character to the end of the string.
pub assume_specification[ String::push ](s: &mut String, c: char)
    ensures
        final(s)@ == old(s)@.push(c),
;

/// What `str::to_lowercase` returns: the Unicode lowercase of a text.
pub uninterp spec fn lowercase(s: Seq<char>) -> Seq<char>;

/// The lowercase of one ASCII character; every other character is kept.
pub open spec fn ascii_lower(c: char) -> char {
    if 'A' <= c <= 'Z' {
        ((c as u32) + 32) as char
    } else {
        c
    }
}

/// Whether every character of `s` is ASCII.
pub open spec fn all_ascii(s: Seq<char>) -> bool {
    forall|i: int| 0 <= i < s.len() ==> #[trigger] s[i] <= '\x7f'
}

/// Every ASCII letter of `s` replaced by its small counterpart.
pub open spec fn ascii_lowered(s: Seq<char>) -> Seq<char> {
    Seq::new(s.len(), |i: int| ascii_lower(s[i]))
}

/// `str::to_lowercase` returns the Unicode lowercase of the whole text. Every
/// character has a lowercase of one or more characters, so a text that is not
/// empty does not become so. On a text of ASCII characters alone that is each letter `A` to `Z` replaced by its
/// small counterpart and everything else kept.
pub assume_specification[ str::to_lowercase ](s: &str) -> (r: String)
    ensures
        r@ == lowercase(s@),
        s@.len() > 0 ==> r@.len() > 0,
        all_ascii(s@) ==> r@ == ascii_lowered(s@),
;

/// The characters of a string, in order.
pub fn chars_of(s: &str) -> (v: Vec<char>)
    ensures
        v@ == s@,
{
    let mut v: Vec<char> = Vec::new();
    for c in it: s.chars()
        invariant
            it.seq() == s@,
            v@ == s@.take(it.index()),
    {
        v.push(c);
    }
    v
}

/// The string made of the characters `v[lo..hi]`.
pub fn text_of(v: &Vec<char>, lo: usize, hi: usize) -> (s: String)
    requires
        lo <= hi <= v@.len(),
    ensures
        s@ == v@.subrange(lo as int, hi as int),
{
    let mut s = String::new();
    let mut i: usize = lo;
    while i < hi
        invariant
            lo <= i <= hi <= v@.len(),
            s@ == v@.subrange(lo as int, i as int),
        decreases hi - i,
    {
        s.push(v[i]);
        i += 1;
    }
    s
}

/// Whether two strings hold the same characters.
pub fn same_text(a: &str, b: &str) -> (r: bool)
    ensures
        r == (a@ == b@),
{
    a.to_owned() == b.to_owned()
}

/// Unicode `White_Space`.
pub open spec fn is_white(c: char) -> bool {
    ||| '\u{9}' <= c <= '\u{d}'
    ||| c == ' '
    ||| c == '\u{85}'
    ||| c == '\u{a0}'
    ||| c == '\u{1680}'
    ||| '\u{2000}' <= c <= '\u{200a}'
    ||| c == '\u{2028}'
    ||| c == '\u{2029}'
    ||| c == '\u{202f}'
    ||| c == '\u{205f}'
    ||| c == '\u{3000}'
}

/// Whether `c` is Unicode white space.
pub fn is_whitespace(c: char) -> (r: bool)
    ensures
        r == is_white(c),
{
    ('\u{9}' <= c && c <= '\u{d}') || c == ' ' || c == '\u{85}' || c == '\u{a0}' || c == '\u{1680}'
        || ('\u{2000}' <= c && c <= '\u{200a}') || c == '\u{2028}' || c == '\u{2029}' || c
        == '\u{202f}' || c == '\u{205f}' || c == '\u{3000}'
}

/// `s` without its leading white space.
pub open spec fn trim_start(s: Seq<char>) -> Seq<char>
    decreases s.len(),
{
    if s.len() > 0 && is_white(s[0]) {
        trim_start(s.skip(1))
    } else {
        s
    }
}

/// `s` without its trailing white space.
pub open spec fn trim_end(s: Seq<char>) -> Seq<char>
    decreases s.len(),
{
    if s.len() > 0 && is_white(s.last()) {
        trim_end(s.drop_last())
    } else {
        s
    }
}

/// `s` without white space at either end.
pub open spec fn trim(s: Seq<char>) -> Seq<char> {
    trim_end(trim_start(s))
}

/// What is left of a text after leading white space starts with something else.
proof fn trim_start_ends(s: Seq<char>)
    ensures
        trim_start(s).len() > 0 ==> !is_white(trim_start(s)[0]),
    decreases s.len(),
{
    if s.len() > 0 && is_white(s[0]) {
        trim_start_ends(s.skip(1));
    }
}

/// What is left of a text before trailing white space ends with something else,
/// and starts as the text did.
proof fn trim_end_ends(s: Seq<char>)
    ensures
        trim_end(s).len() > 0 ==> !is_white(trim_end(s).last()) && trim_end(s)[0] == s[0],
    decreases s.len(),
{
    if s.len() > 0 && is_white(s.last()) {
        trim_end_ends(s.drop_last());
    }
}

/// A trimmed text has no white space at its ends, and trimming it again changes
/// nothing.
pub proof fn trimming_is_idempotent(s: Seq<char>)
    ensures
        trim(s).len() > 0 ==> !is_white(trim(s)[0]) && !is_white(trim(s).last()),
        trim(trim(s)) == trim(s),
{
    trim_start_ends(s);
    trim_end_ends(trim_start(s));
}

/// A copy of `s` without white space at either end.
pub fn trimmed(s: &str) -> (r: String)
    ensures
        r@ == trim(s@),
{
    let v = chars_of(s);
    let mut lo: usize = 0;
    assert(v@.skip(0) =~= v@);
    while lo < v.len() && is_whitespace(v[lo])
        invariant
            lo <= v@.len(),
            trim_start(v@) == trim_start(v@.skip(lo as int)),
        decreases v@.len() - lo,
    {
        assert(v@.skip(lo as int).skip(1) =~= v@.skip(lo + 1));
        lo += 1;
    }
    let mut hi: usize = v.len();
    assert(v@.subrange(lo as int, hi as int) =~= v@.skip(lo as int));
    while lo < hi && is_whitespace(v[hi - 1])
        invariant
            lo <= hi <= v@.len(),
            trim_end(v@.skip(lo as int)) == trim_end(v@.subrange(lo as int, hi as int)),
        decreases hi,
    {
        assert(v@.subrange(lo as int, hi as int).drop_last() =~= v@.subrange(lo as int, hi - 1));
        hi -= 1;
    }
    text_of(&v, lo, hi)
}

/// The character of a decimal digit.
pub open spec fn digit_char(d: nat) -> char {
    ((d % 10) as u32 + 48) as char
}

/// Whether `c` is one of `0` to `9`.
pub open spec fn is_digit(c: char) -> bool {
    '0' <= c <= '9'
}

/// The value of a decimal digit.
pub open spec fn digit_value(c: char) -> nat {
    (c as nat - 48) as nat
}

/// `n` written in decimal, without leading zeros.
pub open spec fn decimal(n: nat) -> Seq<char>
    decreases n,
{
    if n < 10 {
        seq![digit_char(n)]
    } else {
        decimal(n / 10).push(digit_char(n % 10))
    }
}

/// The number that the digits of `s` spell.
pub open spec fn spelled(s: Seq<char>) -> nat
    decreases s.len(),
{
    if s.len() == 0 {
        0
    } else {
        spelled(s.drop_last()) * 10 + digit_value(s.last())
    }
}

/// Whether `s` is made of digits alone, at least one.
pub open spec fn all_digits(s: Seq<char>) -> bool {
    s.len() > 0 && forall|i: int| 0 <= i < s.len() ==> is_digit(#[trigger] s[i])
}

/// The number that `s` denotes when it may not exceed `max`: an optional `+`,
/// then digits.
pub open spec fn number_of(s: Seq<char>, max: nat) -> Option<nat> {
    let digits = if s.len() > 0 && s[0] == '+' {
        s.skip(1)
    } else {
        s
    };
    if all_digits(digits) && spelled(digits) <= max {
        Some(spelled(digits))
    } else {
        None
    }
}

/// Writing a number in decimal and reading it back gives the number.
pub proof fn decimal_reads_back(n: nat)
    ensures
        all_digits(decimal(n)),
        spelled(decimal(n)) == n,
        forall|max: nat| n <= max ==> #[trigger] number_of(decimal(n), max) == Some(n),
    decreases n,
{
    if n < 10 {
        let s = decimal(n);
        assert(s.drop_last() =~= Seq::<char>::empty());
        assert(spelled(s.drop_last()) == 0);
        assert(digit_value(s.last()) == n);
    } else {
        decimal_reads_back(n / 10);
        let s = decimal(n);
        assert(s.drop_last() =~= decimal(n / 10));
        assert(is_digit(s.last()));
    }
    assert(is_digit(decimal(n)[0]));
    assert(decimal(n)[0] != '+');
}

/// A prefix of digits spells no more than the whole.
proof fn spelled_prefix_bound(s: Seq<char>, k: int)
    requires
        0 <= k <= s.len(),
    ensures
        spelled(s.take(k)) <= spelled(s),
    decreases s.len() - k,
{
    if k == s.len() {
        assert(s.take(k) =~= s);
    } else {
        spelled_prefix_bound(s, k + 1);
        assert(s.take(k + 1).drop_last() =~= s.take(k));
    }
}

/// `n` in decimal.
pub fn to_decimal(n: u64) -> (s: String)
    ensures
        s@ == decimal(n as nat),
    decreases n,
{
    if n < 10 {
        let mut s = String::new();
        s.push(digit(n));
        assert(s@ =~= seq![digit_char(n as nat)]);
        s
    } else {
        let mut s = to_decimal(n / 10);
        s.push(digit(n % 10));
        s
    }
}

/// The character of the digit `d`.
fn digit(d: u64) -> (c: char)
    requires
        d < 10,
    ensures
        c == digit_char(d as nat),
{
    (d as u8 + 48) as char
}

/// The number that the characters `v[lo..hi]` denote, if they are digits only
/// and the number fits.
pub fn digits_to_u64(v: &Vec<char>, lo: usize, hi: usize) -> (r: Option<u64>)
    requires
        lo <= hi <= v@.len(),
    ensures
        ({
            let s = v@.subrange(lo as int, hi as int);
            &&& r is Some <==> all_digits(s) && spelled(s) <= u64::MAX
            &&& r matches Some(n) ==> n == spelled(s)
        }),
{
    let ghost s = v@.subrange(lo as int, hi as int);
    if lo == hi {
        return None;
    }
    let mut n: u64 = 0;
    let mut i: usize = lo;
    assert(s.take(0) =~= Seq::<char>::empty());
    while i < hi
        invariant
            lo <= i <= hi <= v@.len(),
            s == v@.subrange(lo as int, hi as int),
            n == spelled(s.take(i - lo)),
            forall|j: int| 0 <= j < i - lo ==> is_digit(#[trigger] s[j]),
        decreases hi - i,
    {
        let c = v[i];
        assert(s[i - lo] == c);
        if !(c >= '0' && c <= '9') {
            return None;
        }
        let d: u64 = (c as u32 - 48) as u64;
        proof {
            assert(s.take(i - lo + 1).drop_last() =~= s.take(i - lo));
            assert(s.take(i - lo + 1).last() == c);
            spelled_prefix_bound(s, i - lo + 1);
        }
        if n > u64::MAX / 10 {
            return None;
        }
        let tens: u64 = n * 10;
        if tens > u64::MAX - d {
            return None;
        }
        n = tens + d;
        i += 1;
    }
    assert(s.take(s.len() as int) =~= s);
    Some(n)
}

/// Reads an unsigned number: an optional `+`, then digits, at most `max`.
pub fn parse_number(s: &str, max: u64) -> (r: Option<u64>)
    ensures
        match r {
            Some(n) => number_of(s@, max as nat) == Some(n as nat),
            None => number_of(s@, max as nat) is None,
        },
{
    let v = chars_of(s);
    let lo: usize = if v.len() > 0 && v[0] == '+' {
        1
    } else {
        0
    };
    let r = digits_to_u64(&v, lo, v.len());
    proof {
        assert(v@.subrange(0, v@.len() as int) =~= v@);
        if lo == 1 {
            assert(v@.subrange(1, v@.len() as int) =~= v@.skip(1));
        }
    }
    match r {
        Some(n) => if n <= max {
            Some(n)
        } else {
            None
        },
        None => None,
    }
}

/// `n` spaces.
pub open spec fn spaces(n: int) -> Seq<char> {
    Seq::new(
        if n > 0 {
            n as nat
        } else {
            0
        },
        |i: int| ' ',
    )
}

/// `s` preceded by spaces up to `width` characters.
pub open spec fn right_aligned(s: Seq<char>, width: int) -> Seq<char> {
    spaces(width - s.len()) + s
}

/// `s` followed by spaces up to `width` characters.
pub open spec fn left_aligned(s: Seq<char>, width: int) -> Seq<char> {
    s + spaces(width - s.len())
}

/// Spaces that fill a text of `len` characters up to `width`.
fn filler(len: usize, width: usize) -> (r: String)
    ensures
        r@ == spaces(width - len),
{
    let mut r = String::new();
    let mut i: usize = len;
    while i < width
        invariant
            len <= i,
            i <= width || i == len,
            r@ == spaces(i - len),
        decreases width - i,
    {
        r.push(' ');
        i += 1;
        assert(r@ =~= spaces(i - len));
    }
    assert(r@ =~= spaces(width - len));
    r
}

/// Pads `s` on the left with spaces.
pub fn pad_left(s: &str, width: usize) -> (r: String)
    ensures
        r@ == right_aligned(s@, width as int),
{
    let mut r = filler(s.unicode_len(), width);
    r.append(s);
    r
}

/// Pads `s` on the right with spaces.
pub fn pad_right(s: &str, width: usize) -> (r: String)
    ensures
        r@ == left_aligned(s@, width as int),
{
    let mut r = s.to_owned();
    let fill = filler(s.unicode_len(), width);
    r.append(fill.as_str());
    r
}

/// The view of an optional string.
pub open spec fn opt_text(o: Option<String>) -> Option<Seq<char>> {
    match o {
        Some(s) => Some(s@),
        None => None,
    }
}

/// The view of a result of strings.
pub open spec fn result_text(r: Result<String, String>) -> Result<Seq<char>, Seq<char>> {
    match r {
        Ok(s) => Ok(s@),
        Err(e) => Err(e@),
    }
}

/// A copy of an optional string.
pub fn clone_opt(o: &Option<String>) -> (r: Option<String>)
    ensures
        opt_text(r) == opt_text(*o),
{
    match o {
        Some(s) => Some(s.clone()),
        None => None,
    }
}

/// The character sequences of a list of strings.
pub open spec fn texts(v: Seq<String>) -> Seq<Seq<char>> {
    Seq::new(v.len(), |i: int| v[i]@)
}

/// The texts of `list`, with `sep` between neighbours.
pub open spec fn joined(list: Seq<Seq<char>>, sep: Seq<char>) -> Seq<char>
    decreases list.len(),
{
    if list.len() == 0 {
        Seq::empty()
    } else if list.len() == 1 {
        list[0]
    } else {
        joined(list.drop_last(), sep) + sep + list.last()
    }
}

/// Joins strings with a separator.
pub fn join(list: &Vec<String>, sep: &str) -> (r: String)
    ensures
        r@ == joined(texts(list@), sep@),
{
    let mut r = String::new();
    let mut i: usize = 0;
    let ghost all = texts(list@);
    assert(all.take(0) =~= Seq::<Seq<char>>::empty());
    while i < list.len()
        invariant
            i <= list@.len(),
            all == texts(list@),
            r@ == joined(all.take(i as int), sep@),
        decreases list@.len() - i,
    {
        if i > 0 {
            r.append(sep);
        }
        r.append(list[i].as_str());
        assert(all.take(i + 1).drop_last() =~= all.take(i as int));
        assert(all.take(i + 1).last() == list@[i as int]@);
        if i == 0 {
            assert(r@ =~= all.take(1)[0]);
        }
        i += 1;
    }
    assert(all.take(i as int) =~= all);
    r
}

/// Whether the list holds a string with the characters `s`.
pub fn contains_text(list: &Vec<String>, s: &str) -> (r: bool)
    ensures
        r == texts(list@).contains(s@),
{
    let mut i: usize = 0;
    while i < list.len()
        invariant
            i <= list@.len(),
            forall|j: int| 0 <= j < i ==> #[trigger] texts(list@)[j] != s@,
        decreases list@.len() - i,
    {
        if same_text(list[i].as_str(), s) {
            assert(texts(list@)[i as int] == s@);
            return true;
        }
        i += 1;
    }
    false
}

/// The list without the texts equal to `t`.
pub open spec fn dropping(list: Seq<Seq<char>>, t: Seq<char>) -> Seq<Seq<char>>
    decreases list.len(),
{
    if list.len() == 0 {
        Seq::empty()
    } else if list.last() == t {
        dropping(list.drop_last(), t)
    } else {
        dropping(list.drop_last(), t).push(list.last())
    }
}

/// A copy of a list of strings.
pub fn clone_texts(list: &Vec<String>) -> (r: Vec<String>)
    ensures
        texts(r@) == texts(list@),
{
    let mut r: Vec<String> = Vec::new();
    let mut i: usize = 0;
    while i < list.len()
        invariant
            i <= list@.len(),
            r@.len() == i,
            forall|j: int| 0 <= j < i ==> (#[trigger] r@[j])@ == list@[j]@,
        decreases list@.len() - i,
    {
        r.push(list[i].clone());
        i += 1;
    }
    assert(texts(r@) =~= texts(list@));
    r
}

/// Whether `needle` stands in `hay` from position `at` on.
pub open spec fn occurs_at(hay: Seq<char>, needle: Seq<char>, at: int) -> bool {
    0 <= at && at + needle.len() <= hay.len() && hay.subrange(at, at + needle.len()) == needle
}

/// Whether `needle` occurs somewhere in `hay`.
pub open spec fn occurs(hay: Seq<char>, needle: Seq<char>) -> bool {
    exists|at: int| #[trigger] occurs_at(hay, needle, at)
}

/// Whether `needle` stands in `hay` from position `at` on.
fn matches_at(hay: &Vec<char>, needle: &Vec<char>, at: usize) -> (r: bool)
    requires
        at + needle@.len() <= hay@.len(),
    ensures
        r == occurs_at(hay@, needle@, at as int),
{
    let total: usize = hay.len();
    let mut k: usize = 0;
    while k < needle.len()
        invariant
            total == hay@.len(),
            at + needle@.len() <= total,
            k <= needle@.len(),
            forall|j: int| 0 <= j < k ==> hay@[at + j] == #[trigger] needle@[j],
        decreases needle@.len() - k,
    {
        if hay[at + k] != needle[k] {
            assert(hay@.subrange(at as int, at + needle@.len())[k as int] != needle@[k as int]);
            return false;
        }
        k += 1;
    }
    assert(hay@.subrange(at as int, at + needle@.len()) =~= needle@);
    true
}

/// Whether `needle` occurs in `hay`.
pub fn contains_str(hay: &str, needle: &str) -> (r: bool)
    ensures
        r == occurs(hay@, needle@),
{
    let h = chars_of(hay);
    let n = chars_of(needle);
    if n.len() > h.len() {
        return false;
    }
    let last: usize = h.len() - n.len();
    let mut at: usize = 0;
    loop
        invariant
            at <= last,
            last == h@.len() - n@.len(),
            h@ == hay@,
            n@ == needle@,
            forall|j: int| 0 <= j < at ==> !#[trigger] occurs_at(h@, n@, j),
        decreases last - at,
    {
        if matches_at(&h, &n, at) {
            return true;
        }
        if at == last {
            return false;
        }
        at += 1;
    }
}

/// Dictionary order by code point.
pub open spec fn text_lt(a: Seq<char>, b: Seq<char>) -> bool
    decreases a.len(),
{
    if b.len() == 0 {
        false
    } else if a.len() == 0 {
        true
    } else if a[0] == b[0] {
        text_lt(a.skip(1), b.skip(1))
    } else {
        a[0] < b[0]
    }
}

/// `text_lt` or equal.
pub open spec fn text_le(a: Seq<char>, b: Seq<char>) -> bool {
    a == b || text_lt(a, b)
}

/// Dictionary order relates any two different texts in exactly one direction.
pub proof fn text_order_total(a: Seq<char>, b: Seq<char>)
    ensures
        text_lt(a, b) ==> !text_lt(b, a) && a != b,
        a != b ==> text_lt(a, b) || text_lt(b, a),
    decreases a.len(),
{
    if a.len() > 0 && b.len() > 0 {
        text_order_total(a.skip(1), b.skip(1));
        if a[0] == b[0] && a.skip(1) == b.skip(1) {
            assert(a =~= seq![a[0]] + a.skip(1));
            assert(b =~= seq![b[0]] + b.skip(1));
        }
    } else if a.len() == 0 && b.len() == 0 {
        assert(a =~= b);
    }
}

/// Dictionary order is transitive.
pub proof fn text_order_transitive(a: Seq<char>, b: Seq<char>, c: Seq<char>)
    requires
        text_lt(a, b),
        text_lt(b, c),
    ensures
        text_lt(a, c),
    decreases a.len(),
{
    if a.len() > 0 && a[0] == b[0] && b[0] == c[0] {
        text_order_transitive(a.skip(1), b.skip(1), c.skip(1));
    }
}

/// Whether `a` comes before `b` in dictionary order.
pub fn comes_before(a: &str, b: &str) -> (r: bool)
    ensures
        r == text_lt(a@, b@),
{
    let x = chars_of(a);
    let y = chars_of(b);
    let mut i: usize = 0;
    assert(x@.skip(0) =~= x@);
    assert(y@.skip(0) =~= y@);
    loop
        invariant
            i <= x@.len(),
            i <= y@.len(),
            text_lt(x@, y@) == text_lt(x@.skip(i as int), y@.skip(i as int)),
            x@ == a@,
            y@ == b@,
        decreases x@.len() - i,
    {
        if i == y.len() {
            return false;
        }
        if i == x.len() {
            return true;
        }
        if x[i] != y[i] {
            return x[i] < y[i];
        }
        assert(x@.skip(i as int).skip(1) =~= x@.skip(i + 1));
        assert(y@.skip(i as int).skip(1) =~= y@.skip(i + 1));
        i += 1;
    }
}

/// How many characters stand before the first white space.
pub open spec fn word_len(s: Seq<char>) -> nat
    decreases s.len(),
{
    if s.len() == 0 || is_white(s[0]) {
        0
    } else {
        1 + word_len(s.skip(1))
    }
}

/// A word is no longer than the text it starts.
pub proof fn word_len_bound(s: Seq<char>)
    ensures
        word_len(s) <= s.len(),
    decreases s.len(),
{
    if s.len() > 0 && !is_white(s[0]) {
        word_len_bound(s.skip(1));
    }
}

/// Dropping leading white space leaves a suffix.
pub proof fn trim_start_suffix(s: Seq<char>)
    ensures
        trim_start(s).len() <= s.len(),
        trim_start(s) == s.skip(s.len() - trim_start(s).len()),
        trim_start(s).len() > 0 ==> !is_white(trim_start(s)[0]),
    decreases s.len(),
{
    if s.len() > 0 && is_white(s[0]) {
        trim_start_suffix(s.skip(1));
        let t = trim_start(s);
        assert(s.skip(1).skip(s.len() - 1 - t.len()) =~= s.skip(s.len() - t.len()));
    } else {
        assert(s.skip(0) =~= s);
    }
}

/// The maximal runs of characters that are not white space.
pub open spec fn words(s: Seq<char>) -> Seq<Seq<char>>
    decreases s.len(),
{
    let t = trim_start(s);
    if t.len() == 0 {
        Seq::empty()
    } else {
        proof {
            trim_start_suffix(s);
            word_len_bound(t);
        }
        seq![t.take(word_len(t) as int)] + words(t.skip(word_len(t) as int))
    }
}

/// The words of `s`, in order.
pub fn split_words(s: &str) -> (r: Vec<String>)
    ensures
        texts(r@) == words(s@),
{
    let v = chars_of(s);
    let mut r: Vec<String> = Vec::new();
    let mut i: usize = 0;
    assert(v@.skip(0) =~= v@);
    assert(texts(r@) + words(v@) =~= words(v@));
    loop
        invariant
            i <= v@.len(),
            texts(r@) + words(v@.skip(i as int)) == words(v@),
            v@ == s@,
        decreases v@.len() - i,
    {
        let ghost rest = v@.skip(i as int);
        let ghost start = i as int;
        assert(v@.skip(i as int) =~= rest);
        while i < v.len() && is_whitespace(v[i])
            invariant
                start <= i <= v@.len(),
                trim_start(rest) == trim_start(v@.skip(i as int)),
            decreases v@.len() - i,
        {
            assert(v@.skip(i as int).skip(1) =~= v@.skip(i + 1));
            i += 1;
        }
        let ghost t = v@.skip(i as int);
        assert(trim_start(rest) == t);
        if i == v.len() {
            assert(words(rest) =~= Seq::<Seq<char>>::empty());
            assert(texts(r@) + words(rest) =~= texts(r@));
            return r;
        }
        let begin: usize = i;
        while i < v.len() && !is_whitespace(v[i])
            invariant
                begin <= i <= v@.len(),
                t == v@.skip(begin as int),
                word_len(t) == (i - begin) + word_len(v@.skip(i as int)),
            decreases v@.len() - i,
        {
            assert(v@.skip(i as int).skip(1) =~= v@.skip(i + 1));
            i += 1;
        }
        let word = text_of(&v, begin, i);
        proof {
            assert(word_len(t) == i - begin);
            assert(word_len(t) > 0);
            assert(t.take(i - begin) =~= word@);
            assert(t.skip(i - begin) =~= v@.skip(i as int));
            assert(words(rest) == seq![word@] + words(v@.skip(i as int)));
        }
        let ghost before = texts(r@);
        r.push(word);
        assert(texts(r@) =~= before.push(word@));
        assert(before.push(word@) + words(v@.skip(i as int)) =~= before + (seq![word@] + words(
            v@.skip(i as int),
        )));
    }
}

/// `s` without the `#` characters it starts with.
pub open spec fn without_hashes(s: Seq<char>) -> Seq<char>
    decreases s.len(),
{
    if s.len() > 0 && s[0] == '#' {
        without_hashes(s.skip(1))
    } else {
        s
    }
}

/// Drops the `#` characters that `s` starts with.
pub fn strip_hashes(s: &str) -> (r: String)
    ensures
        r@ == without_hashes(s@),
{
    let v = chars_of(s);
    let mut i: usize = 0;
    assert(v@.skip(0) =~= v@);
    while i < v.len() && v[i] == '#'
        invariant
            i <= v@.len(),
            without_hashes(v@) == without_hashes(v@.skip(i as int)),
        decreases v@.len() - i,
    {
        assert(v@.skip(i as int).skip(1) =~= v@.skip(i + 1));
        i += 1;
    }
    assert(v@.subrange(i as int, v@.len() as int) =~= v@.skip(i as int));
    text_of(&v, i, v.len())
}

/// Whether the texts ascend in dictionary order.
pub open spec fn ascends(s: Seq<Seq<char>>) -> bool {
    forall|i: int, j: int| 0 <= i < j < s.len() ==> text_le(#[trigger] s[i], #[trigger] s[j])
}

/// Whether `t` is `s` put in dictionary order.
pub open spec fn sorts(s: Seq<Seq<char>>, t: Seq<Seq<char>>) -> bool {
    ascends(t) && t.to_multiset() == s.to_multiset()
}

/// `s` put in dictionary order.
pub open spec fn in_dictionary_order(s: Seq<Seq<char>>) -> Seq<Seq<char>> {
    choose|t: Seq<Seq<char>>| sorts(s, t)
}

/// Dictionary order is total.
proof fn dictionary_order_is_total(leq: spec_fn(Seq<char>, Seq<char>) -> bool)
    requires
        forall|x: Seq<char>, y: Seq<char>| #[trigger] leq(x, y) == text_le(x, y),
    ensures
        vstd::relations::total_ordering(leq),
{
    assert forall|x: Seq<char>, y: Seq<char>|
        (#[trigger] leq(x, y) && #[trigger] leq(y, x) ==> x == y) && (leq(x, y) || leq(y, x)) by {
        text_order_total(x, y);
    }
    assert forall|x: Seq<char>, y: Seq<char>, z: Seq<char>| #[trigger]
        leq(x, y) && #[trigger] leq(y, z) implies leq(x, z) by {
        if x != y && y != z {
            text_order_transitive(x, y, z);
        }
    }
}

/// There is only one way to put texts in dictionary order.
pub proof fn sorting_is_unique(s: Seq<Seq<char>>, a: Seq<Seq<char>>, b: Seq<Seq<char>>)
    requires
        sorts(s, a),
        sorts(s, b),
    ensures
        a == b,
{
    let leq = |x: Seq<char>, y: Seq<char>| text_le(x, y);
    dictionary_order_is_total(leq);
    assert(vstd::relations::sorted_by(a, leq));
    assert(vstd::relations::sorted_by(b, leq));
    vstd::seq_lib::lemma_sorted_unique(a, b, leq);
}

/// Texts can always be put in dictionary order.
pub proof fn sorting_is_possible(s: Seq<Seq<char>>)
    ensures
        sorts(s, in_dictionary_order(s)),
{
    let leq = |x: Seq<char>, y: Seq<char>| text_le(x, y);
    dictionary_order_is_total(leq);
    let t = s.sort_by(leq);
    s.lemma_sort_by_ensures(leq);
    assert forall|i: int, j: int| 0 <= i < j < t.len() implies text_le(
        #[trigger] t[i],
        #[trigger] t[j],
    ) by {
        assert(leq(t[i], t[j]));
    }
    assert(sorts(s, t));
}

/// Puts strings in dictionary order.
pub fn sort_texts(list: Vec<String>) -> (r: Vec<String>)
    ensures
        sorts(texts(list@), texts(r@)),
        texts(r@) == in_dictionary_order(texts(list@)),
{
    let ghost all = texts(list@);
    let mut r: Vec<String> = Vec::new();
    let mut i: usize = 0;
    assert(all.take(0) =~= texts(r@));
    while i < list.len()
        invariant
            i <= list@.len(),
            all == texts(list@),
            ascends(texts(r@)),
            texts(r@).to_multiset() == all.take(i as int).to_multiset(),
        decreases list@.len() - i,
    {
        let ghost s = texts(r@);
        let ghost x = list@[i as int]@;
        let mut at: usize = 0;
        while at < r.len() && !comes_before(list[i].as_str(), r[at].as_str())
            invariant
                i < list@.len(),
                at <= r@.len(),
                s == texts(r@),
                x == list@[i as int]@,
                forall|k: int| 0 <= k < at ==> !text_lt(x, #[trigger] s[k]),
            decreases r@.len() - at,
        {
            assert(s[at as int] == r@[at as int]@);
            at += 1;
        }
        r.insert(at, list[i].clone());
        proof {
            let t = texts(r@);
            assert(t =~= s.insert(at as int, x));
            assert forall|p: int, q: int| 0 <= p < q < t.len() implies text_le(
                #[trigger] t[p],
                #[trigger] t[q],
            ) by {
                if q == at {
                    assert(t[p] == s[p]);
                    text_order_total(s[p], x);
                } else if p == at {
                    assert(t[q] == s[q - 1]);
                    assert(text_lt(x, s[at as int]));
                    if q - 1 > at {
                        assert(text_le(s[at as int], s[q - 1]));
                        if s[at as int] != s[q - 1] {
                            text_order_transitive(x, s[at as int], s[q - 1]);
                        }
                    }
                } else {
                    let a = if p < at {
                        p
                    } else {
                        p - 1
                    };
                    let b = if q < at {
                        q
                    } else {
                        q - 1
                    };
                    assert(t[p] == s[a] && t[q] == s[b]);
                }
            }
            vstd::seq_lib::to_multiset_insert(s, at as int, x);
            vstd::seq_lib::to_multiset_build(all.take(i as int), x);
            assert(all.take(i + 1) =~= all.take(i as int).push(x));
        }
        i += 1;
    }
    proof {
        assert(all.take(i as int) =~= all);
        sorting_is_unique(all, texts(r@), in_dictionary_order(all));
    }
    r
}

} // verus!

//! Character-level helpers: decimal numbers, hexadecimal digits and searching.

use vstd::prelude::*;
use vstd::utf8::{char_is_scalar, encode_scalar, encode_utf8, is_ascii_chars};

verus! {

broadcast use vstd::string::group_string_axioms;

/// The characters of `s`, in order.
pub fn chars_of(s: &str) -> (out: Vec<char>)
    ensures
        out@ == s@,
{
    let mut out: Vec<char> = Vec::new();
    for c in it: s.chars()
        invariant
            out@ == it.seq().take(it.index()),
    {
        out.push(c);
        assert(it.seq().take(it.index()).push(c) =~= it.seq().take(it.index() + 1));
    }
    out
}

/// Collects characters into a `String`: calls `FromIterator<&char> for String`
/// through `Iterator::collect`, which appends the characters in order, so the
/// string holds exactly `cs`.
#[verifier::external_body]
pub(crate) fn string_from_chars(cs: &[char]) -> (s: String)
    ensures
        s@ == cs@,
{
    cs.iter().collect()
}

/// A copy of `cs[start..end]`.
pub fn sub_chars(cs: &[char], start: usize, end: usize) -> (out: Vec<char>)
    requires
        start <= end <= cs@.len(),
    ensures
        out@ == cs@.subrange(start as int, end as int),
{
    let mut out: Vec<char> = Vec::new();
    let mut i = start;
    while i < end
        invariant
            start <= i <= end <= cs@.len(),
            out@ == cs@.subrange(start as int, i as int),
        decreases end - i,
    {
        out.push(cs[i]);
        assert(out@ =~= cs@.subrange(start as int, i + 1));
        i = i + 1;
    }
    out
}

/// Whether `a` and `b` hold the same characters.
pub fn chars_eq(a: &[char], b: &[char]) -> (r: bool)
    ensures
        r == (a@ == b@),
{
    if a.len() != b.len() {
        return false;
    }
    let mut i: usize = 0;
    while i < a.len()
        invariant
            a@.len() == b@.len(),
            i <= a@.len(),
            forall|j: int| 0 <= j < i ==> a@[j] == b@[j],
        decreases a@.len() - i,
    {
        if a[i] != b[i] {
            return false;
        }
        i = i + 1;
    }
    assert(a@ =~= b@);
    true
}

/// Whitespace as `char::is_whitespace` defines it: the Unicode `White_Space`
/// characters U+0009 to U+000D, U+0020, U+0085, U+00A0, U+1680, U+2000 to
/// U+200A, U+2028, U+2029, U+202F, U+205F and U+3000.
pub open spec fn is_whitespace(c: char) -> bool {
    let v = c as u32;
    (0x9 <= v && v <= 0xd) || v == 0x20 || v == 0x85 || v == 0xa0 || v == 0x1680 || (0x2000 <= v
        && v <= 0x200a) || v == 0x2028 || v == 0x2029 || v == 0x202f || v == 0x205f || v == 0x3000
}

pub fn is_whitespace_exec(c: char) -> (b: bool)
    ensures
        b == is_whitespace(c),
{
    let v = c as u32;
    (0x9 <= v && v <= 0xd) || v == 0x20 || v == 0x85 || v == 0xa0 || v == 0x1680 || (0x2000 <= v
        && v <= 0x200a) || v == 0x2028 || v == 0x2029 || v == 0x202f || v == 0x205f || v == 0x3000
}

/// First index at or after `i` that holds no whitespace, or the length.
pub open spec fn skip_whitespace(s: Seq<char>, i: int) -> int
    decreases s.len() - i,
{
    if i < 0 || i >= s.len() {
        i
    } else if is_whitespace(s[i]) {
        skip_whitespace(s, i + 1)
    } else {
        i
    }
}

/// First index at or after `i` that holds whitespace, or the length.
pub open spec fn word_end(s: Seq<char>, i: int) -> int
    decreases s.len() - i,
{
    if i < 0 || i >= s.len() {
        i
    } else if is_whitespace(s[i]) {
        i
    } else {
        word_end(s, i + 1)
    }
}

/// The bounds of the first word at or after `i`: a maximal run of
/// non-whitespace characters, as `str::split_whitespace` yields them.
pub open spec fn next_word(s: Seq<char>, i: int) -> Option<(int, int)> {
    let start = skip_whitespace(s, i);
    if start >= s.len() {
        None
    } else {
        Some((start, word_end(s, start)))
    }
}

/// `s` without leading and trailing whitespace, as `str::trim` gives it.
pub open spec fn trim(s: Seq<char>) -> Seq<char> {
    let start = skip_whitespace(s, 0);
    s.subrange(start, last_non_whitespace_end(s, s.len() as int, start))
}

/// One past the last index in `lo..hi` that holds no whitespace, or `lo`.
pub open spec fn last_non_whitespace_end(s: Seq<char>, hi: int, lo: int) -> int
    decreases hi - lo,
{
    if hi <= lo {
        lo
    } else if is_whitespace(s[hi - 1]) {
        last_non_whitespace_end(s, hi - 1, lo)
    } else {
        hi
    }
}

/// `skip_whitespace` stops at the first character from `i` on that is no
/// whitespace, or at the end.
proof fn lemma_skip_whitespace_bounds(s: Seq<char>, i: int)
    requires
        0 <= i <= s.len(),
    ensures
        i <= skip_whitespace(s, i) <= s.len(),
        forall|j: int| i <= j < skip_whitespace(s, i) ==> is_whitespace(#[trigger] s[j]),
        skip_whitespace(s, i) < s.len() ==> !is_whitespace(s[skip_whitespace(s, i)]),
    decreases s.len() - i,
{
    if i < s.len() && is_whitespace(s[i]) {
        lemma_skip_whitespace_bounds(s, i + 1);
    }
}

/// `last_non_whitespace_end` stops after the last character below `hi` that is
/// no whitespace, or at `lo`.
proof fn lemma_last_non_whitespace_end_bounds(s: Seq<char>, hi: int, lo: int)
    requires
        0 <= lo <= hi <= s.len(),
    ensures
        lo <= last_non_whitespace_end(s, hi, lo) <= hi,
        forall|j: int|
            last_non_whitespace_end(s, hi, lo) <= j < hi ==> is_whitespace(#[trigger] s[j]),
        last_non_whitespace_end(s, hi, lo) > lo ==> !is_whitespace(
            s[last_non_whitespace_end(s, hi, lo) - 1],
        ),
    decreases hi - lo,
{
    if hi > lo && is_whitespace(s[hi - 1]) {
        lemma_last_non_whitespace_end_bounds(s, hi - 1, lo);
    }
}

/// Trimming drops exactly the whitespace at both ends: the line is some
/// whitespace, the trimmed text and some whitespace, and the trimmed text,
/// when not empty, starts and ends with a character that is no whitespace.
pub proof fn lemma_trim_props(s: Seq<char>)
    ensures
        exists|a: int, b: int|
            #![trigger s.subrange(a, b)]
            0 <= a <= b <= s.len() && trim(s) == s.subrange(a, b) && (forall|j: int|
                0 <= j < a ==> is_whitespace(#[trigger] s[j])) && (forall|j: int|
                b <= j < s.len() ==> is_whitespace(#[trigger] s[j])),
        trim(s).len() > 0 ==> !is_whitespace(trim(s)[0]) && !is_whitespace(trim(s).last()),
{
    let a = skip_whitespace(s, 0);
    lemma_skip_whitespace_bounds(s, 0);
    let b = last_non_whitespace_end(s, s.len() as int, a);
    lemma_last_non_whitespace_end_bounds(s, s.len() as int, a);
    assert(trim(s) == s.subrange(a, b));
    if trim(s).len() > 0 {
        assert(trim(s)[0] == s[a]);
        assert(trim(s).last() == s[b - 1]);
    }
}

/// `word_end` stops at the first whitespace from `i` on, or at the end.
proof fn lemma_word_end_bounds(s: Seq<char>, i: int)
    requires
        0 <= i <= s.len(),
    ensures
        i <= word_end(s, i) <= s.len(),
        forall|j: int| i <= j < word_end(s, i) ==> !is_whitespace(#[trigger] s[j]),
        word_end(s, i) < s.len() ==> is_whitespace(s[word_end(s, i)]),
    decreases s.len() - i,
{
    if i < s.len() && !is_whitespace(s[i]) {
        lemma_word_end_bounds(s, i + 1);
    }
}

/// The next word from `i` on is a maximal run of characters that are no
/// whitespace, with only whitespace before it; there is none when only
/// whitespace is left.
pub proof fn lemma_next_word_props(s: Seq<char>, i: int)
    requires
        0 <= i <= s.len(),
    ensures
        match next_word(s, i) {
            None => forall|j: int| i <= j < s.len() ==> is_whitespace(#[trigger] s[j]),
            Some((a, b)) => {
                &&& i <= a < b <= s.len()
                &&& forall|j: int| i <= j < a ==> is_whitespace(#[trigger] s[j])
                &&& forall|j: int| a <= j < b ==> !is_whitespace(#[trigger] s[j])
                &&& (b == s.len() || is_whitespace(s[b]))
            },
        },
{
    lemma_skip_whitespace_bounds(s, i);
    let a = skip_whitespace(s, i);
    if a < s.len() {
        lemma_word_end_bounds(s, a);
    }
}

/// The bounds of the first word of `cs` at or after `i`.
pub fn next_word_exec(cs: &[char], i: usize) -> (r: Option<(usize, usize)>)
    requires
        i <= cs@.len(),
    ensures
        match (r, next_word(cs@, i as int)) {
            (Some((a, b)), Some((x, y))) => a == x && b == y,
            (None, None) => true,
            _ => false,
        },
        r matches Some((a, b)) ==> i <= a < b <= cs@.len(),
{
    let n = cs.len();
    let mut start = i;
    while start < n && is_whitespace_exec(cs[start])
        invariant
            i <= start <= n == cs@.len(),
            skip_whitespace(cs@, i as int) == skip_whitespace(cs@, start as int),
        decreases n - start,
    {
        start = start + 1;
    }
    if start >= n {
        return None;
    }
    let mut end = start;
    while end < n && !is_whitespace_exec(cs[end])
        invariant
            start <= end <= n == cs@.len(),
            word_end(cs@, start as int) == word_end(cs@, end as int),
        decreases n - end,
    {
        end = end + 1;
    }
    Some((start, end))
}

/// `cs` without leading and trailing whitespace.
pub fn trim_exec(cs: &[char]) -> (out: Vec<char>)
    ensures
        out@ == trim(cs@),
        is_ascii_chars(cs@) ==> is_ascii_chars(out@),
{
    let n = cs.len();
    let mut start: usize = 0;
    while start < n && is_whitespace_exec(cs[start])
        invariant
            start <= n == cs@.len(),
            skip_whitespace(cs@, 0) == skip_whitespace(cs@, start as int),
        decreases n - start,
    {
        start = start + 1;
    }
    let mut end = n;
    while end > start && is_whitespace_exec(cs[end - 1])
        invariant
            start <= end <= n == cs@.len(),
            last_non_whitespace_end(cs@, n as int, start as int) == last_non_whitespace_end(
                cs@,
                end as int,
                start as int,
            ),
        decreases end - start,
    {
        end = end - 1;
    }
    let out = sub_chars(cs, start, end);
    assert(is_ascii_chars(cs@) ==> is_ascii_chars(out@)) by {
        if is_ascii_chars(cs@) {
            assert forall|i: int| 0 <= i < out@.len() implies '\0' <= #[trigger] out@[i]
                <= '\u{7f}' by {
                assert(out@[i] == cs@[start + i]);
            }
        }
    }
    out
}

/// The UTF-8 encoding of a concatenation is the concatenation of the encodings.
pub proof fn lemma_encode_utf8_concat(a: Seq<char>, b: Seq<char>)
    ensures
        encode_utf8(a + b) == encode_utf8(a) + encode_utf8(b),
    decreases a.len(),
{
    if a.len() == 0 {
        assert(a + b =~= b);
        assert(encode_utf8(a) =~= Seq::<u8>::empty());
        assert(encode_utf8(a) + encode_utf8(b) =~= encode_utf8(b));
    } else {
        assert((a + b).drop_first() =~= a.drop_first() + b);
        lemma_encode_utf8_concat(a.drop_first(), b);
        assert(encode_utf8(a + b) =~= encode_scalar(a[0] as u32) + encode_utf8(a.drop_first() + b));
    }
}

/// Number of UTF-8 bytes of a character.
fn utf8_width(c: char) -> (w: usize)
    ensures
        w == encode_scalar(c as u32).len(),
        1 <= w <= 4,
{
    proof {
        char_is_scalar(c);
    }
    let v = c as u32;
    if v < 0x80 {
        1
    } else if v < 0x800 {
        2
    } else if v < 0x10000 {
        3
    } else {
        4
    }
}

/// Whether the UTF-8 encoding of `x` is shorter than five bytes, as
/// `str::len` measures it.
pub fn utf8_shorter_than_five(x: &[char]) -> (b: bool)
    ensures
        b == (encode_utf8(x@).len() < 5),
{
    let mut acc: usize = 0;
    let mut i: usize = 0;
    while i < x.len()
        invariant
            i <= x@.len(),
            acc == encode_utf8(x@.subrange(0, i as int)).len(),
            acc < 5,
        decreases x@.len() - i,
    {
        let w = utf8_width(x[i]);
        proof {
            let pre = x@.subrange(0, i as int);
            assert(x@.subrange(0, i + 1) =~= pre + seq![x@[i as int]]);
            lemma_encode_utf8_concat(pre, seq![x@[i as int]]);
            assert(seq![x@[i as int]].drop_first() =~= Seq::<char>::empty());
            assert(encode_utf8(seq![x@[i as int]]) =~= encode_scalar(x@[i as int] as u32)
                + encode_utf8(Seq::<char>::empty()));
        }
        acc = acc + w;
        if acc >= 5 {
            proof {
                assert(x@ =~= x@.subrange(0, i + 1) + x@.subrange(i + 1, x@.len() as int));
                lemma_encode_utf8_concat(
                    x@.subrange(0, i + 1),
                    x@.subrange(i + 1, x@.len() as int),
                );
            }
            return false;
        }
        i = i + 1;
    }
    assert(x@.subrange(0, x@.len() as int) =~= x@);
    true
}

/// ASCII hexadecimal digit: `0-9`, `a-f` or `A-F`.
pub open spec fn is_hex_digit(c: char) -> bool {
    ('0' <= c && c <= '9') || ('a' <= c && c <= 'f') || ('A' <= c && c <= 'F')
}

pub fn is_hex_digit_exec(c: char) -> (b: bool)
    ensures
        b == is_hex_digit(c),
{
    ('0' <= c && c <= '9') || ('a' <= c && c <= 'f') || ('A' <= c && c <= 'F')
}

/// Every character of `s` is a hexadecimal digit.
pub open spec fn all_hex(s: Seq<char>) -> bool {
    forall|i: int| 0 <= i < s.len() ==> is_hex_digit(#[trigger] s[i])
}

/// Whether every character of `cs[start..end]` is a hexadecimal digit.
pub fn all_hex_exec(cs: &[char], start: usize, end: usize) -> (b: bool)
    requires
        start <= end <= cs@.len(),
    ensures
        b == all_hex(cs@.subrange(start as int, end as int)),
{
    let mut i = start;
    while i < end
        invariant
            start <= i <= end <= cs@.len(),
            forall|j: int| start <= j < i ==> is_hex_digit(#[trigger] cs@[j]),
        decreases end - i,
    {
        if !is_hex_digit_exec(cs[i]) {
            assert(cs@.subrange(start as int, end as int)[i - start] == cs@[i as int]);
            return false;
        }
        i = i + 1;
    }
    assert forall|k: int| 0 <= k < end - start implies is_hex_digit(
        #[trigger] cs@.subrange(start as int, end as int)[k],
    ) by {
        assert(cs@.subrange(start as int, end as int)[k] == cs@[start + k]);
    }
    true
}

/// Index of the first `c` in `s`.
pub open spec fn find_first(s: Seq<char>, c: char) -> Option<int>
    decreases s.len(),
{
    if s.len() == 0 {
        None
    } else if s[0] == c {
        Some(0)
    } else {
        match find_first(s.drop_first(), c) {
            Some(i) => Some(i + 1),
            None => None,
        }
    }
}

/// Index of the last `c` in `s`.
pub open spec fn find_last(s: Seq<char>, c: char) -> Option<int>
    decreases s.len(),
{
    if s.len() == 0 {
        None
    } else if s.last() == c {
        Some(s.len() - 1)
    } else {
        find_last(s.drop_last(), c)
    }
}

/// The first index holds `c` and no earlier one does.
pub proof fn lemma_find_first_props(s: Seq<char>, c: char)
    ensures
        find_first(s, c) matches Some(i) ==> 0 <= i < s.len() && s[i] == c && forall|j: int|
            0 <= j < i ==> s[j] != c,
        find_first(s, c) is None ==> forall|j: int| 0 <= j < s.len() ==> s[j] != c,
    decreases s.len(),
{
    if s.len() > 0 && s[0] != c {
        lemma_find_first_props(s.drop_first(), c);
        assert forall|j: int| 1 <= j < s.len() implies s[j] == s.drop_first()[j - 1] by {}
    }
}

/// When no character before `i` is `c` and `s[i]` is, the first `c` is at `i`;
/// when none in all of `s` is, there is none.
pub proof fn lemma_find_first(s: Seq<char>, c: char, i: int)
    requires
        0 <= i <= s.len(),
        forall|j: int| 0 <= j < i ==> s[j] != c,
    ensures
        i < s.len() && s[i] == c ==> find_first(s, c) == Some(i),
        i == s.len() ==> find_first(s, c) is None,
    decreases s.len(),
{
    if i > 0 {
        lemma_find_first(s.drop_first(), c, i - 1);
    } else if s.len() > 0 {
        if s[0] != c {
            lemma_find_first(s.drop_first(), c, 0);
        }
    }
}

/// When no character from `i` on is `c` and `s[i - 1]` is, the last `c` is at
/// `i - 1`; when none in all of `s` is, there is none.
pub proof fn lemma_find_last(s: Seq<char>, c: char, i: int)
    requires
        0 <= i <= s.len(),
        forall|j: int| i <= j < s.len() ==> s[j] != c,
    ensures
        i > 0 && s[i - 1] == c ==> find_last(s, c) == Some(i - 1),
        i == 0 ==> find_last(s, c) is None,
    decreases s.len() - i,
{
    if i < s.len() {
        assert(s.last() != c);
        lemma_find_last(s.drop_last(), c, i);
    }
}

/// Index, relative to `start`, of the first `c` in `cs[start..end]`.
pub fn find_first_exec(cs: &[char], start: usize, end: usize, c: char) -> (r: Option<usize>)
    requires
        start <= end <= cs@.len(),
    ensures
        match r {
            Some(i) => find_first(cs@.subrange(start as int, end as int), c) == Some(i as int),
            None => find_first(cs@.subrange(start as int, end as int), c) is None,
        },
        r matches Some(i) ==> i < end - start,
{
    let ghost s = cs@.subrange(start as int, end as int);
    let mut i = start;
    while i < end
        invariant
            start <= i <= end <= cs@.len(),
            s == cs@.subrange(start as int, end as int),
            forall|j: int| 0 <= j < i - start ==> s[j] != c,
        decreases end - i,
    {
        if cs[i] == c {
            proof {
                lemma_find_first(s, c, i - start);
            }
            return Some(i - start);
        }
        i = i + 1;
    }
    proof {
        lemma_find_first(s, c, i - start);
    }
    None
}

/// Index, relative to `start`, of the last `c` in `cs[start..end]`.
pub fn find_last_exec(cs: &[char], start: usize, end: usize, c: char) -> (r: Option<usize>)
    requires
        start <= end <= cs@.len(),
    ensures
        match r {
            Some(i) => find_last(cs@.subrange(start as int, end as int), c) == Some(i as int),
            None => find_last(cs@.subrange(start as int, end as int), c) is None,
        },
        r matches Some(i) ==> i < end - start,
{
    let ghost s = cs@.subrange(start as int, end as int);
    let mut i = end;
    while i > start
        invariant
            start <= i <= end <= cs@.len(),
            s == cs@.subrange(start as int, end as int),
            forall|j: int| i - start <= j < s.len() ==> s[j] != c,
        decreases i - start,
    {
        if cs[i - 1] == c {
            proof {
                lemma_find_last(s, c, i - start);
            }
            return Some(i - 1 - start);
        }
        i = i - 1;
    }
    proof {
        lemma_find_last(s, c, 0);
    }
    None
}

/// Whether `s` begins with `prefix`.
pub open spec fn has_prefix(s: Seq<char>, prefix: Seq<char>) -> bool {
    prefix.len() <= s.len() && s.subrange(0, prefix.len() as int) == prefix
}

/// Whether `cs[start..]` begins with `prefix`.
pub fn has_prefix_exec(cs: &[char], start: usize, prefix: &[char]) -> (b: bool)
    requires
        start <= cs@.len(),
    ensures
        b == has_prefix(cs@.subrange(start as int, cs@.len() as int), prefix@),
{
    let ghost s = cs@.subrange(start as int, cs@.len() as int);
    let len = cs.len();
    if prefix.len() > len - start {
        return false;
    }
    let mut i: usize = 0;
    while i < prefix.len()
        invariant
            len == cs@.len(),
            i <= prefix@.len() <= cs@.len() - start,
            start <= cs@.len(),
            s == cs@.subrange(start as int, cs@.len() as int),
            forall|j: int| 0 <= j < i ==> s[j] == prefix@[j],
        decreases prefix@.len() - i,
    {
        if cs[start + i] != prefix[i] {
            assert(s.subrange(0, prefix@.len() as int)[i as int] != prefix@[i as int]);
            return false;
        }
        i = i + 1;
    }
    assert(s.subrange(0, prefix@.len() as int) =~= prefix@);
    true
}

/// Value of a decimal digit character.
pub open spec fn digit_value(c: char) -> nat {
    (c as int - '0' as int) as nat
}

pub open spec fn is_digit(c: char) -> bool {
    '0' <= c && c <= '9'
}

/// Every character of `s` is a decimal digit.
pub open spec fn all_digits(s: Seq<char>) -> bool {
    forall|i: int| 0 <= i < s.len() ==> is_digit(#[trigger] s[i])
}

/// The number that the decimal digits `s` spell, most significant first.
pub open spec fn decimal_value(s: Seq<char>) -> nat
    decreases s.len(),
{
    if s.len() == 0 {
        0
    } else {
        decimal_value(s.drop_last()) * 10 + digit_value(s.last())
    }
}

/// What `u16::from_str` gives for `s`: an optional `+`, then at least one decimal
/// digit and nothing else, with a value that fits in 16 bits.
pub open spec fn spec_parse_u16(s: Seq<char>) -> Option<u16> {
    let digits = if s.len() > 0 && s[0] == '+' {
        s.drop_first()
    } else {
        s
    };
    if digits.len() > 0 && all_digits(digits) && decimal_value(digits) <= u16::MAX {
        Some(decimal_value(digits) as u16)
    } else {
        None
    }
}

proof fn lemma_decimal_value_prefix_monotone(s: Seq<char>, i: int, j: int)
    requires
        0 <= i <= j <= s.len(),
    ensures
        decimal_value(s.subrange(0, i)) <= decimal_value(s.subrange(0, j)),
    decreases j - i,
{
    if i < j {
        lemma_decimal_value_prefix_monotone(s, i, j - 1);
        assert(s.subrange(0, j).drop_last() =~= s.subrange(0, j - 1));
    }
}

/// Parses `cs[start..end]` as `u16::from_str` does.
pub fn parse_u16_exec(cs: &[char], start: usize, end: usize) -> (r: Option<u16>)
    requires
        start <= end <= cs@.len(),
    ensures
        r == spec_parse_u16(cs@.subrange(start as int, end as int)),
{
    let ghost s = cs@.subrange(start as int, end as int);
    let mut first = start;
    if end > start && cs[start] == '+' {
        first = start + 1;
    }
    let ghost digits = cs@.subrange(first as int, end as int);
    assert(digits =~= (if s.len() > 0 && s[0] == '+' {
        s.drop_first()
    } else {
        s
    }));
    if first == end {
        return None;
    }
    let mut acc: u32 = 0;
    let mut i = first;
    while i < end
        invariant
            first <= i <= end <= cs@.len(),
            start <= first,
            s == cs@.subrange(start as int, end as int),
            digits == (if s.len() > 0 && s[0] == '+' {
                s.drop_first()
            } else {
                s
            }),
            digits == cs@.subrange(first as int, end as int),
            acc == decimal_value(digits.subrange(0, i - first)),
            acc <= u16::MAX,
            all_digits(digits.subrange(0, i - first)),
        decreases end - i,
    {
        let c = cs[i];
        let ghost pre = digits.subrange(0, i - first + 1);
        assert(pre.drop_last() =~= digits.subrange(0, i - first));
        if !('0' <= c && c <= '9') {
            assert(!is_digit(digits[i - first]));
            assert(!all_digits(digits));
            assert(spec_parse_u16(s) is None);
            return None;
        }
        let d = (c as u32) - ('0' as u32);
        acc = acc * 10 + d;
        if acc > 65535 {
            proof {
                lemma_decimal_value_prefix_monotone(digits, i - first + 1, digits.len() as int);
                assert(digits.subrange(0, digits.len() as int) =~= digits);
                assert(decimal_value(pre) == acc);
                assert(spec_parse_u16(s) is None);
            }
            return None;
        }
        i = i + 1;
    }
    assert(digits.subrange(0, digits.len() as int) =~= digits);
    Some(acc as u16)
}

/// The character of a digit value below 10.
pub open spec fn digit_char(d: nat) -> char {
    (('0' as int) + d) as char
}

/// The decimal rendering of `n`, without leading zeros.
pub open spec fn to_decimal(n: nat) -> Seq<char>
    decreases n,
{
    if n < 10 {
        seq![digit_char(n)]
    } else {
        to_decimal(n / 10).push(digit_char(n % 10))
    }
}

/// The decimal rendering of `n` is a non-empty string of digits that spells `n`,
/// with no leading zero: `0` is written as the one digit `0`.
pub proof fn lemma_to_decimal(n: nat)
    ensures
        to_decimal(n).len() > 0,
        all_digits(to_decimal(n)),
        decimal_value(to_decimal(n)) == n,
        to_decimal(n)[0] != '+',
        n > 0 ==> to_decimal(n)[0] != '0',
        n == 0 ==> to_decimal(n) == seq!['0'],
    decreases n,
{
    let d = to_decimal(n);
    if n >= 10 {
        lemma_to_decimal(n / 10);
        assert(d.drop_last() =~= to_decimal(n / 10));
        assert(digit_value(digit_char(n % 10)) == n % 10);
        assert(d.last() == digit_char(n % 10));
        assert(decimal_value(d) == decimal_value(to_decimal(n / 10)) * 10 + n % 10);
        assert(n == (n / 10) * 10 + n % 10);
        assert forall|i: int| 0 <= i < d.len() implies is_digit(#[trigger] d[i]) by {
            if i < d.len() - 1 {
                assert(d[i] == to_decimal(n / 10)[i]);
            }
        }
        assert(d[0] == to_decimal(n / 10)[0]);
    } else {
        assert(d.drop_last() =~= Seq::<char>::empty());
        assert(digit_value(digit_char(n)) == n);
        assert(n > 0 ==> digit_char(n) != '0');
        assert(n == 0 ==> d =~= seq!['0']);
        assert(decimal_value(d) == decimal_value(d.drop_last()) * 10 + digit_value(d.last()));
    }
}

/// Parsing the decimal rendering of a 16-bit number gives the number back.
pub proof fn lemma_parse_u16_to_decimal(n: u16)
    ensures
        spec_parse_u16(to_decimal(n as nat)) == Some(n),
{
    lemma_to_decimal(n as nat);
}

/// Appends the decimal rendering of `n` to `out`.
pub fn push_decimal(out: &mut Vec<char>, n: u128)
    ensures
        final(out)@ == old(out)@ + to_decimal(n as nat),
    decreases n,
{
    if n < 10 {
        out.push(((48 + n) as u8) as char);
        assert(old(out)@.push(digit_char(n as nat)) =~= old(out)@ + to_decimal(n as nat));
    } else {
        push_decimal(out, n / 10);
        let ghost mid = out@;
        out.push(((48 + n % 10) as u8) as char);
        assert(mid.push(digit_char((n % 10) as nat)) =~= old(out)@ + to_decimal(n as nat));
    }
}

} // verus!

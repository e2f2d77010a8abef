//! Work on text: comparing, splitting, trimming, reading decimal numbers and
//! filling in a placeholder.

use vstd::prelude::*;
use vstd::string::{StrSliceExecFns, StringExecFns};

verus! {

/// Whether two texts hold the same characters.
pub fn same_text(a: &str, b: &str) -> (r: bool)
    ensures
        r == (a@ == b@),
{
    let left = a.to_owned();
    let right = b.to_owned();
    left == right
}

/// The pieces into which the occurrences of `sep` cut `s`, from left to
/// right. There is always one piece more than there are occurrences, so a
/// text without `sep`, the empty one too, is one piece.
pub open spec fn split_spec(s: Seq<char>, sep: char) -> Seq<Seq<char>>
    decreases s.len(),
{
    if s.len() == 0 {
        seq![Seq::<char>::empty()]
    } else {
        let before = split_spec(s.drop_last(), sep);
        if s.last() == sep {
            before.push(Seq::<char>::empty())
        } else {
            before.drop_last().push(before.last().push(s.last()))
        }
    }
}

/// The pieces put together again, with `sep` between neighbours.
pub open spec fn join_spec(parts: Seq<Seq<char>>, sep: char) -> Seq<char>
    decreases parts.len(),
{
    if parts.len() == 0 {
        Seq::<char>::empty()
    } else if parts.len() == 1 {
        parts[0]
    } else {
        join_spec(parts.drop_last(), sep).push(sep) + parts.last()
    }
}

/// Whether `parts` is a way to cut a text at `sep`: there is a piece, and
/// no piece holds `sep`.
pub open spec fn is_cut(parts: Seq<Seq<char>>, sep: char) -> bool {
    &&& parts.len() >= 1
    &&& forall|i: int, j: int|
        0 <= i < parts.len() && 0 <= j < parts[i].len() ==> #[trigger] parts[i][j] != sep
}

/// Splitting loses nothing and leaves no separator behind: what it gives
/// is a way to cut the text at `sep`, and the pieces joined with `sep` are
/// the text again.
pub proof fn lemma_split_joins(s: Seq<char>, sep: char)
    ensures
        is_cut(split_spec(s, sep), sep),
        join_spec(split_spec(s, sep), sep) == s,
    decreases s.len(),
{
    let parts = split_spec(s, sep);
    if s.len() > 0 {
        let before = split_spec(s.drop_last(), sep);
        lemma_split_joins(s.drop_last(), sep);
        if s.last() == sep {
            assert(parts.drop_last() == before);
        } else {
            if before.len() > 1 {
                assert(parts.drop_last() == before.drop_last());
                assert(join_spec(parts, sep) == (join_spec(before.drop_last(), sep).push(sep)
                    + before.last()).push(s.last()));
            }
            assert forall|i: int, j: int|
                0 <= i < parts.len() && 0 <= j < parts[i].len() implies #[trigger] parts[i][j]
                != sep by {}
        }
    }
}

/// A text can be cut at `sep` in one way only: pieces without `sep` that
/// join to the text are the pieces that splitting gives.
pub proof fn lemma_split_is_the_only_cut(parts: Seq<Seq<char>>, s: Seq<char>, sep: char)
    requires
        is_cut(parts, sep),
        join_spec(parts, sep) == s,
    ensures
        parts == split_spec(s, sep),
    decreases s.len(),
{
    let last = parts.last();
    let front = parts.drop_last();
    if s.len() == 0 {
        assert(parts[0] == Seq::<char>::empty());
    } else if last.len() == 0 {
        assert(last == Seq::<char>::empty());
        assert(s.drop_last() == join_spec(front, sep));
        assert(is_cut(front, sep)) by {
            assert forall|i: int, j: int|
                0 <= i < front.len() && 0 <= j < front[i].len() implies #[trigger] front[i][j]
                != sep by {}
        }
        lemma_split_is_the_only_cut(front, s.drop_last(), sep);
    } else {
        let shorter = front.push(last.drop_last());
        assert(shorter.drop_last() == front);
        assert(join_spec(shorter, sep) == s.drop_last());
        assert(is_cut(shorter, sep)) by {
            assert forall|i: int, j: int|
                0 <= i < shorter.len() && 0 <= j < shorter[i].len() implies #[trigger] shorter[i][j]
                != sep by {}
        }
        lemma_split_is_the_only_cut(shorter, s.drop_last(), sep);
        assert(last.drop_last().push(s.last()) == last);
    }
}

/// Cuts `text` at every `sep`.
pub fn split(text: &str, sep: char) -> (parts: Vec<String>)
    ensures
        parts.deep_view() == split_spec(text@, sep),
        parts.len() >= 1,
{
    let n = text.unicode_len();
    let mut parts: Vec<String> = Vec::new();
    let mut start: usize = 0;
    let mut i: usize = 0;
    assert(text@.take(0) == Seq::<char>::empty());
    while i < n
        invariant
            start <= i <= n,
            n == text@.len(),
            parts.deep_view().push(text@.subrange(start as int, i as int)) == split_spec(
                text@.take(i as int),
                sep,
            ),
        decreases n - i,
    {
        let c = text.get_char(i);
        let ghost before = split_spec(text@.take(i as int), sep);
        proof {
            assert(text@.take(i + 1).drop_last() == text@.take(i as int));
        }
        if c == sep {
            parts.push(String::from_str(text.substring_char(start, i)));
            start = i + 1;
            proof {
                assert(text@.subrange(start as int, i + 1) == Seq::<char>::empty());
            }
        } else {
            proof {
                assert(text@.subrange(start as int, i + 1) == before.last().push(c));
            }
        }
        i = i + 1;
    }
    parts.push(String::from_str(text.substring_char(start, n)));
    proof {
        assert(text@.take(n as int) == text@);
    }
    parts
}

/// Whether `c` is one of the ten decimal digits.
pub open spec fn is_digit(c: char) -> bool {
    0x30 <= c as u32 <= 0x39
}

/// The number that a decimal digit stands for.
pub open spec fn digit_value(c: char) -> nat {
    if is_digit(c) {
        (c as u32 - 0x30) as nat
    } else {
        0
    }
}

/// The number that a run of decimal digits stands for.
pub open spec fn decimal_value(digits: Seq<char>) -> nat
    decreases digits.len(),
{
    if digits.len() == 0 {
        0
    } else {
        decimal_value(digits.drop_last()) * 10 + digit_value(digits.last())
    }
}

/// Whether every character of `s` is a decimal digit.
pub open spec fn all_digits(s: Seq<char>) -> bool {
    forall|i: int| 0 <= i < s.len() ==> is_digit(#[trigger] s[i])
}

/// The number that `s` is the decimal writing of: an optional `+`, then at
/// least one digit and nothing else; and the number fits in 32 bits.
pub open spec fn parse_u32_spec(s: Seq<char>) -> Option<u32> {
    let digits = if s.len() > 0 && s[0] == '+' {
        s.skip(1)
    } else {
        s
    };
    if digits.len() > 0 && all_digits(digits) && decimal_value(digits) <= u32::MAX {
        Some(decimal_value(digits) as u32)
    } else {
        None
    }
}

/// A run of digits stands for no less than any of its beginnings does.
pub proof fn lemma_decimal_value_grows(digits: Seq<char>, k: int)
    requires
        0 <= k <= digits.len(),
    ensures
        decimal_value(digits.take(k)) <= decimal_value(digits),
    decreases digits.len() - k,
{
    if k == digits.len() {
        assert(digits.take(k) == digits);
    } else {
        lemma_decimal_value_grows(digits, k + 1);
        assert(digits.take(k + 1).drop_last() == digits.take(k));
    }
}

/// Reads a number of 32 bits from its decimal writing.
pub fn parse_u32(text: &str) -> (r: Option<u32>)
    ensures
        r == parse_u32_spec(text@),
{
    let n = text.unicode_len();
    if n == 0 {
        return None;
    }
    let start: usize = if text.get_char(0) == '+' {
        1
    } else {
        0
    };
    if start == n {
        return None;
    }
    let ghost digits = text@.skip(start as int);
    let mut value: u64 = 0;
    let mut i: usize = start;
    while i < n
        invariant
            start <= i <= n,
            start <= 1,
            n == text@.len(),
            digits == text@.skip(start as int),
            digits == if text@.len() > 0 && text@[0] == '+' {
                text@.skip(1)
            } else {
                text@
            },
            forall|k: int| 0 <= k < i - start ==> is_digit(#[trigger] digits[k]),
            value == decimal_value(digits.take(i - start)),
            value <= u32::MAX,
        decreases n - i,
    {
        let c = text.get_char(i);
        if !(c >= '0' && c <= '9') {
            assert(!is_digit(digits[i - start]));
            return None;
        }
        let d: u64 = (c as u32 - 0x30) as u64;
        let next: u64 = value * 10 + d;
        proof {
            assert(digits.take(i + 1 - start).drop_last() == digits.take(i - start));
        }
        if next > 0xffff_ffff {
            proof {
                lemma_decimal_value_grows(digits, i + 1 - start);
            }
            return None;
        }
        value = next;
        i = i + 1;
    }
    assert(digits.take(n - start) == digits);
    Some(value as u32)
}

/// Whether `c` is white space, as Unicode defines it.
pub uninterp spec fn whitespace(c: char) -> bool;

/// `char::is_whitespace` of the standard library. The contract gives its
/// answer the name `whitespace` and claims nothing else of it.
#[verifier::external_body]
fn is_whitespace(c: char) -> (r: bool)
    ensures
        r == whitespace(c),
{
    c.is_whitespace()
}

/// `s` without the white space that it begins with.
pub open spec fn trim_start_spec(s: Seq<char>) -> Seq<char>
    decreases s.len(),
{
    if s.len() > 0 && whitespace(s.first()) {
        trim_start_spec(s.drop_first())
    } else {
        s
    }
}

/// `s` without the white space that it ends with.
pub open spec fn trim_end_spec(s: Seq<char>) -> Seq<char>
    decreases s.len(),
{
    if s.len() > 0 && whitespace(s.last()) {
        trim_end_spec(s.drop_last())
    } else {
        s
    }
}

/// `s` without the white space at either end.
pub open spec fn trim_spec(s: Seq<char>) -> Seq<char> {
    trim_end_spec(trim_start_spec(s))
}

/// Takes the white space off both ends of `text`.
pub fn trim(text: &str) -> (r: &str)
    ensures
        r@ == trim_spec(text@),
{
    let n = text.unicode_len();
    let mut a: usize = 0;
    let mut go_on: bool = true;
    assert(text@.skip(0) == text@);
    while go_on
        invariant
            a <= n,
            n == text@.len(),
            trim_start_spec(text@) == trim_start_spec(text@.skip(a as int)),
            !go_on ==> trim_start_spec(text@.skip(a as int)) == text@.skip(a as int),
        decreases n - a + if go_on { 1int } else { 0int },
    {
        if a < n && is_whitespace(text.get_char(a)) {
            assert(text@.skip(a as int).drop_first() == text@.skip(a + 1));
            a = a + 1;
        } else {
            go_on = false;
        }
    }
    let mut b: usize = n;
    go_on = true;
    while go_on
        invariant
            a <= b <= n,
            n == text@.len(),
            trim_spec(text@) == trim_end_spec(text@.subrange(a as int, b as int)),
            !go_on ==> trim_end_spec(text@.subrange(a as int, b as int)) == text@.subrange(
                a as int,
                b as int,
            ),
        decreases b - a + if go_on { 1int } else { 0int },
    {
        if a < b && is_whitespace(text.get_char(b - 1)) {
            assert(text@.subrange(a as int, b as int).drop_last() == text@.subrange(
                a as int,
                b - 1,
            ));
            b = b - 1;
        } else {
            go_on = false;
        }
    }
    text.substring_char(a, b)
}

/// Whether `s` begins with `pat`.
pub open spec fn starts_with(s: Seq<char>, pat: Seq<char>) -> bool {
    pat.len() <= s.len() && s.take(pat.len() as int) == pat
}

/// `s` with `to` in place of every occurrence of `pat`, the occurrences
/// taken from left to right and none overlapping another. An empty `pat`
/// occurs nowhere.
pub open spec fn replace_spec(s: Seq<char>, pat: Seq<char>, to: Seq<char>) -> Seq<char>
    decreases s.len(),
{
    if s.len() == 0 || pat.len() == 0 {
        s
    } else if starts_with(s, pat) {
        to + replace_spec(s.skip(pat.len() as int), pat, to)
    } else {
        seq![s.first()] + replace_spec(s.drop_first(), pat, to)
    }
}

/// Whether `pat` stands in `text` at position `at`.
fn occurs_at(text: &str, pat: &str, at: usize) -> (r: bool)
    requires
        at <= text@.len(),
    ensures
        r == starts_with(text@.skip(at as int), pat@),
{
    let n = text.unicode_len();
    let m = pat.unicode_len();
    if m > n - at {
        return false;
    }
    let mut j: usize = 0;
    while j < m
        invariant
            j <= m,
            m == pat@.len(),
            n == text@.len(),
            at + m <= n,
            forall|k: int| 0 <= k < j ==> text@[at + k] == pat@[k],
        decreases m - j,
    {
        if text.get_char(at + j) != pat.get_char(j) {
            return false;
        }
        j = j + 1;
    }
    assert(text@.skip(at as int).take(m as int) == pat@);
    true
}

/// Puts `to` in place of every occurrence of `pat` in `text`.
pub fn replace(text: &str, pat: &str, to: &str) -> (r: String)
    ensures
        r@ == replace_spec(text@, pat@, to@),
{
    let n = text.unicode_len();
    let m = pat.unicode_len();
    if m == 0 {
        return String::from_str(text);
    }
    let mut out = String::new();
    let mut i: usize = 0;
    assert(text@.skip(0) == text@);
    while i < n
        invariant
            i <= n,
            n == text@.len(),
            m == pat@.len(),
            m > 0,
            out@ + replace_spec(text@.skip(i as int), pat@, to@) == replace_spec(
                text@,
                pat@,
                to@,
            ),
        decreases n - i,
    {
        let ghost rest = text@.skip(i as int);
        if occurs_at(text, pat, i) {
            out.append(to);
            proof {
                assert(rest.skip(m as int) == text@.skip(i + m));
            }
            i = i + m;
        } else {
            out.append(text.substring_char(i, i + 1));
            proof {
                assert(rest.drop_first() == text@.skip(i + 1));
            }
            i = i + 1;
        }
    }
    out
}

} // verus!

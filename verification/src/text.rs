//! Verified text utilities: character-level equality and substring
//! search, extraction of the first run of decimal digits, and bounded
//! decimal parsing.  These carry the textual rules of the catalog
//! (numeric stats, marker substrings, identifier prefixes).
use vstd::prelude::*;

verus! {

/// A decimal digit, `'0'` through `'9'`.
pub open spec fn is_digit_char(c: char) -> bool {
    48 <= c as int && c as int <= 57
}

/// The numeric value of a decimal digit character.
pub open spec fn digit_val(c: char) -> int {
    c as int - 48
}

/// The longest prefix of `s` made of decimal digits.
pub open spec fn leading_digits(s: Seq<char>) -> Seq<char>
    decreases s.len(),
{
    if s.len() == 0 || !is_digit_char(s[0]) {
        Seq::empty()
    } else {
        seq![s[0]] + leading_digits(s.skip(1))
    }
}

/// The first maximal run of decimal digits in `s`; empty when `s`
/// holds no digit.
pub open spec fn digit_run_of(s: Seq<char>) -> Seq<char>
    decreases s.len(),
{
    if s.len() == 0 {
        Seq::empty()
    } else if is_digit_char(s[0]) {
        leading_digits(s)
    } else {
        digit_run_of(s.skip(1))
    }
}

/// The value of a digit string read in base ten; 0 when empty.
pub open spec fn dec_val(s: Seq<char>) -> int
    decreases s.len(),
{
    if s.len() == 0 {
        0
    } else {
        dec_val(s.drop_last()) * 10 + digit_val(s.last())
    }
}

/// The stat encoded by a piece of status text: the value of its first
/// digit run when that fits an 8-bit unsigned integer, and 0 when the
/// text holds no digits or the value is out of range.
pub open spec fn stat_of(s: Seq<char>) -> u8 {
    let run = digit_run_of(s);
    if run.len() == 0 || dec_val(run) > 255 {
        0u8
    } else {
        dec_val(run) as u8
    }
}

/// The total count encoded by a count node's text: defined only for a
/// non-empty all-digit string whose value fits in `u32`.
pub open spec fn count_of_text(s: Seq<char>) -> Option<u32> {
    if s.len() > 0 && (forall|i: int| 0 <= i < s.len() ==> is_digit_char(s[i])) && dec_val(s)
        <= u32::MAX {
        Some(dec_val(s) as u32)
    } else {
        None
    }
}

/// `needle` occurs contiguously somewhere in `hay`.
pub open spec fn contains_substr(hay: Seq<char>, needle: Seq<char>) -> bool {
    exists|i: int|
        0 <= i && i + needle.len() <= hay.len() && #[trigger] hay.subrange(
            i,
            i + needle.len() as int,
        ) == needle
}

/// The part of `s` before the first occurrence of `stop`; all of `s`
/// when `stop` does not occur.
pub open spec fn prefix_before(s: Seq<char>, stop: char) -> Seq<char>
    decreases s.len(),
{
    if s.len() == 0 || s[0] == stop {
        Seq::empty()
    } else {
        seq![s[0]] + prefix_before(s.skip(1), stop)
    }
}

proof fn lemma_digit_run_skip(s: Seq<char>, i: int)
    requires
        0 <= i <= s.len(),
        forall|k: int| 0 <= k < i ==> !is_digit_char(s[k]),
    ensures
        digit_run_of(s) == digit_run_of(s.skip(i)),
    decreases i,
{
    if i > 0 {
        assert(s.skip(1).skip(i - 1) =~= s.skip(i));
        lemma_digit_run_skip(s.skip(1), i - 1);
    } else {
        assert(s.skip(0) =~= s);
    }
}

proof fn lemma_leading_digits_range(t: Seq<char>, m: int)
    requires
        0 <= m <= t.len(),
        forall|k: int| 0 <= k < m ==> is_digit_char(t[k]),
        m == t.len() || !is_digit_char(t[m]),
    ensures
        leading_digits(t) == t.subrange(0, m),
    decreases m,
{
    if m == 0 {
        assert(leading_digits(t) =~= t.subrange(0, 0));
    } else {
        lemma_leading_digits_range(t.skip(1), m - 1);
        assert(t.skip(1).subrange(0, m - 1) =~= t.subrange(1, m));
        assert(seq![t[0]] + t.subrange(1, m) =~= t.subrange(0, m));
    }
}

proof fn lemma_digit_run_is_digits(s: Seq<char>)
    ensures
        forall|k: int| 0 <= k < digit_run_of(s).len() ==> is_digit_char(#[trigger] digit_run_of(s)[k]),
    decreases s.len(),
{
    if s.len() > 0 {
        if is_digit_char(s[0]) {
            lemma_leading_is_digits(s);
            assert(digit_run_of(s) == leading_digits(s));
        } else {
            lemma_digit_run_is_digits(s.skip(1));
            assert(digit_run_of(s) == digit_run_of(s.skip(1)));
        }
    }
}

proof fn lemma_leading_is_digits(s: Seq<char>)
    ensures
        forall|k: int|
            0 <= k < leading_digits(s).len() ==> is_digit_char(#[trigger] leading_digits(s)[k]),
    decreases s.len(),
{
    if s.len() > 0 && is_digit_char(s[0]) {
        lemma_leading_is_digits(s.skip(1));
        let l = leading_digits(s);
        assert forall|k: int| 0 <= k < l.len() implies is_digit_char(l[k]) by {
            if k > 0 {
                assert(l[k] == leading_digits(s.skip(1))[k - 1]);
            }
        }
    }
}

/// The first run of digits of `value`, as text: `"HP 7"` gives
/// `"7"`, text without digits gives the empty string.
pub fn extract_number_from_str(value: &str) -> (r: String)
    ensures
        r@ == digit_run_of(value@),
{
    let n = value.unicode_len();
    let mut i: usize = 0;
    while i < n && !is_digit(value.get_char(i))
        invariant
            i <= n,
            n == value@.len(),
            forall|k: int| 0 <= k < i ==> !is_digit_char(value@[k]),
        decreases n - i,
    {
        i = i + 1;
    }
    let mut j: usize = i;
    while j < n && is_digit(value.get_char(j))
        invariant
            i <= j <= n,
            n == value@.len(),
            forall|k: int| i <= k < j ==> is_digit_char(value@[k]),
        decreases n - j,
    {
        j = j + 1;
    }
    proof {
        lemma_digit_run_skip(value@, i as int);
        let t = value@.skip(i as int);
        if i < n {
            lemma_leading_digits_range(t, j - i);
            assert(t.subrange(0, j - i) =~= value@.subrange(i as int, j as int));
        } else {
            assert(digit_run_of(t) =~= value@.subrange(i as int, j as int));
        }
    }
    value.substring_char(i, j).to_owned()
}

fn is_digit(c: char) -> (r: bool)
    ensures
        r == is_digit_char(c),
{
    let u = c as u32;
    48 <= u && u <= 57
}

/// The stat value of a piece of status text; out-of-range or missing
/// numbers give 0, never a failure.
pub fn parse_stat(value: &str) -> (r: u8)
    ensures
        r == stat_of(value@),
{
    let digits = extract_number_from_str(value);
    let run = digits.as_str();
    let n = run.unicode_len();
    if n == 0 {
        return 0;
    }
    proof {
        lemma_digit_run_is_digits(value@);
    }
    let mut acc: u32 = 0;
    let mut k: usize = 0;
    while k < n
        invariant
            k <= n,
            n == run@.len(),
            run@ == digit_run_of(value@),
            forall|t: int| 0 <= t < n ==> is_digit_char(#[trigger] run@[t]),
            acc <= 255 ==> acc == dec_val(run@.take(k as int)),
            acc > 255 ==> acc == 256 && dec_val(run@.take(k as int)) > 255,
        decreases n - k,
    {
        let c = run.get_char(k);
        let d = (c as u32) - 48;
        proof {
            assert(run@.take(k + 1).drop_last() =~= run@.take(k as int));
            assert(run@.take(k + 1).last() == run@[k as int]);
        }
        if acc <= 255 {
            acc = acc * 10 + d;
            if acc > 255 {
                acc = 256;
            }
        }
        k = k + 1;
    }
    proof {
        assert(run@.take(n as int) =~= run@);
    }
    if acc > 255 {
        0
    } else {
        acc as u8
    }
}

/// The `u32` named by an all-digit count text, or `None` for empty,
/// non-numeric or out-of-range text.
pub fn parse_count(value: &str) -> (r: Option<u32>)
    ensures
        r == count_of_text(value@),
{
    let n = value.unicode_len();
    if n == 0 {
        return None;
    }
    let mut acc: u64 = 0;
    let mut k: usize = 0;
    while k < n
        invariant
            k <= n,
            n == value@.len(),
            forall|t: int| 0 <= t < k ==> is_digit_char(#[trigger] value@[t]),
            acc <= u32::MAX ==> acc == dec_val(value@.take(k as int)),
            acc > u32::MAX ==> acc == 0x1_0000_0000 && dec_val(value@.take(k as int)) > u32::MAX,
        decreases n - k,
    {
        let c = value.get_char(k);
        let u = c as u32;
        if !(48 <= u && u <= 57) {
            return None;
        }
        let d = (u - 48) as u64;
        proof {
            assert(value@.take(k + 1).drop_last() =~= value@.take(k as int));
            assert(value@.take(k + 1).last() == value@[k as int]);
        }
        if acc <= 0xFFFF_FFFF {
            acc = acc * 10 + d;
            if acc > 0xFFFF_FFFF {
                acc = 0x1_0000_0000;
            }
        }
        k = k + 1;
    }
    proof {
        assert(value@.take(n as int) =~= value@);
    }
    if acc > 0xFFFF_FFFF {
        None
    } else {
        Some(acc as u32)
    }
}

/// Character-for-character equality of two pieces of text.
pub fn str_eq(a: &str, b: &str) -> (r: bool)
    ensures
        r == (a@ == b@),
{
    let n = a.unicode_len();
    if n != b.unicode_len() {
        return false;
    }
    let mut i: usize = 0;
    while i < n
        invariant
            i <= n,
            n == a@.len() == b@.len(),
            forall|k: int| 0 <= k < i ==> a@[k] == b@[k],
        decreases n - i,
    {
        if a.get_char(i) != b.get_char(i) {
            return false;
        }
        i = i + 1;
    }
    proof {
        assert(a@ =~= b@);
    }
    true
}

/// Whether `needle` occurs contiguously in `hay`.
pub fn str_contains(hay: &str, needle: &str) -> (r: bool)
    ensures
        r == contains_substr(hay@, needle@),
{
    let n = hay.unicode_len();
    let m = needle.unicode_len();
    if m > n {
        return false;
    }
    if m == 0 {
        proof {
            assert(hay@.subrange(0, 0 + needle@.len() as int) =~= needle@);
        }
        return true;
    }
    let mut i: usize = 0;
    while i <= n - m
        invariant
            1 <= m <= n,
            i <= n - m + 1,
            n == hay@.len(),
            m == needle@.len(),
            forall|k: int|
                0 <= k < i ==> #[trigger] hay@.subrange(k, k + needle@.len() as int) != needle@,
        decreases n - i,
    {
        let mut j: usize = 0;
        let mut matched = true;
        while j < m
            invariant
                i + m <= n,
                j <= m,
                n == hay@.len(),
                m == needle@.len(),
                matched ==> hay@.subrange(i as int, i + j) =~= needle@.take(j as int),
                !matched ==> hay@.subrange(i as int, i + needle@.len() as int) != needle@,
            decreases m - j,
        {
            if matched {
                if hay.get_char(i + j) != needle.get_char(j) {
                    proof {
                        assert(hay@.subrange(i as int, i + needle@.len() as int)[j as int]
                            != needle@[j as int]);
                    }
                    matched = false;
                } else {
                    proof {
                        assert(hay@.subrange(i as int, i + j + 1) =~= hay@.subrange(
                            i as int,
                            i + j,
                        ).push(hay@[i + j]));
                        assert(needle@.take(j + 1) =~= needle@.take(j as int).push(
                            needle@[j as int],
                        ));
                    }
                }
            }
            j = j + 1;
        }
        if matched {
            proof {
                assert(needle@.take(m as int) =~= needle@);
            }
            return true;
        }
        i = i + 1;
    }
    proof {
        assert(forall|k: int|
            0 <= k && k + needle@.len() <= hay@.len() ==> #[trigger] hay@.subrange(
                k,
                k + needle@.len() as int,
            ) != needle@);
    }
    false
}

proof fn lemma_prefix_before_range(s: Seq<char>, stop: char, i: int)
    requires
        0 <= i <= s.len(),
        forall|k: int| 0 <= k < i ==> s[k] != stop,
        i == s.len() || s[i] == stop,
    ensures
        prefix_before(s, stop) == s.subrange(0, i),
    decreases i,
{
    if i == 0 {
        assert(prefix_before(s, stop) =~= s.subrange(0, 0));
    } else {
        lemma_prefix_before_range(s.skip(1), stop, i - 1);
        assert(s.skip(1).subrange(0, i - 1) =~= s.subrange(1, i));
        assert(seq![s[0]] + s.subrange(1, i) =~= s.subrange(0, i));
    }
}

/// The text of `s` before the first `stop` character; all of `s` when
/// `stop` does not occur.
pub fn take_before(s: &str, stop: char) -> (r: String)
    ensures
        r@ == prefix_before(s@, stop),
{
    let n = s.unicode_len();
    let mut i: usize = 0;
    while i < n && s.get_char(i) != stop
        invariant
            i <= n,
            n == s@.len(),
            forall|k: int| 0 <= k < i ==> s@[k] != stop,
        decreases n - i,
    {
        i = i + 1;
    }
    proof {
        lemma_prefix_before_range(s@, stop, i as int);
    }
    s.substring_char(0, i).to_owned()
}

} // verus!

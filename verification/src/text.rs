//! What the command parser needs of strings: comparing them, cutting them
//! at the first space, and reading decimal numbers.

use vstd::prelude::*;
use vstd::string::*;

verus! {

/// Whether two strings hold the same characters.
pub fn same_text(a: &str, b: &str) -> (same: bool)
    ensures
        same == (a@ == b@),
{
    let n: usize = a.unicode_len();
    if n != b.unicode_len() {
        return false;
    }
    let mut i: usize = 0;
    while i < n
        invariant
            i <= n,
            n == a@.len(),
            n == b@.len(),
            a@.take(i as int) == b@.take(i as int),
        decreases n - i,
    {
        if a.get_char(i) != b.get_char(i) {
            return false;
        }
        assert(a@.take(i + 1) =~= a@.take(i as int).push(a@[i as int]));
        assert(b@.take(i + 1) =~= b@.take(i as int).push(b@[i as int]));
        i = i + 1;
    }
    assert(a@.take(n as int) =~= a@);
    assert(b@.take(n as int) =~= b@);
    true
}

/// The first position at or after `from` where `s` holds `mark`, or the
/// length of `s` where it holds none there.
pub open spec fn first_index_from(s: Seq<char>, mark: char, from: int) -> int
    decreases s.len() - from,
{
    if from < 0 || from >= s.len() {
        s.len() as int
    } else if s[from] == mark {
        from
    } else {
        first_index_from(s, mark, from + 1)
    }
}

/// The first position where `s` holds `mark`, or the length of `s` where
/// it holds none.
pub open spec fn first_index(s: Seq<char>, mark: char) -> int {
    first_index_from(s, mark, 0)
}

/// What comes before the first `mark` in `s`: all of `s` where it holds
/// none.
pub open spec fn before_first(s: Seq<char>, mark: char) -> Seq<char> {
    s.take(first_index(s, mark))
}

/// What comes after the first `mark` in `s`: nothing where it holds none.
pub open spec fn after_first(s: Seq<char>, mark: char) -> Seq<char> {
    if first_index(s, mark) < s.len() {
        s.skip(first_index(s, mark) + 1)
    } else {
        Seq::empty()
    }
}

/// `first_index_from` finds a `mark`, and there is none between `from`
/// and what it finds.
pub proof fn lemma_first_index_from(s: Seq<char>, mark: char, from: int)
    requires
        0 <= from <= s.len(),
    ensures
        from <= first_index_from(s, mark, from) <= s.len(),
        first_index_from(s, mark, from) < s.len() ==> s[first_index_from(s, mark, from)] == mark,
        forall|i: int| from <= i < first_index_from(s, mark, from) ==> s[i] != mark,
    decreases s.len() - from,
{
    if from < s.len() && s[from] != mark {
        lemma_first_index_from(s, mark, from + 1);
    }
}

/// Cuts a string at its first `mark`: what comes before it and what comes
/// after it. A string without the mark is returned whole, with an empty
/// second part.
pub fn split_at_first<'a>(s: &'a str, mark: char) -> (parts: (&'a str, &'a str))
    ensures
        parts.0@ == before_first(s@, mark),
        parts.1@ == after_first(s@, mark),
        !parts.0@.contains(mark),
        s@.contains(mark) ==> s@ == parts.0@ + seq![mark] + parts.1@,
        !s@.contains(mark) ==> parts.0@ == s@ && parts.1@.len() == 0,
{
    let n: usize = s.unicode_len();
    let mut i: usize = 0;
    while i < n && s.get_char(i) != mark
        invariant
            i <= n,
            n == s@.len(),
            first_index_from(s@, mark, i as int) == first_index(s@, mark),
        decreases n - i,
    {
        i = i + 1;
    }
    proof {
        lemma_first_index_from(s@, mark, 0);
        assert(first_index(s@, mark) == i);
    }
    let head = s.substring_char(0, i);
    assert(head@ =~= before_first(s@, mark));
    assert(!head@.contains(mark));
    if i < n {
        let tail = s.substring_char(i + 1, n);
        assert(tail@ =~= after_first(s@, mark));
        assert(s@ =~= head@ + seq![mark] + tail@);
        assert(s@.contains(mark));
        (head, tail)
    } else {
        let tail = s.substring_char(n, n);
        assert(tail@ =~= after_first(s@, mark));
        assert(head@ =~= s@);
        (head, tail)
    }
}

/// Whether a character is one of the ten decimal digits.
pub open spec fn is_digit(c: char) -> bool {
    '0' <= c && c <= '9'
}

/// The number that a decimal digit stands for.
pub open spec fn digit_value(c: char) -> nat {
    (c as u32 - '0' as u32) as nat
}

/// Whether a string holds decimal digits only.
pub open spec fn all_digits(s: Seq<char>) -> bool {
    forall|i: int| 0 <= i < s.len() ==> is_digit(#[trigger] s[i])
}

/// The number that a string of decimal digits writes, zero for the empty
/// string.
pub open spec fn digits_value(s: Seq<char>) -> nat
    decreases s.len(),
{
    if s.len() == 0 {
        0
    } else {
        digits_value(s.drop_last()) * 10 + digit_value(s.last())
    }
}

/// The number that a string of decimal digits writes, but `cap` where the
/// number is greater; `None` where the string holds anything but digits.
pub open spec fn spec_read_digits(s: Seq<char>, cap: u64) -> Option<u64> {
    if all_digits(s) {
        if digits_value(s) <= cap {
            Some(digits_value(s) as u64)
        } else {
            Some(cap)
        }
    } else {
        None
    }
}

/// Reads a string of decimal digits as a number of at most `cap`.
pub fn read_digits(s: &str, cap: u64) -> (number: Option<u64>)
    ensures
        number == spec_read_digits(s@, cap),
{
    let n: usize = s.unicode_len();
    let mut value: u64 = 0;
    let mut i: usize = 0;
    while i < n
        invariant
            i <= n,
            n == s@.len(),
            all_digits(s@.take(i as int)),
            Some(value) == spec_read_digits(s@.take(i as int), cap),
        decreases n - i,
    {
        let c: char = s.get_char(i);
        if c < '0' || c > '9' {
            assert(!is_digit(s@[i as int]));
            return None;
        }
        let digit: u32 = c as u32 - '0' as u32;
        assert(s@.take(i + 1).drop_last() =~= s@.take(i as int));
        assert(s@.take(i + 1).last() == c);
        let next: u128 = value as u128 * 10 + digit as u128;
        value = if next > cap as u128 {
            cap
        } else {
            next as u64
        };
        i = i + 1;
    }
    assert(s@.take(n as int) =~= s@);
    Some(value)
}

/// A string without its leading plus sign, if it has one.
pub open spec fn without_plus(s: Seq<char>) -> Seq<char> {
    if s.len() > 0 && s[0] == '+' {
        s.skip(1)
    } else {
        s
    }
}

/// The number that a string writes in decimal: an optional plus sign, then
/// one digit or more and nothing else. `None` for any other string, and
/// where the number is above `u32::MAX`.
pub open spec fn spec_parse_u32(s: Seq<char>) -> Option<u32> {
    let digits = without_plus(s);
    if digits.len() > 0 && all_digits(digits) && digits_value(digits) <= u32::MAX {
        Some(digits_value(digits) as u32)
    } else {
        None
    }
}

/// Reads a decimal number: an optional plus sign, then one digit or more
/// and nothing else.
pub fn parse_u32(s: &str) -> (number: Option<u32>)
    ensures
        number == spec_parse_u32(s@),
{
    let n: usize = s.unicode_len();
    let digits = if n > 0 && s.get_char(0) == '+' {
        s.substring_char(1, n)
    } else {
        s
    };
    assert(digits@ =~= without_plus(s@));
    if digits.unicode_len() == 0 {
        return None;
    }
    match read_digits(digits, 0x1_0000_0000) {
        Some(value) => if value <= 0xffff_ffff {
            Some(value as u32)
        } else {
            None
        },
        None => None,
    }
}

/// The first six characters of a string that is continued by zeros.
pub open spec fn six_places(s: Seq<char>) -> Seq<char> {
    (s + Seq::new(6, |i: int| '0')).take(6)
}

/// The millionths that a string writes as a decimal numeral: digits, with
/// or without a point among them, and at least one digit. Digits after the
/// sixth place behind the point do not count, and a numeral above
/// `u32::MAX` millionths stands for `u32::MAX`. `None` for any other
/// string.
pub open spec fn spec_parse_millionths(s: Seq<char>) -> Option<u32> {
    let whole = before_first(s, '.');
    let places = after_first(s, '.');
    if whole.len() + places.len() > 0 && all_digits(whole) && all_digits(places) {
        let total = digits_value(whole) * 1_000_000 + digits_value(six_places(places));
        if total <= u32::MAX {
            Some(total as u32)
        } else {
            Some(u32::MAX)
        }
    } else {
        None
    }
}

/// A number that `places` decimal digits stay below, for up to six of
/// them.
spec fn place_bound(places: int) -> int {
    if places <= 0 {
        1
    } else if places == 1 {
        10
    } else if places == 2 {
        100
    } else if places == 3 {
        1_000
    } else if places == 4 {
        10_000
    } else if places == 5 {
        100_000
    } else {
        1_000_000
    }
}

/// The millionths that the digits behind a decimal point write.
fn read_places(places: &str) -> (millionths: u32)
    requires
        all_digits(places@),
    ensures
        millionths == digits_value(six_places(places@)),
        millionths < 1_000_000,
{
    let n: usize = places.unicode_len();
    let ghost padded = six_places(places@);
    let mut value: u32 = 0;
    let mut k: usize = 0;
    while k < 6
        invariant
            k <= 6,
            n == places@.len(),
            all_digits(places@),
            padded == six_places(places@),
            value == digits_value(padded.take(k as int)),
            value < place_bound(k as int),
        decreases 6 - k,
    {
        let digit: u32 = if k < n {
            let c: char = places.get_char(k);
            assert(is_digit(places@[k as int]));
            c as u32 - '0' as u32
        } else {
            0
        };
        assert(padded.take(k + 1).drop_last() =~= padded.take(k as int));
        assert(padded.take(k + 1).last() == padded[k as int]);
        assert(digit == digit_value(padded[k as int]));
        value = value * 10 + digit;
        k = k + 1;
    }
    assert(padded.take(6) =~= padded);
    value
}

/// Reads a decimal numeral as a number of millionths.
pub fn parse_millionths(s: &str) -> (number: Option<u32>)
    ensures
        number == spec_parse_millionths(s@),
{
    let (whole, places) = split_at_first(s, '.');
    if whole.unicode_len() == 0 && places.unicode_len() == 0 {
        return None;
    }
    let units: u64 = match read_digits(whole, 4295) {
        Some(units) => units,
        None => { return None; },
    };
    if read_digits(places, 0).is_none() {
        return None;
    }
    let total: u64 = units * 1_000_000 + read_places(places) as u64;
    if total <= 0xffff_ffff {
        Some(total as u32)
    } else {
        Some(0xffff_ffff)
    }
}

} // verus!

//! Small byte-level scanning primitives shared by the text parsers: digit
//! runs and their numeric values, space runs, and line boundaries.

use vstd::prelude::*;

verus! {

/// True iff `b` is an ASCII decimal digit.
pub open spec fn is_digit(b: u8) -> bool {
    48 <= b && b <= 57
}

/// The length of the maximal run of ASCII digits starting at `i`.
pub open spec fn digit_run_len(s: Seq<u8>, i: int) -> int
    decreases s.len() - i,
{
    if i < 0 || i >= s.len() || !is_digit(s[i]) {
        0
    } else {
        1 + digit_run_len(s, i + 1)
    }
}

/// The length of the maximal run of ASCII spaces starting at `i`.
pub open spec fn space_run_len(s: Seq<u8>, i: int) -> int
    decreases s.len() - i,
{
    if i < 0 || i >= s.len() || s[i] != 32u8 {
        0
    } else {
        1 + space_run_len(s, i + 1)
    }
}

/// The position of the first newline at or after `i`, or the end of the
/// input when the line is unterminated.
pub open spec fn line_end(s: Seq<u8>, i: int) -> int
    decreases s.len() - i,
{
    if i < 0 || i >= s.len() {
        s.len() as int
    } else if s[i] == 10u8 {
        i
    } else {
        line_end(s, i + 1)
    }
}

/// A line's end never precedes its start, nor the input's end.
pub proof fn lemma_line_end_bounds(s: Seq<u8>, i: int)
    requires
        0 <= i <= s.len(),
    ensures
        i <= line_end(s, i) <= s.len(),
    decreases s.len() - i,
{
    if i < s.len() && s[i] != 10u8 {
        lemma_line_end_bounds(s, i + 1);
    }
}

/// A line that ends before the input does ends at a newline.
pub proof fn lemma_line_end_newline(s: Seq<u8>, i: int)
    requires
        0 <= i,
        line_end(s, i) < s.len(),
    ensures
        s[line_end(s, i)] == 10u8,
    decreases s.len() - i,
{
    if i < s.len() && s[i] != 10u8 {
        lemma_line_end_newline(s, i + 1);
    }
}

/// No newline stands strictly inside a line.
pub proof fn lemma_line_interior(s: Seq<u8>, i: int, k: int)
    requires
        0 <= i,
        i <= k < line_end(s, i),
    ensures
        s[k] != 10u8,
    decreases k - i,
{
    if k > i {
        lemma_line_interior(s, i + 1, k);
    }
}

/// The numeric value of a sequence of ASCII digits, most significant first.
pub open spec fn digits_value(s: Seq<u8>) -> int
    decreases s.len(),
{
    if s.len() == 0 {
        0
    } else {
        digits_value(s.drop_last()) * 10 + (s.last() - 48)
    }
}

/// Ten to the `n`th power.
pub open spec fn pow10(n: nat) -> int
    decreases n,
{
    if n == 0 {
        1
    } else {
        10 * pow10((n - 1) as nat)
    }
}

pub proof fn lemma_pow10_positive(n: nat)
    ensures
        pow10(n) >= 1,
    decreases n,
{
    if n > 0 {
        lemma_pow10_positive((n - 1) as nat);
    }
}

pub proof fn lemma_pow10_monotone(a: nat, b: nat)
    requires
        a <= b,
    ensures
        pow10(a) <= pow10(b),
    decreases b,
{
    if a < b {
        lemma_pow10_monotone(a, (b - 1) as nat);
        lemma_pow10_positive((b - 1) as nat);
    }
}

/// Every position inside a maximal digit run holds a digit.
pub proof fn lemma_digit_run_digits(s: Seq<u8>, i: int, k: int)
    requires
        0 <= i,
        i <= k < i + digit_run_len(s, i),
    ensures
        is_digit(s[k]),
    decreases k - i,
{
    if k > i {
        lemma_digit_run_digits(s, i + 1, k);
    }
}

/// A digit string's value is bounded by ten to its length.
pub proof fn lemma_digits_value_bound(s: Seq<u8>)
    requires
        forall|k: int| 0 <= k < s.len() ==> is_digit(#[trigger] s[k]),
    ensures
        0 <= digits_value(s) < pow10(s.len()),
    decreases s.len(),
{
    if s.len() > 0 {
        lemma_digits_value_bound(s.drop_last());
        assert(is_digit(s.last()));
    }
}

/// The length of the maximal digit run starting at `i`.
pub fn slice_digit_run_len(s: &[u8], i: usize) -> (r: usize)
    requires
        i <= s@.len(),
    ensures
        r == digit_run_len(s@, i as int),
        i + r <= s@.len(),
{
    let mut j = i;
    while j < s.len() && s[j] >= 48 && s[j] <= 57
        invariant
            i <= j <= s@.len(),
            digit_run_len(s@, i as int) == j - i + digit_run_len(s@, j as int),
        decreases s@.len() - j,
    {
        j = j + 1;
    }
    j - i
}

/// The length of the maximal space run starting at `i`.
pub fn slice_space_run_len(s: &[u8], i: usize) -> (r: usize)
    requires
        i <= s@.len(),
    ensures
        r == space_run_len(s@, i as int),
        i + r <= s@.len(),
{
    let mut j = i;
    while j < s.len() && s[j] == 32
        invariant
            i <= j <= s@.len(),
            space_run_len(s@, i as int) == j - i + space_run_len(s@, j as int),
        decreases s@.len() - j,
    {
        j = j + 1;
    }
    j - i
}

/// The position of the first newline at or after `i`, or the input's end.
pub fn slice_line_end(s: &[u8], i: usize) -> (r: usize)
    requires
        i <= s@.len(),
    ensures
        r == line_end(s@, i as int),
        i <= r <= s@.len(),
{
    let mut j = i;
    while j < s.len() && s[j] != 10
        invariant
            i <= j <= s@.len(),
            line_end(s@, i as int) == line_end(s@, j as int),
        decreases s@.len() - j,
    {
        j = j + 1;
    }
    j
}

/// The numeric value of the digits in `s[start..end]`, which fits in `u32`
/// because at most nine digits are accepted.
pub fn parse_digits_u32(s: &[u8], start: usize, end: usize) -> (r: u32)
    requires
        start <= end <= s@.len(),
        end - start <= 9,
        forall|k: int| start <= k < end ==> is_digit(#[trigger] s@[k]),
    ensures
        r == digits_value(s@.subrange(start as int, end as int)),
{
    let mut acc: u32 = 0;
    let mut j = start;
    proof {
        assert(s@.subrange(start as int, start as int) =~= Seq::<u8>::empty());
    }
    while j < end
        invariant
            start <= j <= end <= s@.len(),
            end - start <= 9,
            forall|k: int| start <= k < end ==> is_digit(#[trigger] s@[k]),
            acc == digits_value(s@.subrange(start as int, j as int)),
            acc < pow10((j - start) as nat),
        decreases end - j,
    {
        proof {
            let prefix = s@.subrange(start as int, j as int);
            let next = s@.subrange(start as int, j + 1 as int);
            assert(next.drop_last() =~= prefix);
            assert(next.last() == s@[j as int]);
            lemma_pow10_monotone((j - start) as nat, 8);
            assert(pow10(8) == 100000000) by {
                reveal_with_fuel(pow10, 10);
            }
        }
        acc = acc * 10 + ((s[j] - 48) as u32);
        j = j + 1;
    }
    acc
}

} // verus!

//! Character-level text helpers: string comparison, decimal formatting and
//! decimal parsing, shared by the command builder, the collector and the
//! report machinery.

use vstd::prelude::*;

verus! {

/// Relies on `str::chars` and `Iterator::collect`: the characters of a
/// string slice, in order, as a vector.
#[verifier::external_body]
pub fn str_to_chars(s: &str) -> (r: Vec<char>)
    ensures
        r@ == s@,
{
    s.chars().collect()
}

/// Relies on `Iterator::collect` for `String`: the string holding exactly
/// the given characters, in order.
#[verifier::external_body]
pub fn chars_to_string(v: &Vec<char>) -> (r: String)
    ensures
        r@ == v@,
{
    v.iter().collect()
}

/// Character-wise equality of two string slices.
pub fn str_eq(a: &str, b: &str) -> (r: bool)
    ensures
        r == (a@ == b@),
{
    let a_len = a.unicode_len();
    let b_len = b.unicode_len();
    if a_len != b_len {
        assert(a@ != b@);
        return false;
    }
    let mut i: usize = 0;
    while i < a_len
        invariant
            a_len == a@.len(),
            b_len == b@.len(),
            a_len == b_len,
            i <= a_len,
            forall|j: int| 0 <= j < i ==> a@[j] == b@[j],
        decreases a_len - i,
    {
        if a.get_char(i) != b.get_char(i) {
            return false;
        }
        i = i + 1;
    }
    assert(a@ =~= b@);
    true
}

/// The decimal digits of `n`, most significant first.
pub open spec fn spec_decimal(n: nat) -> Seq<char>
    decreases n,
{
    if n < 10 {
        seq![spec_digit_char(n)]
    } else {
        spec_decimal(n / 10).push(spec_digit_char(n % 10))
    }
}

/// As `spec_decimal`, except that zero has no digits; the shape the
/// formatting loop maintains.
spec fn spec_decimal_or_empty(n: nat) -> Seq<char>
    decreases n,
{
    if n == 0 {
        Seq::empty()
    } else {
        spec_decimal_or_empty(n / 10).push(spec_digit_char(n % 10))
    }
}

proof fn lemma_decimal_positive(n: nat)
    requires
        n > 0,
    ensures
        spec_decimal(n) == spec_decimal_or_empty(n),
    decreases n,
{
    if n < 10 {
        assert(spec_decimal_or_empty(0) =~= Seq::<char>::empty());
        assert(spec_decimal_or_empty(n) =~= seq![spec_digit_char(n)]);
    } else {
        lemma_decimal_positive(n / 10);
    }
}

/// The character standing for one decimal digit.
pub open spec fn spec_digit_char(d: nat) -> char {
    if d == 0 {
        '0'
    } else if d == 1 {
        '1'
    } else if d == 2 {
        '2'
    } else if d == 3 {
        '3'
    } else if d == 4 {
        '4'
    } else if d == 5 {
        '5'
    } else if d == 6 {
        '6'
    } else if d == 7 {
        '7'
    } else if d == 8 {
        '8'
    } else {
        '9'
    }
}

fn digit_char(d: u64) -> (r: char)
    requires
        d < 10,
    ensures
        r == spec_digit_char(d as nat),
{
    match d {
        0 => '0',
        1 => '1',
        2 => '2',
        3 => '3',
        4 => '4',
        5 => '5',
        6 => '6',
        7 => '7',
        8 => '8',
        _ => '9',
    }
}

/// Decimal renderings are never empty and hold digits alone.
pub proof fn lemma_decimal_digits(n: nat)
    ensures
        spec_decimal(n).len() > 0,
        forall|i: int| 0 <= i < spec_decimal(n).len() ==> #[trigger] spec_is_digit(
            spec_decimal(n)[i],
        ),
    decreases n,
{
    if n < 10 {
    } else {
        lemma_decimal_digits(n / 10);
        assert(forall|i: int|
            0 <= i < spec_decimal(n).len() ==> spec_decimal(n)[i] == if i < spec_decimal(
                n / 10,
            ).len() {
                spec_decimal(n / 10)[i]
            } else {
                spec_digit_char(n % 10)
            });
    }
}

/// ASCII whitespace, the only whitespace the counter files contain.
pub open spec fn spec_is_space(c: char) -> bool {
    c == ' ' || c == '\t' || c == '\n' || c == '\r'
}

fn is_space(c: char) -> (r: bool)
    ensures
        r == spec_is_space(c),
{
    c == ' ' || c == '\t' || c == '\n' || c == '\r'
}

pub open spec fn spec_is_digit(c: char) -> bool {
    '0' <= c <= '9'
}

fn is_digit(c: char) -> (r: bool)
    ensures
        r == spec_is_digit(c),
{
    '0' <= c && c <= '9'
}

pub open spec fn spec_digit_val(c: char) -> nat {
    (c as nat - '0' as nat) as nat
}

fn digit_val(c: char) -> (r: u64)
    requires
        spec_is_digit(c),
    ensures
        r == spec_digit_val(c),
{
    (c as u32 - '0' as u32) as u64
}

/// The number a digit sequence denotes, most significant digit first.
pub open spec fn spec_digits_value(s: Seq<char>) -> nat
    decreases s.len(),
{
    if s.len() == 0 {
        0
    } else {
        spec_digits_value(s.drop_last()) * 10 + spec_digit_val(s.last())
    }
}

/// The sequence without its leading and trailing ASCII whitespace.
pub open spec fn spec_trim(s: Seq<char>) -> Seq<char>
    decreases s.len(),
{
    if s.len() > 0 && spec_is_space(s[0]) {
        spec_trim(s.skip(1))
    } else if s.len() > 0 && spec_is_space(s.last()) {
        spec_trim(s.drop_last())
    } else {
        s
    }
}

/// The digit part a counter text must consist of: the trimmed text, less
/// one optional leading plus sign.
pub open spec fn spec_counter_digits(s: Seq<char>) -> Seq<char> {
    let t = spec_trim(s);
    if t.len() > 0 && t[0] == '+' {
        t.skip(1)
    } else {
        t
    }
}

/// What a counter pseudo-file's text counts for: its decimal value when the
/// trimmed text is a well-formed `u64`, and zero on any malformed text.
pub open spec fn spec_counter_value(s: Seq<char>) -> u64 {
    let d = spec_counter_digits(s);
    if d.len() > 0 && (forall|i: int| 0 <= i < d.len() ==> spec_is_digit(d[i]))
        && spec_digits_value(d) <= u64::MAX {
        spec_digits_value(d) as u64
    } else {
        0
    }
}

proof fn lemma_digits_value_grows(s: Seq<char>, i: int)
    requires
        0 <= i <= s.len(),
    ensures
        spec_digits_value(s.take(i)) <= spec_digits_value(s),
    decreases s.len() - i,
{
    if i == s.len() {
        assert(s.take(i) =~= s);
    } else {
        lemma_digits_value_grows(s, i + 1);
        assert(s.take(i + 1).drop_last() =~= s.take(i));
        assert(spec_digits_value(s.take(i + 1)) == spec_digits_value(s.take(i)) * 10
            + spec_digit_val(s.take(i + 1).last()));
    }
}

/// Parses the text of one counter pseudo-file: trims whitespace, then reads
/// a decimal `u64`; any malformed or overflowing text counts as zero.
pub fn parse_counter_text(s: &str) -> (r: u64)
    ensures
        r == spec_counter_value(s@),
{
    let chars = str_to_chars(s);
    let n = chars.len();
    proof {
        assert(chars@.skip(0) =~= chars@);
    }
    let mut start: usize = 0;
    while start < n && is_space(chars[start])
        invariant
            n == chars@.len(),
            start <= n,
            spec_trim(s@) == spec_trim(chars@.skip(start as int)),
        decreases n - start,
    {
        proof {
            assert(chars@.skip(start as int).skip(1) =~= chars@.skip(start as int + 1));
        }
        start = start + 1;
    }
    let mut end: usize = n;
    while end > start && is_space(chars[end - 1])
        invariant
            n == chars@.len(),
            start <= end <= n,
            start < n ==> !spec_is_space(chars@[start as int]),
            spec_trim(s@) == spec_trim(chars@.subrange(start as int, end as int)),
        decreases end,
    {
        proof {
            let cur = chars@.subrange(start as int, end as int);
            assert(cur.drop_last() =~= chars@.subrange(start as int, end as int - 1));
        }
        end = end - 1;
    }
    proof {
        let t = chars@.subrange(start as int, end as int);
        assert(spec_trim(t) =~= t);
    }
    let ghost trimmed = chars@.subrange(start as int, end as int);
    let mut i: usize = start;
    if i < end && chars[i] == '+' {
        i = i + 1;
        proof {
            assert(trimmed.skip(1) =~= chars@.subrange(start as int + 1, end as int));
        }
    }
    let ghost digits = chars@.subrange(i as int, end as int);
    proof {
        assert(spec_counter_digits(s@) =~= digits);
    }
    if i == end {
        return 0;
    }
    let digits_start = i;
    let mut value: u64 = 0;
    proof {
        assert(digits.take(0) =~= Seq::<char>::empty());
    }
    while i < end
        invariant
            n == chars@.len(),
            digits_start <= i <= end <= n,
            digits == chars@.subrange(digits_start as int, end as int),
            digits == spec_counter_digits(s@),
            forall|j: int| digits_start <= j < i ==> spec_is_digit(chars@[j]),
            value == spec_digits_value(digits.take(i - digits_start)),
        decreases end - i,
    {
        let c = chars[i];
        if !is_digit(c) {
            proof {
                assert(digits[i - digits_start] == chars@[i as int]);
                assert(!spec_is_digit(digits[i - digits_start]));
            }
            return 0;
        }
        let d = digit_val(c);
        if value > (u64::MAX - d) / 10 {
            proof {
                let pre = digits.take(i + 1 - digits_start);
                assert(pre.drop_last() =~= digits.take(i - digits_start));
                assert(pre.last() == chars@[i as int]);
                assert(spec_digits_value(pre) == value * 10 + d);
                assert(value * 10 + d > u64::MAX) by (nonlinear_arith)
                    requires
                        value > (u64::MAX - d) / 10,
                        d < 10,
                ;
                lemma_digits_value_grows(digits, i + 1 - digits_start);
            }
            return 0;
        }
        proof {
            assert(value * 10 + d <= u64::MAX) by (nonlinear_arith)
                requires
                    value <= (u64::MAX - d) / 10,
                    d < 10,
            ;
            let pre = digits.take(i + 1 - digits_start);
            assert(pre.drop_last() =~= digits.take(i - digits_start));
            assert(pre.last() == chars@[i as int]);
        }
        value = value * 10 + d;
        i = i + 1;
    }
    proof {
        assert(digits.take(end - digits_start) =~= digits);
        assert(forall|j: int| 0 <= j < digits.len() ==> digits[j] == chars@[j + digits_start]);
    }
    value
}

/// The digit part of a `u32` text: the text less one optional leading
/// plus sign.
pub open spec fn spec_u32_digits(s: Seq<char>) -> Seq<char> {
    if s.len() > 0 && s[0] == '+' {
        s.skip(1)
    } else {
        s
    }
}

/// What a digit string denotes as a `u32`: its value when the text is one
/// optional plus sign and then digits that fit; nothing otherwise.
pub open spec fn spec_parse_u32(s: Seq<char>) -> Option<u32> {
    let d = spec_u32_digits(s);
    if d.len() > 0 && (forall|i: int| 0 <= i < d.len() ==> spec_is_digit(d[i]))
        && spec_digits_value(d) <= u32::MAX {
        Some(spec_digits_value(d) as u32)
    } else {
        None
    }
}

/// Parses a decimal `u32` exactly: no surrounding whitespace is accepted,
/// and malformed or overflowing text yields nothing.
pub fn parse_u32(s: &str) -> (r: Option<u32>)
    ensures
        r == spec_parse_u32(s@),
{
    let chars = str_to_chars(s);
    let n = chars.len();
    let mut i: usize = 0;
    if i < n && chars[i] == '+' {
        i = i + 1;
        proof {
            assert(chars@.skip(1) =~= chars@.subrange(1, n as int));
        }
    }
    let ghost digits = chars@.subrange(i as int, n as int);
    proof {
        assert(chars@.subrange(0, n as int) =~= chars@);
        assert(spec_u32_digits(s@) =~= digits);
    }
    if i == n {
        return None;
    }
    let digits_start = i;
    let mut value: u32 = 0;
    proof {
        assert(digits.take(0) =~= Seq::<char>::empty());
    }
    while i < n
        invariant
            n == chars@.len(),
            digits_start <= i <= n,
            digits == chars@.subrange(digits_start as int, n as int),
            digits == spec_u32_digits(s@),
            forall|j: int| digits_start <= j < i ==> spec_is_digit(chars@[j]),
            value == spec_digits_value(digits.take(i - digits_start)),
        decreases n - i,
    {
        let c = chars[i];
        if !is_digit(c) {
            proof {
                assert(digits[i - digits_start] == chars@[i as int]);
                assert(!spec_is_digit(digits[i - digits_start]));
            }
            return None;
        }
        let d = digit_val(c) as u32;
        if value > (u32::MAX - d) / 10 {
            proof {
                let pre = digits.take(i + 1 - digits_start);
                assert(pre.drop_last() =~= digits.take(i - digits_start));
                assert(pre.last() == chars@[i as int]);
                assert(spec_digits_value(pre) == value * 10 + d);
                assert(value * 10 + d > u32::MAX) by (nonlinear_arith)
                    requires
                        value > (u32::MAX - d) / 10,
                        d < 10,
                ;
                lemma_digits_value_grows(digits, i + 1 - digits_start);
            }
            return None;
        }
        proof {
            assert(value * 10 + d <= u32::MAX) by (nonlinear_arith)
                requires
                    value <= (u32::MAX - d) / 10,
                    d < 10,
            ;
            let pre = digits.take(i + 1 - digits_start);
            assert(pre.drop_last() =~= digits.take(i - digits_start));
            assert(pre.last() == chars@[i as int]);
        }
        value = value * 10 + d;
        i = i + 1;
    }
    proof {
        assert(digits.take(n - digits_start) =~= digits);
        assert(forall|j: int| 0 <= j < digits.len() ==> digits[j] == chars@[j + digits_start]);
    }
    Some(value)
}

/// Formats `n` in decimal, without sign, padding or separators.
pub fn u64_to_string(n: u64) -> (r: String)
    ensures
        r@ == spec_decimal(n as nat),
{
    let mut rev: Vec<char> = Vec::new();
    let mut rest: u64 = n;
    loop
        invariant_except_break
            spec_decimal_or_empty(n as nat) == spec_decimal_or_empty(rest as nat)
                + rev@.reverse(),
            rest == 0 ==> n == 0,
        ensures
            spec_decimal(n as nat) == rev@.reverse(),
        decreases rest,
    {
        let ghost prev_rev = rev@;
        let ghost prev_rest = rest as nat;
        rev.push(digit_char(rest % 10));
        proof {
            assert(rev@.reverse() =~= seq![spec_digit_char(prev_rest % 10)] + prev_rev.reverse());
        }
        rest = rest / 10;
        if rest == 0 {
            proof {
                if n == 0 {
                    assert(prev_rev.reverse() =~= Seq::<char>::empty());
                    assert(rev@.reverse() =~= seq![spec_digit_char(0)]);
                } else {
                    lemma_decimal_positive(n as nat);
                    assert(spec_decimal_or_empty(0) =~= Seq::<char>::empty());
                    assert(spec_decimal_or_empty(prev_rest) =~= seq![
                        spec_digit_char(prev_rest % 10),
                    ]);
                    assert(spec_decimal_or_empty(n as nat) =~= rev@.reverse());
                }
            }
            break;
        }
        proof {
            assert(spec_decimal_or_empty(prev_rest / 10) + rev@.reverse()
                =~= spec_decimal_or_empty(prev_rest) + prev_rev.reverse());
        }
    }
    let mut out: Vec<char> = Vec::new();
    let mut i: usize = rev.len();
    while i > 0
        invariant
            i <= rev@.len(),
            out@ == rev@.subrange(i as int, rev@.len() as int).reverse(),
        decreases i,
    {
        let ghost prev_out = out@;
        i = i - 1;
        out.push(rev[i]);
        proof {
            assert(out@ =~= rev@.subrange(i as int, rev@.len() as int).reverse());
        }
    }
    proof {
        assert(rev@.subrange(0, rev@.len() as int) =~= rev@);
    }
    chars_to_string(&out)
}

} // verus!

//! Fixed-precision monetary values. The canonical representation of a price
//! is its amount in cents (two decimal fraction digits), held in a `u64`.
//! Number text coming from a feed is parsed into cents; cents are rendered
//! back to decimal text for wire frames.
use vstd::prelude::*;

verus! {

/// Largest count of integer digits the parser accepts; it keeps every
/// accepted amount, converted to cents, inside `u64`.
pub const MAX_INT_DIGITS: usize = 17;

pub open spec fn is_digit(b: u8) -> bool {
    48 <= b && b <= 57
}

/// Numeric value of one ASCII digit byte.
pub open spec fn digit_val(b: u8) -> nat
    recommends
        is_digit(b),
{
    (b - 48) as nat
}

pub open spec fn all_digits(s: Seq<u8>) -> bool {
    forall|i: int| 0 <= i < s.len() ==> is_digit(#[trigger] s[i])
}

/// The number written by a sequence of ASCII digits, most significant first.
pub open spec fn digits_value(s: Seq<u8>) -> nat
    decreases s.len(),
{
    if s.len() == 0 {
        0
    } else {
        digits_value(s.drop_last()) * 10 + digit_val(s.last())
    }
}

pub open spec fn pow10(n: nat) -> nat
    decreases n,
{
    if n == 0 {
        1
    } else {
        10 * pow10((n - 1) as nat)
    }
}

/// Index of the first `.` in `s`, or `s.len()` if there is none.
pub open spec fn first_dot(s: Seq<u8>) -> int
    decreases s.len(),
{
    if s.len() == 0 {
        0
    } else if s[0] == 46 {
        0
    } else {
        1 + first_dot(s.subrange(1, s.len() as int))
    }
}

/// Cents contributed by the fraction digits: the first two count, further
/// digits are truncated.
pub open spec fn frac_cents(f: Seq<u8>) -> nat {
    if f.len() == 0 {
        0
    } else if f.len() == 1 {
        digit_val(f[0]) * 10
    } else {
        digit_val(f[0]) * 10 + digit_val(f[1])
    }
}

/// The canonical reading of decimal number text as cents: `65000.50` reads
/// as `6500050`. Accepted forms are `digits` and `digits.digits`, with at
/// most `MAX_INT_DIGITS` integer digits; fraction digits beyond the first
/// two are truncated.
pub open spec fn cents_of_text(s: Seq<u8>) -> Option<u64> {
    let d = first_dot(s);
    if d == s.len() {
        if 1 <= s.len() && s.len() <= MAX_INT_DIGITS && all_digits(s) {
            Some((digits_value(s) * 100) as u64)
        } else {
            None
        }
    } else {
        let ip = s.subrange(0, d);
        let fp = s.subrange(d + 1, s.len() as int);
        if 1 <= ip.len() && ip.len() <= MAX_INT_DIGITS && 1 <= fp.len() && all_digits(ip)
            && all_digits(fp) {
            Some((digits_value(ip) * 100 + frac_cents(fp)) as u64)
        } else {
            None
        }
    }
}

proof fn lemma_first_dot_props(s: Seq<u8>)
    ensures
        0 <= first_dot(s) <= s.len(),
        forall|j: int| 0 <= j < first_dot(s) ==> s[j] != 46,
        first_dot(s) < s.len() ==> s[first_dot(s)] == 46,
    decreases s.len(),
{
    if s.len() == 0 {
    } else if s[0] == 46 {
    } else {
        let t = s.subrange(1, s.len() as int);
        lemma_first_dot_props(t);
        assert forall|j: int| 0 <= j < first_dot(s) implies s[j] != 46 by {
            if j > 0 {
                assert(t[j - 1] == s[j]);
            }
        }
        if first_dot(s) < s.len() {
            assert(t[first_dot(t)] == s[first_dot(s)]);
        }
    }
}

/// The first dot's index is pinned by what the scan observes: no dot
/// strictly before `i`, and either `i` is the length or a dot stands at `i`.
proof fn lemma_first_dot_is(s: Seq<u8>, i: int)
    requires
        0 <= i <= s.len(),
        forall|j: int| 0 <= j < i ==> s[j] != 46,
        i < s.len() ==> s[i] == 46,
    ensures
        first_dot(s) == i,
{
    lemma_first_dot_props(s);
    let d = first_dot(s);
    if d < i {
        assert(s[d] != 46);
        assert(s[d] == 46);
    } else if i < d {
        assert(s[i] != 46);
    }
}

/// Reading one more digit multiplies the prefix value by ten and adds it.
proof fn lemma_digits_value_step(s: Seq<u8>, j: int)
    requires
        0 <= j < s.len(),
    ensures
        digits_value(s.take(j + 1)) == digits_value(s.take(j)) * 10 + digit_val(s[j]),
{
    assert(s.take(j + 1).drop_last() =~= s.take(j));
    assert(s.take(j + 1).last() == s[j]);
}

/// A digit string of length `n` writes a number below `pow10(n)`.
proof fn lemma_digits_value_bound(s: Seq<u8>)
    requires
        all_digits(s),
    ensures
        digits_value(s) < pow10(s.len()),
    decreases s.len(),
{
    if s.len() == 0 {
    } else {
        let t = s.drop_last();
        assert(all_digits(t)) by {
            assert(forall|i: int| 0 <= i < t.len() ==> t[i] == s[i]);
        }
        lemma_digits_value_bound(t);
        assert(is_digit(s.last()));
        assert(digit_val(s.last()) <= 9);
        assert(digits_value(t) * 10 <= (pow10(t.len()) - 1) * 10) by (nonlinear_arith)
            requires
                digits_value(t) < pow10(t.len());
    }
}

proof fn lemma_pow10_17()
    ensures
        pow10(17) == 0x16345785d8a0000,
{
    reveal_with_fuel(pow10, 18);
}

/// Whether every byte of `text[start..end)` is an ASCII digit.
fn all_digits_in(text: &[u8], start: usize, end: usize) -> (r: bool)
    requires
        start <= end <= text@.len(),
    ensures
        r == all_digits(text@.subrange(start as int, end as int)),
{
    let ghost sub = text@.subrange(start as int, end as int);
    let mut i: usize = start;
    while i < end
        invariant
            start <= i <= end <= text@.len(),
            sub == text@.subrange(start as int, end as int),
            forall|j: int| 0 <= j < i - start ==> is_digit(#[trigger] sub[j]),
        decreases end - i,
    {
        let b = text[i];
        assert(sub[i - start] == b);
        if b < 48 || b > 57 {
            return false;
        }
        i += 1;
    }
    true
}

/// Value of the digit string `text[start..end)`; the caller has checked that
/// the bytes are digits and the range is short enough to fit.
fn digits_value_in(text: &[u8], start: usize, end: usize) -> (r: u64)
    requires
        start <= end <= text@.len(),
        end - start <= MAX_INT_DIGITS,
        all_digits(text@.subrange(start as int, end as int)),
    ensures
        r as nat == digits_value(text@.subrange(start as int, end as int)),
{
    let ghost sub = text@.subrange(start as int, end as int);
    let mut acc: u64 = 0;
    let mut i: usize = start;
    proof {
        lemma_pow10_17();
        assert(sub.take(0) =~= Seq::<u8>::empty());
    }
    while i < end
        invariant
            start <= i <= end <= text@.len(),
            end - start <= MAX_INT_DIGITS,
            sub == text@.subrange(start as int, end as int),
            all_digits(sub),
            acc as nat == digits_value(sub.take(i - start)),
            pow10(17) == 0x16345785d8a0000,
        decreases end - i,
    {
        let b = text[i];
        assert(sub[i - start] == b);
        proof {
            let j = i - start;
            lemma_digits_value_bound(sub.take(j));
            assert(sub.take(j).len() == j);
            assert(pow10(sub.take(j).len() as nat) <= pow10(17)) by {
                lemma_pow10_monotone(sub.take(j).len() as nat, 17);
            }
            assert(acc as nat * 10 <= (pow10(17) - 1) * 10) by (nonlinear_arith)
                requires
                    acc as nat <= pow10(17) - 1;
            lemma_digits_value_step(sub, j);
        }
        acc = acc * 10 + ((b - 48) as u64);
        i += 1;
    }
    assert(sub.take(end - start) =~= sub);
    acc
}

proof fn lemma_pow10_monotone(a: nat, b: nat)
    requires
        a <= b,
    ensures
        pow10(a) <= pow10(b),
    decreases b,
{
    if a < b {
        lemma_pow10_monotone(a, (b - 1) as nat);
        assert(pow10(b) == 10 * pow10((b - 1) as nat));
    }
}

/// Parses decimal number text into cents, exactly as `cents_of_text` reads
/// it; `None` on any text outside the accepted forms.
pub fn parse_price_cents(text: &[u8]) -> (r: Option<u64>)
    ensures
        r == cents_of_text(text@),
{
    let n = text.len();
    // find the first dot
    let mut i: usize = 0;
    while i < n && text[i] != 46
        invariant
            0 <= i <= n,
            n == text@.len(),
            forall|j: int| 0 <= j < i ==> text@[j] != 46,
        decreases n - i,
    {
        i += 1;
    }
    proof {
        lemma_first_dot_is(text@, i as int);
    }
    let dot = i;
    if dot == n {
        // no fraction: the whole text is the integer part
        if n < 1 || n > MAX_INT_DIGITS {
            return None;
        }
        if !all_digits_in(text, 0, n) {
            assert(text@.subrange(0, n as int) =~= text@);
            return None;
        }
        let v = digits_value_in(text, 0, n);
        assert(text@.subrange(0, n as int) =~= text@);
        proof {
            lemma_digits_value_bound(text@);
            lemma_pow10_monotone(text@.len() as nat, 17);
            lemma_pow10_17();
        }
        return Some(v * 100);
    }
    // integer part [0, dot), fraction part [dot + 1, n)
    if dot < 1 || dot > MAX_INT_DIGITS || dot + 1 >= n {
        return None;
    }
    let ghost ip = text@.subrange(0, dot as int);
    let ghost fp = text@.subrange(dot as int + 1, n as int);
    if !all_digits_in(text, 0, dot) {
        return None;
    }
    if !all_digits_in(text, dot + 1, n) {
        return None;
    }
    let v = digits_value_in(text, 0, dot);
    proof {
        lemma_digits_value_bound(ip);
        lemma_pow10_monotone(ip.len() as nat, 17);
        lemma_pow10_17();
    }
    let d1 = text[dot + 1];
    assert(fp[0] == d1);
    let fc: u64 = if dot + 2 < n {
        let d2 = text[dot + 2];
        assert(fp[1] == d2);
        ((d1 - 48) as u64) * 10 + ((d2 - 48) as u64)
    } else {
        assert(fp.len() == 1);
        ((d1 - 48) as u64) * 10
    };
    assert(fc as nat == frac_cents(fp));
    proof {
        assert(v as nat * 100 + 99 < 0x16345785d8a0000 * 100) by (nonlinear_arith)
            requires
                (v as nat) < 0x16345785d8a0000;
    }
    Some(v * 100 + fc)
}

/// The character that writes one decimal digit.
pub open spec fn digit_char(d: nat) -> char
    recommends
        d < 10,
{
    if d == 0 {
        '0'
    } else if d == 1 {
        '1'
    } else if d == 2 {
        '2'
    } else if d == 3 {
        '3'
    } else if d == 4 {
        '4'
    } else if d == 5 {
        '5'
    } else if d == 6 {
        '6'
    } else if d == 7 {
        '7'
    } else if d == 8 {
        '8'
    } else {
        '9'
    }
}

/// The decimal digits of `n`, most significant first, no leading zeros
/// (except for `n == 0`, written `0`).
pub open spec fn dec_digits(n: nat) -> Seq<char>
    decreases n,
{
    if n < 10 {
        seq![digit_char(n)]
    } else {
        dec_digits(n / 10).push(digit_char(n % 10))
    }
}

/// The canonical text of an amount in cents: integer digits, a dot, exactly
/// two fraction digits (`6500050` is written `65000.50`).
pub open spec fn cents_text(c: nat) -> Seq<char> {
    dec_digits(c / 100) + seq!['.'] + seq![digit_char((c / 10) % 10), digit_char(c % 10)]
}

/// The one-character string for one digit value.
fn digit_str(d: u64) -> (r: &'static str)
    requires
        d < 10,
    ensures
        r@ == seq![digit_char(d as nat)],
{
    proof {
        reveal_strlit("0");
        reveal_strlit("1");
        reveal_strlit("2");
        reveal_strlit("3");
        reveal_strlit("4");
        reveal_strlit("5");
        reveal_strlit("6");
        reveal_strlit("7");
        reveal_strlit("8");
        reveal_strlit("9");
    }
    let r = if d == 0 {
        "0"
    } else if d == 1 {
        "1"
    } else if d == 2 {
        "2"
    } else if d == 3 {
        "3"
    } else if d == 4 {
        "4"
    } else if d == 5 {
        "5"
    } else if d == 6 {
        "6"
    } else if d == 7 {
        "7"
    } else if d == 8 {
        "8"
    } else {
        "9"
    };
    assert(r@ =~= seq![digit_char(d as nat)]);
    r
}

/// Appends the decimal digits of `n` to `out`.
pub fn push_u64_digits(n: u64, out: &mut String)
    ensures
        final(out)@ == old(out)@ + dec_digits(n as nat),
    decreases n,
{
    if n >= 10 {
        push_u64_digits(n / 10, out);
        let d = digit_str(n % 10);
        out.append(d);
        assert(out@ =~= old(out)@ + dec_digits(n as nat));
    } else {
        let d = digit_str(n);
        out.append(d);
        assert(out@ =~= old(out)@ + dec_digits(n as nat));
    }
}

/// The decimal text of `n`.
pub fn render_u64(n: u64) -> (r: String)
    ensures
        r@ == dec_digits(n as nat),
{
    let mut s = String::new();
    push_u64_digits(n, &mut s);
    assert(s@ =~= dec_digits(n as nat));
    s
}

/// The canonical decimal text of an amount in cents.
pub fn render_cents(c: u64) -> (r: String)
    ensures
        r@ == cents_text(c as nat),
{
    proof {
        reveal_strlit(".");
    }
    let mut s = String::new();
    push_u64_digits(c / 100, &mut s);
    s.append(".");
    let d1 = digit_str((c / 10) % 10);
    s.append(d1);
    let d0 = digit_str(c % 10);
    s.append(d0);
    assert(s@ =~= cents_text(c as nat));
    s
}

} // verus!

//! Decimal text of unsigned integers: formatting (plain and zero-padded,
//! as `{}` and `{:0w}` print them) and parsing (as `str::parse::<u16>`
//! accepts it).

use vstd::prelude::*;

use crate::text::push_char;

verus! {

/// The character that writes the decimal digit `d` (for `d < 10`).
pub open spec fn digit_char(d: nat) -> char {
    (48 + d) as char
}

/// Whether `c` is an ASCII decimal digit.
pub open spec fn is_digit(c: char) -> bool {
    48 <= (c as int) && (c as int) <= 57
}

/// The value of a decimal digit character.
pub open spec fn digit_value(c: char) -> nat {
    ((c as int) - 48) as nat
}

/// Every character of `s` is a decimal digit.
pub open spec fn all_digits(s: Seq<char>) -> bool {
    forall|i: int| 0 <= i < s.len() ==> is_digit(#[trigger] s[i])
}

/// The decimal text of `n`, without leading zeros.
pub open spec fn decimal(n: nat) -> Seq<char>
    decreases n,
{
    if n < 10 {
        seq![digit_char(n)]
    } else {
        decimal(n / 10).push(digit_char(n % 10))
    }
}

/// The decimal text of `n`, padded on the left with `'0'` to at least
/// `width` characters.
pub open spec fn zero_padded(n: nat, width: nat) -> Seq<char> {
    let d = decimal(n);
    if d.len() >= width {
        d
    } else {
        Seq::new((width - d.len()) as nat, |i: int| '0') + d
    }
}

/// The number that a sequence of digits denotes.
pub open spec fn digits_value(s: Seq<char>) -> nat
    decreases s.len(),
{
    if s.len() == 0 {
        0
    } else {
        digits_value(s.drop_last()) * 10 + digit_value(s.last())
    }
}

/// The digits of `s` after an optional leading `+`.
pub open spec fn unsigned_body(s: Seq<char>) -> Seq<char> {
    if s.len() > 0 && s[0] == '+' {
        s.drop_first()
    } else {
        s
    }
}

/// What `str::parse::<u16>` gives for `s`: an optional `+`, then one or
/// more decimal digits whose value is at most `u16::MAX`.
pub open spec fn parse_u16_spec(s: Seq<char>) -> Option<u16> {
    let body = unsigned_body(s);
    if body.len() > 0 && all_digits(body) && digits_value(body) <= u16::MAX {
        Some(digits_value(body) as u16)
    } else {
        None
    }
}

proof fn lemma_digit_char(d: nat)
    requires
        d < 10,
    ensures
        digit_value(digit_char(d)) == d,
        is_digit(digit_char(d)),
        digit_char(d) != '+',
{
    assert((48 + d) as char as int == 48 + d);
}

proof fn lemma_decimal_facts(n: nat)
    ensures
        decimal(n).len() >= 1,
        all_digits(decimal(n)),
        digits_value(decimal(n)) == n,
        decimal(n)[0] != '+',
    decreases n,
{
    if n < 10 {
        lemma_digit_char(n);
        assert(decimal(n).drop_last() =~= Seq::<char>::empty());
        assert(digits_value(decimal(n)) == digits_value(decimal(n).drop_last()) * 10 + digit_value(decimal(n).last()));
    } else {
        lemma_digit_char(n % 10);
        lemma_decimal_facts(n / 10);
        let d = decimal(n);
        assert(d.drop_last() =~= decimal(n / 10));
        assert(d[0] == decimal(n / 10)[0]);
        assert(d.last() == digit_char(n % 10));
        assert(n == (n / 10) * 10 + n % 10) by (nonlinear_arith);
        assert(digits_value(d) == digits_value(decimal(n / 10)) * 10 + digit_value(d.last()));
    }
}

proof fn lemma_zeros_value(k: nat, s: Seq<char>)
    ensures
        digits_value(Seq::new(k, |i: int| '0') + s) == digits_value(s),
    decreases s.len(),
{
    let z = Seq::new(k, |i: int| '0');
    if s.len() == 0 {
        lemma_zeros_value_only(k);
        assert(z + s =~= z);
    } else {
        lemma_zeros_value(k, s.drop_last());
        assert((z + s).drop_last() =~= z + s.drop_last());
    }
}

proof fn lemma_zeros_value_only(k: nat)
    ensures
        digits_value(Seq::new(k, |i: int| '0')) == 0,
    decreases k,
{
    if k > 0 {
        lemma_zeros_value_only((k - 1) as nat);
        assert(Seq::new(k, |i: int| '0').drop_last() =~= Seq::new((k - 1) as nat, |i: int| '0'));
    }
}

/// A prefix of a run of digits denotes no more than the whole run.
proof fn lemma_prefix_value_le(s: Seq<char>, k: int)
    requires
        0 <= k <= s.len(),
    ensures
        digits_value(s.subrange(0, k)) <= digits_value(s),
    decreases s.len(),
{
    if k < s.len() {
        lemma_prefix_value_le(s.drop_last(), k);
        assert(s.drop_last().subrange(0, k) =~= s.subrange(0, k));
    } else {
        assert(s.subrange(0, k) =~= s);
    }
}

/// Extending a prefix by one character adds one decimal place.
proof fn lemma_prefix_value_step(s: Seq<char>, i: int)
    requires
        0 <= i < s.len(),
    ensures
        digits_value(s.subrange(0, i + 1)) == digits_value(s.subrange(0, i)) * 10 + digit_value(s[i]),
{
    assert(s.subrange(0, i + 1).drop_last() =~= s.subrange(0, i));
}

/// Formatting then parsing gives the number back: for every `n` that fits
/// in a `u16`, the text that `format_u64` writes for it parses to `n`.
pub proof fn law_parse_of_decimal(n: u16)
    ensures
        parse_u16_spec(decimal(n as nat)) == Some(n),
{
    lemma_decimal_facts(n as nat);
    assert(unsigned_body(decimal(n as nat)) == decimal(n as nat));
}

/// What a port text may look like: leading zeros and a leading `+` are
/// accepted, a sign `-`, an empty text and any character that is not a
/// digit (but for one leading `+`) are refused.
pub proof fn law_parse_u16_forms(s: Seq<char>, k: nat, n: u16)
    ensures
        parse_u16_spec(Seq::new(k, |i: int| '0') + decimal(n as nat)) == Some(n),
        parse_u16_spec(seq!['+'] + decimal(n as nat)) == Some(n),
        parse_u16_spec(seq!['-'] + decimal(n as nat)) is None,
        parse_u16_spec(Seq::<char>::empty()) is None,
        (exists|i: int| 0 <= i < s.len() && !is_digit(#[trigger] s[i]) && !(i == 0 && s[i] == '+'))
            ==> parse_u16_spec(s) is None,
{
    lemma_decimal_facts(n as nat);
    let d = decimal(n as nat);
    let z = Seq::new(k, |i: int| '0') + d;
    lemma_zeros_value(k, d);
    assert forall|i: int| 0 <= i < z.len() implies is_digit(#[trigger] z[i]) by {
        if i >= k {
            assert(z[i] == d[i - k]);
        }
    }
    assert(z.len() > 0);
    assert(!is_digit('+'));
    if k > 0 {
        assert(z[0] == '0');
    } else {
        assert(z[0] == d[0]);
    }
    assert(unsigned_body(z) == z);
    assert(unsigned_body(seq!['+'] + d) =~= d);
    assert((seq!['-'] + d)[0] == '-');
    assert(!is_digit('-'));
    assert(unsigned_body(seq!['-'] + d) == seq!['-'] + d);
    if exists|i: int| 0 <= i < s.len() && !is_digit(#[trigger] s[i]) && !(i == 0 && s[i] == '+') {
        let i = choose|i: int| 0 <= i < s.len() && !is_digit(#[trigger] s[i]) && !(i == 0 && s[i] == '+');
        let b = unsigned_body(s);
        if s.len() > 0 && s[0] == '+' {
            assert(b[i - 1] == s[i]);
        } else {
            assert(b[i] == s[i]);
        }
    }
}

/// Zero padding keeps the number: the padded text of `n` denotes `n`,
/// is made of digits only, is at least `width` long and ends with the
/// plain decimal text of `n`.
pub proof fn law_zero_padded_value(n: nat, width: nat)
    ensures
        digits_value(zero_padded(n, width)) == n,
        all_digits(zero_padded(n, width)),
        zero_padded(n, width).len() >= width,
        zero_padded(n, width).len() >= decimal(n).len(),
        zero_padded(n, width).subrange(
            zero_padded(n, width).len() - decimal(n).len(),
            zero_padded(n, width).len() as int,
        ) == decimal(n),
{
    lemma_decimal_facts(n);
    let d = decimal(n);
    if d.len() < width {
        let k = (width - d.len()) as nat;
        lemma_zeros_value(k, d);
        let p = zero_padded(n, width);
        assert(p.subrange(p.len() - d.len(), p.len() as int) =~= d);
        assert forall|i: int| 0 <= i < p.len() implies is_digit(#[trigger] p[i]) by {
            if i >= k {
                assert(p[i] == d[i - k]);
            }
        }
    } else {
        assert(d.subrange(0, d.len() as int) =~= d);
    }
}

fn digit_to_char(d: u64) -> (c: char)
    requires
        d < 10,
    ensures
        c == digit_char(d as nat),
{
    let b: u8 = 48u8 + (d as u8);
    b as char
}

/// Appends the decimal text of `n` to `s`.
pub fn push_decimal(s: &mut String, n: u64)
    ensures
        final(s)@ == old(s)@ + decimal(n as nat),
    decreases n,
{
    let ghost s0 = s@;
    if n >= 10 {
        push_decimal(s, n / 10);
    }
    push_char(s, digit_to_char(n % 10));
    assert(s@ =~= s0 + decimal(n as nat));
}

spec fn tenpow(k: nat) -> nat
    decreases k,
{
    if k == 0 {
        1
    } else {
        10 * tenpow((k - 1) as nat)
    }
}

proof fn lemma_decimal_len_bound(n: nat, k: nat)
    requires
        k >= 1,
        n < tenpow(k),
    ensures
        decimal(n).len() <= k,
    decreases n,
{
    if n >= 10 {
        assert(decimal(n).len() == decimal(n / 10).len() + 1);
        if k == 1 {
            assert(tenpow(1) == 10 * tenpow(0));
        } else {
            assert(tenpow(k) == 10 * tenpow((k - 1) as nat));
            assert(n / 10 < tenpow((k - 1) as nat));
            lemma_decimal_len_bound(n / 10, (k - 1) as nat);
        }
    }
}

/// The number of characters in the decimal text of `n`.
pub fn decimal_len(n: u64) -> (len: usize)
    ensures
        len == decimal(n as nat).len(),
        1 <= len <= 20,
    decreases n,
{
    proof {
        reveal_with_fuel(tenpow, 21);
        assert(tenpow(20) == 100_000_000_000_000_000_000nat);
        lemma_decimal_len_bound(n as nat, 20);
    }
    if n < 10 {
        1
    } else {
        let r = decimal_len(n / 10);
        assert(decimal(n as nat).len() == decimal((n / 10) as nat).len() + 1);
        r + 1
    }
}

/// The decimal text of `n`, as `format!("{}", n)` writes it.
pub fn format_u64(n: u64) -> (s: String)
    ensures
        s@ == decimal(n as nat),
{
    let mut s = String::new();
    push_decimal(&mut s, n);
    assert(s@ =~= decimal(n as nat));
    s
}

/// The decimal text of `n` padded with leading `'0'` to at least `width`
/// characters, as `format!("{:0width$}", n)` writes it.
pub fn format_u64_padded(n: u64, width: usize) -> (s: String)
    ensures
        s@ == zero_padded(n as nat, width as nat),
{
    let mut s = String::new();
    let len = decimal_len(n);
    if len < width {
        let k = width - len;
        let mut i: usize = 0;
        while i < k
            invariant
                i <= k,
                s@ =~= Seq::new(i as nat, |j: int| '0'),
            decreases k - i,
        {
            push_char(&mut s, '0');
            i = i + 1;
        }
    }
    push_decimal(&mut s, n);
    assert(s@ =~= zero_padded(n as nat, width as nat));
    s
}

/// Parses `text` as `str::parse::<u16>` does.
pub fn parse_u16(text: &str) -> (r: Option<u16>)
    ensures
        r == parse_u16_spec(text@),
{
    let n = text.unicode_len();
    let mut i: usize = 0;
    if n > 0 && text.get_char(0) == '+' {
        i = 1;
    }
    let start = i;
    let ghost body = text@.subrange(start as int, n as int);
    assert(body =~= unsigned_body(text@));
    if start == n {
        return None;
    }
    let mut v: u32 = 0;
    assert(body.subrange(0, 0) =~= Seq::<char>::empty());
    while i < n
        invariant
            start <= i <= n,
            n == text@.len(),
            start < n,
            body == text@.subrange(start as int, n as int),
            body == unsigned_body(text@),
            all_digits(body.subrange(0, i - start)),
            v == digits_value(body.subrange(0, i - start)),
            v <= 65535,
        decreases n - i,
    {
        let c = text.get_char(i);
        let code = c as u32;
        assert(body[i - start] == c);
        if code < 48 || code > 57 {
            assert(!is_digit(body[i - start]));
            return None;
        }
        proof {
            lemma_prefix_value_step(body, i - start);
            assert(all_digits(body.subrange(0, i - start + 1))) by {
                assert forall|j: int| 0 <= j < i - start + 1 implies is_digit(
                    #[trigger] body.subrange(0, i - start + 1)[j],
                ) by {
                    if j < i - start {
                        assert(body.subrange(0, i - start + 1)[j] == body.subrange(0, i - start)[j]);
                    }
                }
            }
        }
        v = v * 10 + (code - 48);
        if v > 65535 {
            proof {
                if all_digits(body) {
                    lemma_prefix_value_le(body, i - start + 1);
                }
            }
            return None;
        }
        i = i + 1;
    }
    assert(body.subrange(0, n - start) =~= body);
    Some(v as u16)
}

/// Two runs of digits of the same length with the same value are the same.
pub proof fn lemma_digits_injective(s: Seq<char>, t: Seq<char>)
    requires
        s.len() == t.len(),
        all_digits(s),
        all_digits(t),
        digits_value(s) == digits_value(t),
    ensures
        s == t,
    decreases s.len(),
{
    if s.len() > 0 {
        let c = s.last();
        let d = t.last();
        assert(is_digit(s[s.len() - 1]) && is_digit(t[t.len() - 1]));
        assert(all_digits(s.drop_last()) && all_digits(t.drop_last())) by {
            assert forall|i: int| 0 <= i < s.len() - 1 implies is_digit(#[trigger] s.drop_last()[i])
                && is_digit(t.drop_last()[i]) by {
                assert(is_digit(s[i]) && is_digit(t[i]));
            }
        }
        assert(digit_value(c) == digit_value(d));
        lemma_digits_injective(s.drop_last(), t.drop_last());
        assert(s =~= s.drop_last().push(c));
        assert(t =~= t.drop_last().push(d));
    } else {
        assert(s =~= t);
    }
}

/// Of two runs of digits of the same length, the one with the smaller
/// value is the smaller text: at the first place where they differ, its
/// digit is the smaller one.
pub proof fn lemma_digits_order(s: Seq<char>, t: Seq<char>) -> (i: int)
    requires
        s.len() == t.len(),
        all_digits(s),
        all_digits(t),
        digits_value(s) < digits_value(t),
    ensures
        0 <= i < s.len(),
        s.subrange(0, i) == t.subrange(0, i),
        (s[i] as int) < (t[i] as int),
    decreases s.len(),
{
    let n = s.len() as int;
    assert(n > 0);
    let s1 = s.drop_last();
    let t1 = t.drop_last();
    assert(all_digits(s1) && all_digits(t1)) by {
        assert forall|j: int| 0 <= j < n - 1 implies is_digit(#[trigger] s1[j]) && is_digit(t1[j]) by {
            assert(is_digit(s[j]) && is_digit(t[j]));
        }
    }
    assert(is_digit(s[n - 1]) && is_digit(t[n - 1]));
    if digits_value(s1) < digits_value(t1) {
        let j = lemma_digits_order(s1, t1);
        assert(s.subrange(0, j) =~= s1.subrange(0, j));
        assert(t.subrange(0, j) =~= t1.subrange(0, j));
        j
    } else if digits_value(s1) == digits_value(t1) {
        lemma_digits_injective(s1, t1);
        assert(s.subrange(0, n - 1) =~= s1);
        assert(t.subrange(0, n - 1) =~= t1);
        n - 1
    } else {
        assert(false);
        0
    }
}

/// Below a million, the six-place zero-padded text of a number is exactly
/// six digits long.
pub proof fn lemma_six_places(n: nat)
    requires
        n < 1_000_000,
    ensures
        zero_padded(n, 6).len() == 6,
{
    reveal_with_fuel(tenpow, 7);
    assert(tenpow(6) == 1_000_000);
    lemma_decimal_len_bound(n, 6);
}

} // verus!

//! Non-negative decimal numbers as the supply reads and writes them:
//! ASCII digits with at most one decimal point.
use vstd::prelude::*;

verus! {

/// A non-negative decimal number: `mantissa` scaled down by `scale` decimal
/// places, so `Decimal { mantissa: 1205, scale: 2 }` is 12.05.
#[derive(Debug, Clone, Copy, PartialEq, Eq, Structural)]
pub struct Decimal {
    /// The digits of the number, read as an integer.
    pub mantissa: u64,
    /// How many of those digits stand after the decimal point.
    pub scale: usize,
}

/// The ASCII code of `.`.
pub const POINT: u8 = 46;

/// An ASCII decimal digit.
pub open spec fn is_digit(b: u8) -> bool {
    48 <= b <= 57
}

/// How many decimal points `s` holds.
pub open spec fn point_count(s: Seq<u8>) -> nat
    decreases s.len(),
{
    if s.len() == 0 {
        0
    } else {
        point_count(s.drop_last()) + if s.last() == POINT {
            1nat
        } else {
            0nat
        }
    }
}

/// The integer that the digits of `s` spell, decimal points skipped.
pub open spec fn digits_value(s: Seq<u8>) -> nat
    decreases s.len(),
{
    if s.len() == 0 {
        0
    } else if s.last() == POINT {
        digits_value(s.drop_last())
    } else {
        digits_value(s.drop_last()) * 10 + (s.last() - 48) as nat
    }
}

/// How many characters of `s` follow its first decimal point (0 without one).
pub open spec fn fraction_len(s: Seq<u8>) -> nat
    decreases s.len(),
{
    if s.len() == 0 || s.last() == POINT {
        0
    } else if point_count(s.drop_last()) > 0 {
        fraction_len(s.drop_last()) + 1
    } else {
        0
    }
}

/// `s` is digits with at most one decimal point, and at least one digit.
pub open spec fn is_decimal_text(s: Seq<u8>) -> bool {
    &&& forall|i: int| 0 <= i < s.len() ==> is_digit(#[trigger] s[i]) || s[i] == POINT
    &&& point_count(s) <= 1
    &&& point_count(s) < s.len()
}

/// The number that `s` spells, where it is decimal text whose digits fit a
/// `u64`.
pub open spec fn parse_decimal(s: Seq<u8>) -> Option<Decimal> {
    if is_decimal_text(s) && digits_value(s) <= u64::MAX {
        Some(Decimal { mantissa: digits_value(s) as u64, scale: fraction_len(s) as usize })
    } else {
        None
    }
}

proof fn lemma_prefix_step(s: Seq<u8>, i: int)
    requires
        0 <= i < s.len(),
    ensures
        s.take(i + 1).drop_last() == s.take(i),
        s.take(i + 1).last() == s[i],
{
    assert(s.take(i + 1).drop_last() =~= s.take(i));
}

proof fn lemma_prefix_monotone(s: Seq<u8>, i: int)
    requires
        0 <= i <= s.len(),
    ensures
        point_count(s.take(i)) <= point_count(s),
        digits_value(s.take(i)) <= digits_value(s),
        point_count(s.take(i)) <= i,
        fraction_len(s.take(i)) <= i,
    decreases s.len() - i,
{
    lemma_counts_bounded(s.take(i));
    if i < s.len() {
        lemma_prefix_step(s, i);
        lemma_prefix_monotone(s, i + 1);
    } else {
        assert(s.take(i) =~= s);
    }
}

proof fn lemma_counts_bounded(s: Seq<u8>)
    ensures
        point_count(s) <= s.len(),
        fraction_len(s) <= s.len(),
    decreases s.len(),
{
    if s.len() > 0 {
        lemma_counts_bounded(s.drop_last());
    }
}

impl Decimal {
    /// A number from its digits and its count of decimal places.
    pub fn new(mantissa: u64, scale: usize) -> (r: Decimal)
        ensures
            r == (Decimal { mantissa, scale }),
    {
        Decimal { mantissa, scale }
    }

    /// Reads ASCII decimal text: digits with at most one decimal point and
    /// at least one digit. `None` where `text` is anything else, or where
    /// its digits do not fit a `u64`.
    pub fn parse(text: &[u8]) -> (r: Option<Decimal>)
        ensures
            r == parse_decimal(text@),
    {
        let n = text.len();
        let mut mantissa: u64 = 0;
        let mut points: usize = 0;
        let mut scale: usize = 0;
        let mut i: usize = 0;
        while i < n
            invariant
                n == text@.len(),
                0 <= i <= n,
                forall|j: int| 0 <= j < i ==> is_digit(#[trigger] text@[j]) || text@[j] == POINT,
                points == point_count(text@.take(i as int)),
                points <= 1,
                mantissa == digits_value(text@.take(i as int)),
                scale == fraction_len(text@.take(i as int)),
            decreases n - i,
        {
            let b = text[i];
            proof {
                lemma_prefix_step(text@, i as int);
                lemma_prefix_monotone(text@, i as int + 1);
            }
            if b == POINT {
                if points == 1 {
                    return None;
                }
                points = 1;
            } else if 48 <= b && b <= 57 {
                let d = (b - 48) as u64;
                if mantissa > (u64::MAX - d) / 10 {
                    proof {
                        assert(digits_value(text@.take(i as int + 1)) == mantissa * 10 + d);
                        assert(mantissa * 10 + d > u64::MAX) by (nonlinear_arith)
                            requires
                                mantissa > (u64::MAX - d) / 10,
                                d <= 9,
                        ;
                    }
                    return None;
                }
                mantissa = mantissa * 10 + d;
                if points == 1 {
                    scale = scale + 1;
                }
            } else {
                return None;
            }
            i = i + 1;
        }
        proof {
            assert(text@.take(n as int) =~= text@);
        }
        if points == n {
            return None;
        }
        Some(Decimal { mantissa, scale })
    }
}

/// Ten to the power `e`.
pub open spec fn pow10(e: nat) -> nat
    decreases e,
{
    if e == 0 {
        1
    } else {
        10 * pow10((e - 1) as nat)
    }
}

/// `d` rounded half up to a whole number of units of `10^-places`.
pub open spec fn rounded(d: Decimal, places: nat) -> nat {
    if d.scale <= places {
        d.mantissa as nat * pow10((places - d.scale) as nat)
    } else {
        let unit = pow10((d.scale - places) as nat);
        (d.mantissa as nat + unit / 2) / unit
    }
}

/// The character of decimal digit `d`.
pub open spec fn digit_char(d: nat) -> char {
    ((d + 48) as u8) as char
}

/// `n` written in decimal, with no leading zeros (a lone `0` for zero).
pub open spec fn decimal_text(n: nat) -> Seq<char>
    decreases n,
{
    if n < 10 {
        seq![digit_char(n)]
    } else {
        decimal_text(n / 10) + seq![digit_char(n % 10)]
    }
}

/// The last `width` decimal digits of `n`, zeros in front where `n` has
/// fewer.
pub open spec fn padded_text(n: nat, width: nat) -> Seq<char>
    decreases width,
{
    if width == 0 {
        seq![]
    } else {
        padded_text(n / 10, (width - 1) as nat) + seq![digit_char(n % 10)]
    }
}

/// The number `q` units of `10^-places` written with exactly `places`
/// digits after the point: `fixed_text(312, 2)` is `3.12`.
pub open spec fn fixed_text(q: nat, places: nat) -> Seq<char> {
    decimal_text(q / pow10(places)) + seq!['.'] + padded_text(q % pow10(places), places)
}

/// A decimal digit character.
pub open spec fn is_digit_char(c: char) -> bool {
    48 <= (c as u32) <= 57
}

proof fn lemma_decimal_text_digits(n: nat)
    ensures
        decimal_text(n).len() >= 1,
        forall|i: int| 0 <= i < decimal_text(n).len() ==> is_digit_char(#[trigger] decimal_text(n)[i]),
    decreases n,
{
    if n >= 10 {
        lemma_decimal_text_digits(n / 10);
        assert forall|i: int| 0 <= i < decimal_text(n).len() implies is_digit_char(
            #[trigger] decimal_text(n)[i],
        ) by {
            if i < decimal_text(n / 10).len() {
                assert(decimal_text(n)[i] == decimal_text(n / 10)[i]);
            }
        }
    }
}

proof fn lemma_padded_text_digits(n: nat, width: nat)
    ensures
        padded_text(n, width).len() == width,
        forall|i: int| 0 <= i < width ==> is_digit_char(#[trigger] padded_text(n, width)[i]),
    decreases width,
{
    if width > 0 {
        lemma_padded_text_digits(n / 10, (width - 1) as nat);
        assert forall|i: int| 0 <= i < width implies is_digit_char(
            #[trigger] padded_text(n, width)[i],
        ) by {
            if i < width - 1 {
                assert(padded_text(n, width)[i] == padded_text(n / 10, (width - 1) as nat)[i]);
            }
        }
    }
}

/// A fixed-point text has exactly `places` digits after its point, at least
/// one before it, and nothing but digits around the point.
pub proof fn lemma_fixed_text_shape(q: nat, places: nat)
    ensures
        fixed_text(q, places).len() >= places + 2,
        fixed_text(q, places)[fixed_text(q, places).len() - places - 1] == '.',
        forall|i: int|
            0 <= i < fixed_text(q, places).len() && i != fixed_text(q, places).len() - places - 1
                ==> is_digit_char(#[trigger] fixed_text(q, places)[i]),
{
    lemma_pow10_monotone(0, places);
    let head = decimal_text(q / pow10(places));
    let tail = padded_text(q % pow10(places), places);
    lemma_decimal_text_digits(q / pow10(places));
    lemma_padded_text_digits(q % pow10(places), places);
    let t = fixed_text(q, places);
    assert(t == head + seq!['.'] + tail);
    assert forall|i: int| 0 <= i < t.len() && i != t.len() - places - 1 implies is_digit_char(
        #[trigger] t[i],
    ) by {
        if i < head.len() {
            assert(t[i] == head[i]);
        } else {
            assert(t[i] == tail[i - head.len() - 1]);
        }
    }
}

/// The ASCII bytes of a character sequence.
pub open spec fn ascii_bytes(t: Seq<char>) -> Seq<u8> {
    t.map_values(|c: char| c as u8)
}

proof fn lemma_ascii_bytes_concat(a: Seq<char>, b: Seq<char>)
    ensures
        ascii_bytes(a + b) == ascii_bytes(a) + ascii_bytes(b),
{
    assert(ascii_bytes(a + b) =~= ascii_bytes(a) + ascii_bytes(b));
}

/// Appending digits to a text shifts its digits left and adds theirs; it adds
/// no point, and after a point it lengthens the fraction.
proof fn lemma_append_digits(a: Seq<u8>, b: Seq<u8>)
    requires
        forall|i: int| 0 <= i < b.len() ==> is_digit(#[trigger] b[i]),
    ensures
        digits_value(a + b) == digits_value(a) * pow10(b.len()) + digits_value(b),
        point_count(a + b) == point_count(a),
        point_count(a) > 0 ==> fraction_len(a + b) == fraction_len(a) + b.len(),
    decreases b.len(),
{
    if b.len() == 0 {
        assert(a + b =~= a);
        assert(pow10(0) == 1);
    } else {
        let b1 = b.drop_last();
        let x = b.last();
        assert(is_digit(b[b.len() - 1]));
        assert forall|i: int| 0 <= i < b1.len() implies is_digit(#[trigger] b1[i]) by {
            assert(b1[i] == b[i]);
        }
        lemma_append_digits(a, b1);
        assert((a + b).drop_last() =~= a + b1);
        assert((a + b).last() == x);
        let va = digits_value(a);
        let p1 = pow10(b1.len());
        let v1 = digits_value(b1);
        let d = (x - 48) as nat;
        assert(digits_value(b) == v1 * 10 + d);
        assert(digits_value(a + b) == (va * p1 + v1) * 10 + d);
        assert(pow10(b.len()) == 10 * p1);
        assert((va * p1 + v1) * 10 + d == va * (10 * p1) + (v1 * 10 + d)) by (nonlinear_arith);
    }
}

proof fn lemma_one_digit(d: nat)
    requires
        d < 10,
    ensures
        digits_value(seq![(d + 48) as u8]) == d,
        is_digit((d + 48) as u8),
{
    let b = (d + 48) as u8;
    let s = seq![b];
    assert(b as int == d + 48);
    assert(s.drop_last() =~= Seq::<u8>::empty());
    assert(digits_value(Seq::<u8>::empty()) == 0);
    assert(s.last() == b);
    assert(b != POINT);
    assert(digits_value(s) == digits_value(s.drop_last()) * 10 + (b - 48) as nat);
}

proof fn lemma_decimal_text_bytes(n: nat)
    ensures
        forall|i: int|
            0 <= i < ascii_bytes(decimal_text(n)).len() ==> is_digit(
                #[trigger] ascii_bytes(decimal_text(n))[i],
            ),
        digits_value(ascii_bytes(decimal_text(n))) == n,
        ascii_bytes(decimal_text(n)).len() >= 1,
    decreases n,
{
    let d = n % 10;
    let last = seq![digit_char(d)];
    if n < 10 {
        assert(ascii_bytes(decimal_text(n)) =~= seq![(n + 48) as u8]);
        lemma_one_digit(n);
    } else {
        lemma_decimal_text_bytes(n / 10);
        let prev = ascii_bytes(decimal_text(n / 10));
        let b = (d + 48) as u8;
        assert(decimal_text(n) == decimal_text(n / 10) + last);
        lemma_ascii_bytes_concat(decimal_text(n / 10), last);
        assert(ascii_bytes(last) =~= seq![b]);
        assert(ascii_bytes(decimal_text(n)) == prev + seq![b]);
        lemma_one_digit(d);
        lemma_append_digits(prev, seq![b]);
        reveal_with_fuel(pow10, 2);
        assert(pow10(1) == 10);
        assert(digits_value(prev + seq![b]) == (n / 10) * 10 + d);
        assert forall|i: int| 0 <= i < (prev + seq![b]).len() implies is_digit(
            #[trigger] (prev + seq![b])[i],
        ) by {
            if i < prev.len() {
                assert((prev + seq![b])[i] == prev[i]);
            }
        }
    }
}

proof fn lemma_padded_text_bytes(n: nat, width: nat)
    ensures
        forall|i: int|
            0 <= i < ascii_bytes(padded_text(n, width)).len() ==> is_digit(
                #[trigger] ascii_bytes(padded_text(n, width))[i],
            ),
        digits_value(ascii_bytes(padded_text(n, width))) == n % pow10(width),
        ascii_bytes(padded_text(n, width)).len() == width,
    decreases width,
{
    if width == 0 {
        assert(ascii_bytes(padded_text(n, width)) =~= Seq::<u8>::empty());
    } else {
        let w1 = (width - 1) as nat;
        let d = n % 10;
        lemma_padded_text_bytes(n / 10, w1);
        lemma_ascii_bytes_concat(padded_text(n / 10, w1), seq![digit_char(d)]);
        assert(ascii_bytes(seq![digit_char(d)]) =~= seq![(d + 48) as u8]);
        lemma_append_digits(ascii_bytes(padded_text(n / 10, w1)), seq![(d + 48) as u8]);
        assert(seq![(d + 48) as u8].drop_last() =~= Seq::<u8>::empty());
        lemma_one_digit(d);
        reveal_with_fuel(pow10, 2);
        lemma_pow10_monotone(0, w1);
        let p1 = pow10(w1);
        assert((n / 10) % p1 * 10 + n % 10 == n % (10 * p1)) by {
            vstd::arithmetic::div_mod::lemma_breakdown(n as int, 10, p1 as int);
            vstd::arithmetic::mul::lemma_mul_is_commutative(10, ((n / 10) % p1) as int);
        }
    }
}

/// What the supply is sent is what was meant: a fixed-point text, read back
/// as decimal text, is exactly the number of units it was written from, with
/// `places` decimal places.
pub proof fn lemma_fixed_text_reads_back(q: nat, places: nat)
    requires
        q <= u64::MAX,
        places <= usize::MAX,
    ensures
        parse_decimal(ascii_bytes(fixed_text(q, places))) == Some(
            Decimal { mantissa: q as u64, scale: places as usize },
        ),
{
    lemma_pow10_monotone(0, places);
    let unit = pow10(places);
    let head = decimal_text(q / unit);
    let tail = padded_text(q % unit, places);
    lemma_decimal_text_bytes(q / unit);
    lemma_padded_text_bytes(q % unit, places);
    lemma_ascii_bytes_concat(head + seq!['.'], tail);
    lemma_ascii_bytes_concat(head, seq!['.']);
    assert(ascii_bytes(seq!['.']) =~= seq![POINT]);
    let hb = ascii_bytes(head);
    let tb = ascii_bytes(tail);
    let hp = hb + seq![POINT];
    let all = hp + tb;
    assert(ascii_bytes(fixed_text(q, places)) == all);
    // The head is digits only.
    lemma_append_digits(Seq::<u8>::empty(), hb);
    assert(Seq::<u8>::empty() + hb =~= hb);
    assert(hp.drop_last() =~= hb);
    assert(point_count(hp) == 1);
    assert(digits_value(hp) == q / unit);
    assert(fraction_len(hp) == 0);
    lemma_append_digits(hp, tb);
    assert(tb.len() == places);
    assert(digits_value(tb) == q % unit) by {
        vstd::arithmetic::div_mod::lemma_mod_twice(q as int, unit as int);
    }
    assert(digits_value(all) == digits_value(hp) * unit + digits_value(tb));
    assert(digits_value(all) == (q / unit) * unit + q % unit);
    assert((q / unit) * unit + q % unit == q) by {
        vstd::arithmetic::div_mod::lemma_fundamental_div_mod(q as int, unit as int);
        vstd::arithmetic::mul::lemma_mul_is_commutative(unit as int, (q / unit) as int);
    }
    assert forall|i: int| 0 <= i < all.len() implies is_digit(#[trigger] all[i]) || all[i]
        == POINT by {
        if i < hb.len() {
            assert(all[i] == hb[i]);
        } else if i > hb.len() {
            assert(all[i] == tb[i - hb.len() - 1]);
        }
    }
}

proof fn lemma_pow10_monotone(a: nat, b: nat)
    requires
        a <= b,
    ensures
        1 <= pow10(a) <= pow10(b),
    decreases b,
{
    if b > 0 {
        let c = if a == b {
            (b - 1) as nat
        } else {
            a
        };
        lemma_pow10_monotone(c, (b - 1) as nat);
    }
}

/// Ten to the power `e`, for the exponents a `u128` holds with room to add.
pub(crate) fn pow10_exec(e: usize) -> (r: u128)
    requires
        e <= 19,
    ensures
        r == pow10(e as nat),
        r >= 1,
{
    proof {
        lemma_pow10_monotone(0, e as nat);
        reveal_with_fuel(pow10, 20);
        assert(pow10(19) == 10000000000000000000);
    }
    let mut r: u128 = 1;
    let mut k: usize = 0;
    while k < e
        invariant
            k <= e <= 19,
            r == pow10(k as nat),
            pow10(19) == 10000000000000000000,
        decreases e - k,
    {
        proof {
            lemma_pow10_monotone((k + 1) as nat, 19);
        }
        r = r * 10;
        k = k + 1;
    }
    r
}

impl Decimal {
    /// This number in units of `10^-places`, rounded half up.
    pub fn rounded(&self, places: usize) -> (q: u128)
        requires
            places <= 3,
        ensures
            q == rounded(*self, places as nat),
    {
        if self.scale <= places {
            let f = pow10_exec(places - self.scale);
            proof {
                lemma_pow10_monotone((places - self.scale) as nat, 3);
                reveal_with_fuel(pow10, 4);
                assert(pow10(3) == 1000);
                assert(self.mantissa * f <= u64::MAX * 1000) by (nonlinear_arith)
                    requires
                        f <= 1000,
                ;
            }
            (self.mantissa as u128) * f
        } else if self.scale - places > 19 {
            proof {
                let unit = pow10((self.scale - places) as nat);
                lemma_pow10_monotone(20, (self.scale - places) as nat);
                reveal_with_fuel(pow10, 21);
                assert(pow10(20) == 100000000000000000000);
                assert((self.mantissa as nat + unit / 2) / unit == 0) by (nonlinear_arith)
                    requires
                        unit >= 100000000000000000000,
                        self.mantissa <= u64::MAX,
                ;
            }
            0
        } else {
            let unit = pow10_exec(self.scale - places);
            proof {
                lemma_pow10_monotone((self.scale - places) as nat, 19);
            }
            ((self.mantissa as u128) + unit / 2) / unit
        }
    }
}

} // verus!

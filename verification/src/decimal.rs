//! Exact decimal quantities.
//!
//! Exchanges quote prices and amounts as decimal text such as `"111.06"`. A
//! [`Decimal`] keeps such a quantity exactly, as an integer number of units of
//! `10^-scale`, so that two quotes of one price always compare equal and an
//! amount of zero can be recognised without rounding.
use vstd::prelude::*;
use vstd::string::*;
use vstd::utf8::is_ascii_chars;

verus! {

/// The non-negative quantity `units / 10^scale`.
///
/// A decimal is *canonical* when it carries no trailing fractional zero:
/// every quantity then has exactly one representation. [`Decimal::parse`] and
/// [`Decimal::new`] only return canonical decimals.
#[derive(Clone, Copy, Debug, PartialEq, Eq, Hash, Structural)]
pub struct Decimal {
    pub units: u64,
    pub scale: u32,
}

/// `c` is one of the ten ASCII digits.
pub open spec fn is_digit(c: char) -> bool {
    '0' <= c <= '9'
}

/// Every character of `s` is an ASCII digit.
pub open spec fn all_digits(s: Seq<char>) -> bool {
    forall|i: int| 0 <= i < s.len() ==> is_digit(#[trigger] s[i])
}

/// The number that the digit `c` stands for.
pub open spec fn digit_value(c: char) -> nat {
    (c as nat - '0' as nat) as nat
}

/// The number written by the digits `s`, most significant first; `0` for no digits.
pub open spec fn digits_value(s: Seq<char>) -> nat
    decreases s.len(),
{
    if s.len() == 0 {
        0
    } else {
        digits_value(s.drop_last()) * 10 + digit_value(s.last())
    }
}

/// Position of the first `'.'` in `s`, or `s.len()` when there is none.
pub open spec fn dot_index(s: Seq<char>) -> int
    decreases s.len(),
{
    if s.len() == 0 || s[0] == '.' {
        0
    } else {
        1 + dot_index(s.drop_first())
    }
}

/// What stands before the first `'.'`.
pub open spec fn whole_part(s: Seq<char>) -> Seq<char> {
    s.take(dot_index(s))
}

/// What stands after the first `'.'`; empty when there is no `'.'`.
pub open spec fn fraction_part(s: Seq<char>) -> Seq<char> {
    if dot_index(s) < s.len() {
        s.skip(dot_index(s) + 1)
    } else {
        Seq::empty()
    }
}

/// `s` without its trailing `'0'` characters.
pub open spec fn trim_zeros(s: Seq<char>) -> Seq<char>
    decreases s.len(),
{
    if s.len() > 0 && s.last() == '0' {
        trim_zeros(s.drop_last())
    } else {
        s
    }
}

/// The digits that count: the whole part followed by the fraction without its
/// trailing zeros.
pub open spec fn significant_digits(s: Seq<char>) -> Seq<char> {
    whole_part(s) + trim_zeros(fraction_part(s))
}

/// `s` is plain decimal text: digits, optionally one `'.'` among them, and at
/// least one digit in all. No sign and no exponent.
pub open spec fn is_decimal_text(s: Seq<char>) -> bool {
    &&& all_digits(whole_part(s))
    &&& all_digits(fraction_part(s))
    &&& whole_part(s).len() + fraction_part(s).len() > 0
}

/// The decimal that the text `s` denotes, where it is decimal text whose
/// significant digits fit the representation.
pub open spec fn decimal_of(s: Seq<char>) -> Option<Decimal> {
    if is_decimal_text(s) && digits_value(significant_digits(s)) <= u64::MAX && trim_zeros(
        fraction_part(s),
    ).len() <= u32::MAX {
        Some(
            Decimal {
                units: digits_value(significant_digits(s)) as u64,
                scale: trim_zeros(fraction_part(s)).len() as u32,
            },
        )
    } else {
        None
    }
}

/// The canonical representation of `units / 10^scale`.
pub open spec fn canonical(units: nat, scale: nat) -> (nat, nat)
    decreases scale,
{
    if scale > 0 && units % 10 == 0 {
        canonical(units / 10, (scale - 1) as nat)
    } else {
        (units, scale)
    }
}

/// `10^n`.
pub open spec fn pow10(n: nat) -> nat
    decreases n,
{
    if n == 0 {
        1
    } else {
        10 * pow10((n - 1) as nat)
    }
}

impl Decimal {
    /// No trailing fractional zero is carried.
    pub open spec fn is_canonical(self) -> bool {
        self.scale == 0 || self.units % 10 != 0
    }

    /// The quantity is zero.
    pub open spec fn is_zero_spec(self) -> bool {
        self.units == 0
    }

    /// `self` and `other` denote the same quantity.
    pub open spec fn same_quantity(self, other: Decimal) -> bool {
        self.units * pow10(other.scale as nat) == other.units * pow10(self.scale as nat)
    }

    /// The canonical decimal equal to `units / 10^scale`.
    pub fn new(units: u64, scale: u32) -> (r: Decimal)
        ensures
            (r.units as nat, r.scale as nat) == canonical(units as nat, scale as nat),
            r.is_canonical(),
            r.same_quantity(Decimal { units, scale }),
    {
        proof {
            lemma_canonical_same_quantity(units as nat, scale as nat);
        }
        let mut u: u64 = units;
        let mut s: u32 = scale;
        while s > 0 && u % 10 == 0
            invariant
                canonical(u as nat, s as nat) == canonical(units as nat, scale as nat),
            decreases s,
        {
            u = u / 10;
            s = s - 1;
        }
        Decimal { units: u, scale: s }
    }

    /// The zero quantity.
    pub fn zero() -> (r: Decimal)
        ensures
            r == (Decimal { units: 0, scale: 0 }),
    {
        Decimal { units: 0, scale: 0 }
    }

    /// Whether the quantity is zero.
    #[verifier::when_used_as_spec(is_zero_spec)]
    pub fn is_zero(self) -> (r: bool)
        ensures
            r == self.is_zero_spec(),
    {
        self.units == 0
    }

    /// Reads plain decimal text, such as `"111.06"`, `"57745"` or `"0.500"`.
    ///
    /// Returns `None` for anything else: an empty text, a sign, an exponent,
    /// a second `'.'`, or digits that do not fit the representation.
    pub fn parse(text: &str) -> (r: Option<Decimal>)
        ensures
            r == decimal_of(text@),
            r matches Some(d) ==> d.is_canonical(),
    {
        if !text.is_ascii() {
            proof {
                if is_decimal_text(text@) {
                    lemma_decimal_text_is_ascii(text@);
                }
            }
            return None;
        }
        let bytes = text.as_bytes();
        let n = bytes.len();
        let ghost s = text@;
        proof {
            is_ascii_spec_bytes(text);
            assert(bytes@.len() == s.len());
            assert(forall|i: int| 0 <= i < s.len() ==> bytes@[i] == #[trigger] s[i] as u8);
        }
        // The first '.', if any.
        let mut dot: usize = 0;
        while dot < n && bytes[dot] != 46u8
            invariant
                0 <= dot <= n,
                n == s.len(),
                bytes@.len() == s.len(),
                is_ascii_chars(s),
                forall|i: int| 0 <= i < s.len() ==> bytes@[i] == #[trigger] s[i] as u8,
                forall|j: int| 0 <= j < dot ==> s[j] != '.',
            decreases n - dot,
        {
            dot = dot + 1;
        }
        proof {
            lemma_dot_index(s, dot as int);
        }
        // The end of the fraction once its trailing zeros are dropped.
        let mut end: usize = n;
        while end - dot > 1 && bytes[end - 1] == 48u8
            invariant
                dot <= end <= n,
                dot < n ==> dot + 1 <= end,
                n == s.len(),
                bytes@.len() == s.len(),
                is_ascii_chars(s),
                forall|i: int| 0 <= i < s.len() ==> bytes@[i] == #[trigger] s[i] as u8,
                forall|j: int| end <= j < n ==> s[j] == '0',
            decreases end,
        {
            end = end - 1;
        }
        let ghost whole = whole_part(s);
        let ghost frac = fraction_part(s);
        let ghost kept: Seq<char> = if dot < n {
            s.subrange(dot + 1, end as int)
        } else {
            Seq::empty()
        };
        proof {
            assert(whole == s.take(dot as int));
            if dot < n {
                assert(frac == s.skip(dot + 1));
                assert(kept == frac.take(end - dot - 1));
                lemma_trim_zeros(frac, end - dot - 1);
            } else {
                assert(frac == Seq::<char>::empty());
                assert(trim_zeros(frac) == frac);
            }
            assert(trim_zeros(frac) == kept);
        }
        if n == 0 || (dot == 0 && n == 1) {
            return None;
        }
        // The digits before the '.'.
        let mut units: u64 = 0;
        let mut i: usize = 0;
        while i < dot
            invariant
                0 <= i <= dot <= n,
                n == s.len(),
                bytes@.len() == s.len(),
                is_ascii_chars(s),
                forall|k: int| 0 <= k < s.len() ==> bytes@[k] == #[trigger] s[k] as u8,
                s == text@,
                whole == whole_part(s),
                whole == s.take(dot as int),
                all_digits(s.take(i as int)),
                units == digits_value(s.take(i as int)),
                frac == fraction_part(s),
                trim_zeros(frac) == kept,
            decreases dot - i,
        {
            let b = bytes[i];
            if b < 48u8 || b > 57u8 {
                proof {
                    assert(whole[i as int] == s[i as int]);
                    assert(!is_digit(whole[i as int]));
                }
                return None;
            }
            let d: u64 = (b - 48u8) as u64;
            proof {
                assert(s.take(i + 1).drop_last() == s.take(i as int));
                assert(s.take(i + 1).last() == s[i as int]);
                assert(digit_value(s[i as int]) == d);
                assert(digits_value(s.take(i + 1)) == units * 10 + d);
            }
            if units > (u64::MAX - d) / 10 {
                proof {
                    assert(units * 10 + d > u64::MAX);
                    assert(whole.take(i + 1) == s.take(i + 1));
                    lemma_digits_prefix_le(whole, i + 1);
                    lemma_digits_prefix_le(whole + kept, whole.len() as int);
                    assert((whole + kept).take(whole.len() as int) == whole);
                }
                return None;
            }
            units = units * 10 + d;
            i = i + 1;
        }
        proof {
            assert(s.take(dot as int) == whole);
            assert(whole + Seq::<char>::empty() == whole);
        }
        if dot == n {
            proof {
                assert(kept == Seq::<char>::empty());
                assert(whole + kept == whole);
                assert(all_digits(frac));
            }
            return Some(Decimal { units, scale: 0 });
        }
        // The digits after the '.', up to the trailing zeros.
        let mut j: usize = dot + 1;
        while j < end
            invariant
                dot + 1 <= j <= end <= n,
                n == s.len(),
                bytes@.len() == s.len(),
                is_ascii_chars(s),
                forall|k: int| 0 <= k < s.len() ==> bytes@[k] == #[trigger] s[k] as u8,
                s == text@,
                whole == whole_part(s),
                whole == s.take(dot as int),
                all_digits(whole),
                frac == fraction_part(s),
                trim_zeros(frac) == kept,
                frac == s.skip(dot + 1),
                kept == s.subrange(dot + 1, end as int),
                all_digits(s.subrange(dot + 1, j as int)),
                units == digits_value(whole + s.subrange(dot + 1, j as int)),
            decreases end - j,
        {
            let b = bytes[j];
            if b < 48u8 || b > 57u8 {
                proof {
                    assert(frac[j - dot - 1] == s[j as int]);
                    assert(!is_digit(frac[j - dot - 1]));
                }
                return None;
            }
            let d: u64 = (b - 48u8) as u64;
            proof {
                let longer = whole + s.subrange(dot + 1, j + 1);
                assert(longer.drop_last() == whole + s.subrange(dot + 1, j as int));
                assert(longer.last() == s[j as int]);
                assert(digit_value(s[j as int]) == d);
                assert(digits_value(longer) == units * 10 + d);
            }
            if units > (u64::MAX - d) / 10 {
                proof {
                    let longer = whole + s.subrange(dot + 1, j + 1);
                    assert(units * 10 + d > u64::MAX);
                    assert((whole + kept).take(longer.len() as int) == longer);
                    lemma_digits_prefix_le(whole + kept, longer.len() as int);
                }
                return None;
            }
            units = units * 10 + d;
            j = j + 1;
        }
        proof {
            assert(s.subrange(dot + 1, end as int) == kept);
            assert forall|k: int| 0 <= k < frac.len() implies is_digit(#[trigger] frac[k]) by {
                if k < kept.len() {
                    assert(kept[k] == frac[k]);
                } else {
                    assert(frac[k] == s[k + dot + 1]);
                }
            }
        }
        if end - (dot + 1) > u32::MAX as usize {
            return None;
        }
        let scale: u32 = (end - (dot + 1)) as u32;
        proof {
            lemma_decimal_text_canonical(s);
        }
        Some(Decimal { units, scale })
    }
}

/// `10^(a + b)` is `10^a * 10^b`.
proof fn lemma_pow10_add(a: nat, b: nat)
    ensures
        pow10(a + b) == pow10(a) * pow10(b),
        pow10(a) > 0,
    decreases a,
{
    if a == 0 {
        assert(a + b == b);
        assert(pow10(a) == 1);
        assert(1 * pow10(b) == pow10(b));
    } else {
        let less = (a - 1) as nat;
        lemma_pow10_add(less, b);
        assert((a + b - 1) as nat == less + b);
        assert(pow10(a + b) == 10 * pow10(less + b));
        assert(pow10(a) == 10 * pow10(less));
        let x = pow10(less);
        let y = pow10(b);
        assert(10 * (x * y) == (10 * x) * y) by (nonlinear_arith);
        assert(pow10(a + b) == pow10(a) * pow10(b));
    }
}

/// The canonical representation denotes the quantity that it was made from.
proof fn lemma_canonical_same_quantity(units: nat, scale: nat)
    ensures
        canonical(units, scale).0 * pow10(scale) == units * pow10(canonical(units, scale).1),
        canonical(units, scale).1 <= scale,
        canonical(units, scale).0 <= units,
        canonical(units, scale).1 == 0 || canonical(units, scale).0 % 10 != 0,
    decreases scale,
{
    if scale > 0 && units % 10 == 0 {
        let c = canonical(units / 10, (scale - 1) as nat);
        lemma_canonical_same_quantity(units / 10, (scale - 1) as nat);
        assert(c.0 * pow10(scale) == units * pow10(c.1)) by (nonlinear_arith)
            requires
                c.0 * pow10((scale - 1) as nat) == (units / 10) * pow10(c.1),
                pow10(scale) == 10 * pow10((scale - 1) as nat),
                units == 10 * (units / 10),
        ;
    }
}

/// Two canonical decimals that denote the same quantity are the same decimal:
/// a price has one representation, so that it is found again under whatever
/// spelling the exchange sends it.
pub proof fn lemma_canonical_unique(a: Decimal, b: Decimal)
    requires
        a.is_canonical(),
        b.is_canonical(),
        a.same_quantity(b),
    ensures
        a == b,
    decreases
            (if a.scale <= b.scale {
                0nat
            } else {
                1nat
            }),
{
    if a.scale <= b.scale {
        let k = (b.scale - a.scale) as nat;
        let p = pow10(a.scale as nat);
        lemma_pow10_add(a.scale as nat, k);
        lemma_pow10_add(k, 0);
        assert(pow10(b.scale as nat) == p * pow10(k));
        assert(a.units * pow10(k) == b.units) by (nonlinear_arith)
            requires
                a.units * (p * pow10(k)) == b.units * p,
                p > 0,
        ;
        if k > 0 {
            assert(pow10(k) == 10 * pow10((k - 1) as nat));
            let m = a.units * pow10((k - 1) as nat);
            assert(b.units == 10 * m) by (nonlinear_arith)
                requires
                    b.units == a.units * (10 * pow10((k - 1) as nat)),
                    m == a.units * pow10((k - 1) as nat),
            ;
            assert(b.units % 10 == 0);
        } else {
            assert(pow10(k) == 1);
            assert(a.units * 1 == a.units);
        }
    } else {
        lemma_canonical_unique(b, a);
    }
}

/// Decimal text is ASCII.
proof fn lemma_decimal_text_is_ascii(s: Seq<char>)
    requires
        is_decimal_text(s),
    ensures
        is_ascii_chars(s),
{
    lemma_dot_index_bounds(s);
    let dot = dot_index(s);
    assert forall|i: int| 0 <= i < s.len() implies '\0' <= #[trigger] s[i] <= '\u{7f}' by {
        if i < dot {
            assert(whole_part(s)[i] == s[i]);
            assert(is_digit(whole_part(s)[i]));
        } else if i == dot {
        } else {
            assert(fraction_part(s)[i - dot - 1] == s[i]);
            assert(is_digit(fraction_part(s)[i - dot - 1]));
        }
    }
}

/// `dot_index` lies within the text and points at a `'.'` unless it is the length.
proof fn lemma_dot_index_bounds(s: Seq<char>)
    ensures
        0 <= dot_index(s) <= s.len(),
        dot_index(s) < s.len() ==> s[dot_index(s)] == '.',
        forall|j: int| 0 <= j < dot_index(s) ==> s[j] != '.',
    decreases s.len(),
{
    if s.len() == 0 || s[0] == '.' {
    } else {
        lemma_dot_index_bounds(s.drop_first());
        assert forall|j: int| 0 <= j < dot_index(s) implies s[j] != '.' by {
            if j > 0 {
                assert(s.drop_first()[j - 1] == s[j]);
            }
        }
    }
}

/// The position found by scanning for the first `'.'` is `dot_index`.
proof fn lemma_dot_index(s: Seq<char>, dot: int)
    requires
        0 <= dot <= s.len(),
        forall|j: int| 0 <= j < dot ==> s[j] != '.',
        dot < s.len() ==> s[dot] == '.',
    ensures
        dot_index(s) == dot,
{
    lemma_dot_index_bounds(s);
}

/// Dropping the trailing zeros of `s` leaves its first `keep` characters when
/// all later ones are `'0'` and the one before them is not.
proof fn lemma_trim_zeros(s: Seq<char>, keep: int)
    requires
        0 <= keep <= s.len(),
        forall|j: int| keep <= j < s.len() ==> s[j] == '0',
        keep > 0 ==> s[keep - 1] != '0',
    ensures
        trim_zeros(s) == s.take(keep),
    decreases s.len(),
{
    if keep == s.len() {
        assert(s.take(keep) == s);
    } else {
        assert(s.last() == '0');
        lemma_trim_zeros(s.drop_last(), keep);
        assert(s.drop_last().take(keep) == s.take(keep));
    }
}

/// A prefix of a run of digits writes a number no larger than the whole run.
proof fn lemma_digits_prefix_le(s: Seq<char>, k: int)
    requires
        0 <= k <= s.len(),
    ensures
        digits_value(s.take(k)) <= digits_value(s),
    decreases s.len(),
{
    if k == s.len() {
        assert(s.take(k) == s);
    } else {
        lemma_digits_prefix_le(s.drop_last(), k);
        assert(s.drop_last().take(k) == s.take(k));
    }
}

/// What is left of digits once the trailing zeros are dropped starts the
/// digits, and does not end in `'0'`.
proof fn lemma_trim_zeros_shape(s: Seq<char>)
    ensures
        trim_zeros(s).len() <= s.len(),
        trim_zeros(s) == s.take(trim_zeros(s).len() as int),
        trim_zeros(s).len() > 0 ==> trim_zeros(s).last() != '0',
        forall|j: int| trim_zeros(s).len() <= j < s.len() ==> s[j] == '0',
    decreases s.len(),
{
    if s.len() > 0 && s.last() == '0' {
        lemma_trim_zeros_shape(s.drop_last());
        let kept = trim_zeros(s).len() as int;
        assert(s.drop_last().take(kept) == s.take(kept));
        assert forall|j: int| kept <= j < s.len() implies s[j] == '0' by {
            if j < s.len() - 1 {
                assert(s.drop_last()[j] == s[j]);
            }
        }
    } else {
        assert(s.take(s.len() as int) == s);
    }
}

/// Digits followed by zeros write the number of the digits times a power of ten.
proof fn lemma_trailing_zeros(s: Seq<char>, keep: int)
    requires
        0 <= keep <= s.len(),
        forall|j: int| keep <= j < s.len() ==> s[j] == '0',
    ensures
        digits_value(s) == digits_value(s.take(keep)) * pow10((s.len() - keep) as nat),
    decreases s.len() - keep,
{
    if keep == s.len() {
        assert(s.take(keep) == s);
        assert(pow10(0) == 1);
        assert(digits_value(s) * 1 == digits_value(s));
    } else {
        let shorter = s.drop_last();
        assert(s.last() == '0');
        assert forall|j: int| keep <= j < shorter.len() implies shorter[j] == '0' by {
            assert(shorter[j] == s[j]);
        }
        lemma_trailing_zeros(shorter, keep);
        assert(shorter.take(keep) == s.take(keep));
        let head = digits_value(s.take(keep));
        let power = pow10((shorter.len() - keep) as nat);
        assert(pow10((s.len() - keep) as nat) == 10 * power);
        assert(digits_value(s) == digits_value(shorter) * 10);
        assert((head * power) * 10 == head * (10 * power)) by (nonlinear_arith);
    }
}

/// The decimal that a text denotes is the quantity that the text writes: its
/// digits, taken as a whole number, over ten to the number of digits behind
/// the `'.'`. With [`lemma_canonical_unique`], two texts that write the same
/// quantity denote the same decimal.
pub proof fn lemma_decimal_text_quantity(s: Seq<char>)
    ensures
        decimal_of(s) matches Some(d) ==> d.units * pow10(fraction_part(s).len())
            == digits_value(whole_part(s) + fraction_part(s)) * pow10(d.scale as nat),
{
    if decimal_of(s) is Some {
        let d = decimal_of(s)->Some_0;
        let whole = whole_part(s);
        let frac = fraction_part(s);
        let kept = trim_zeros(frac);
        let all = whole + frac;
        let zeros = (frac.len() - kept.len()) as nat;
        lemma_trim_zeros_shape(frac);
        assert forall|j: int| whole.len() + kept.len() <= j < all.len() implies all[j] == '0' by {
            assert(all[j] == frac[j - whole.len()]);
        }
        lemma_trailing_zeros(all, (whole.len() + kept.len()) as int);
        assert(all.take((whole.len() + kept.len()) as int) == whole + kept);
        lemma_pow10_add(kept.len(), zeros);
        assert(kept.len() + zeros == frac.len());
        let u = d.units as int;
        let pk = pow10(kept.len()) as int;
        let pz = pow10(zeros) as int;
        assert(digits_value(all) == u * pz);
        assert(u * (pk * pz) == (u * pz) * pk) by (nonlinear_arith);
    }
}

/// The decimal that a text denotes is canonical: whatever is read from the
/// wire has the one representation of its quantity.
pub proof fn lemma_decimal_text_canonical(s: Seq<char>)
    ensures
        decimal_of(s) matches Some(d) ==> d.is_canonical(),
{
    if decimal_of(s) is Some {
        let kept = trim_zeros(fraction_part(s));
        lemma_trim_zeros_shape(fraction_part(s));
        if kept.len() > 0 {
            let digits = significant_digits(s);
            assert(digits.last() == kept.last());
            assert(kept.last() == fraction_part(s)[kept.len() - 1]);
            assert(is_digit(fraction_part(s)[kept.len() - 1]));
            lemma_last_digit(digits);
        }
    }
}

/// The last digit of a run is the remainder of its number by ten.
proof fn lemma_last_digit(s: Seq<char>)
    requires
        s.len() > 0,
        is_digit(s.last()),
    ensures
        digits_value(s) % 10 == digit_value(s.last()),
{
}

} // verus!

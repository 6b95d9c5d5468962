use vstd::prelude::*;

verus! {

/// The largest number of digits after the decimal point that an amount may carry.
pub const MAX_SCALE: u32 = 28;

/// The largest magnitude of a mantissa, 2^96 - 1.
pub const MAX_MANTISSA: i128 = 79228162514264337593543950335;

/// Ten to the power `n`.
pub open spec fn pow10(n: nat) -> int
    decreases n,
{
    if n == 0 {
        1
    } else {
        10 * pow10((n - 1) as nat)
    }
}

pub proof fn lemma_pow10_positive(n: nat)
    ensures
        pow10(n) >= 1,
    decreases n,
{
    if n > 0 {
        lemma_pow10_positive((n - 1) as nat);
    }
}

pub proof fn lemma_pow10_adds(a: nat, b: nat)
    ensures
        pow10(a + b) == pow10(a) * pow10(b),
    decreases a,
{
    if a > 0 {
        let p = pow10((a - 1) as nat);
        lemma_pow10_adds((a - 1) as nat, b);
        assert(pow10(a + b) == 10 * pow10((a - 1 + b) as nat));
        assert(10 * (p * pow10(b)) == (10 * p) * pow10(b)) by (nonlinear_arith);
    }
}

pub proof fn lemma_pow10_monotone(a: nat, b: nat)
    requires
        a <= b,
    ensures
        pow10(a) <= pow10(b),
    decreases b,
{
    if a < b {
        lemma_pow10_monotone(a, (b - 1) as nat);
        lemma_pow10_positive((b - 1) as nat);
    }
}

proof fn lemma_pow10_max_scale()
    ensures
        pow10(MAX_SCALE as nat) == 10000000000000000000000000000,
{
    reveal_with_fuel(pow10, 29);
}

/// `(m * 10^k) * 10^j == m * 10^(k + j)`.
proof fn lemma_rescaled(m: int, k: nat, j: nat)
    ensures
        (m * pow10(k)) * pow10(j) == m * pow10(k + j),
{
    lemma_pow10_adds(k, j);
    vstd::arithmetic::mul::lemma_mul_is_associative(m, pow10(k), pow10(j));
}

/// Multiplying by a power of ten keeps the sign.
proof fn lemma_sign_of_scaled(m: int, k: nat)
    ensures
        m < 0 ==> m * pow10(k) < 0,
        m >= 0 ==> m * pow10(k) >= 0,
{
    lemma_pow10_positive(k);
    let p = pow10(k);
    assert(m < 0 ==> m * p < 0) by (nonlinear_arith)
        requires
            p >= 1,
    {}
    assert(m >= 0 ==> m * p >= 0) by (nonlinear_arith)
        requires
            p >= 1,
    {}
}

/// Ten to the power `n`, computed.
fn pow10_exec(n: u32) -> (r: i128)
    requires
        n <= MAX_SCALE,
    ensures
        r == pow10(n as nat),
{
    let mut r: i128 = 1;
    let mut i: u32 = 0;
    while i < n
        invariant
            i <= n <= MAX_SCALE,
            r == pow10(i as nat),
        decreases n - i,
    {
        proof {
            lemma_pow10_monotone((i + 1) as nat, MAX_SCALE as nat);
            lemma_pow10_max_scale();
            lemma_pow10_positive(i as nat);
            assert(pow10((i + 1) as nat) == 10 * pow10(i as nat));
        }
        r = r * 10;
        i = i + 1;
    }
    r
}

/// A signed decimal number held exactly as `mantissa / 10^scale`.
///
/// Its value is an integer count of `10^-MAX_SCALE` units, so sums and differences of
/// amounts are exact: an operation whose result cannot be represented fails instead of
/// rounding.
#[derive(Clone, Copy, Debug)]
pub struct Amount {
    mantissa: i128,
    scale: u32,
}

impl Amount {
    #[verifier::type_invariant]
    closed spec fn inv(self) -> bool {
        &&& self.scale <= MAX_SCALE
        &&& -MAX_MANTISSA <= self.mantissa <= MAX_MANTISSA
    }

    pub closed spec fn spec_mantissa(self) -> int {
        self.mantissa as int
    }

    pub closed spec fn spec_scale(self) -> nat {
        self.scale as nat
    }

    /// The exact value, in units of `10^-MAX_SCALE`.
    pub open spec fn value(self) -> int {
        self.spec_mantissa() * pow10((MAX_SCALE - self.spec_scale()) as nat)
    }

    /// The mantissa of `a` brought to scale `s`.
    pub open spec fn aligned(a: Amount, s: nat) -> int {
        a.spec_mantissa() * pow10((s - a.spec_scale()) as nat)
    }

    /// The larger of the scales of `a` and `b`.
    pub open spec fn common_scale(a: Amount, b: Amount) -> nat {
        if a.spec_scale() >= b.spec_scale() {
            a.spec_scale()
        } else {
            b.spec_scale()
        }
    }

    /// Whether `a + b`, taken at the larger of the two scales, has a mantissa in range.
    pub open spec fn can_add(a: Amount, b: Amount) -> bool {
        let s = Self::common_scale(a, b);
        -MAX_MANTISSA <= Self::aligned(a, s) + Self::aligned(b, s) <= MAX_MANTISSA
    }

    /// Whether `a - b`, taken at the larger of the two scales, has a mantissa in range.
    pub open spec fn can_sub(a: Amount, b: Amount) -> bool {
        let s = Self::common_scale(a, b);
        -MAX_MANTISSA <= Self::aligned(a, s) - Self::aligned(b, s) <= MAX_MANTISSA
    }

    /// The sum of `a` and `b`, held at the larger of the two scales.
    pub closed spec fn sum(a: Amount, b: Amount) -> Amount {
        let s = Self::common_scale(a, b);
        Amount { mantissa: (Self::aligned(a, s) + Self::aligned(b, s)) as i128, scale: s as u32 }
    }

    /// The difference `a - b`, held at the larger of the two scales.
    pub closed spec fn difference(a: Amount, b: Amount) -> Amount {
        let s = Self::common_scale(a, b);
        Amount { mantissa: (Self::aligned(a, s) - Self::aligned(b, s)) as i128, scale: s as u32 }
    }

    /// Zero, with no digits after the decimal point.
    pub closed spec fn spec_zero() -> Amount {
        Amount { mantissa: 0, scale: 0 }
    }

    /// Two amounts with the same mantissa and scale are the same amount.
    pub proof fn lemma_parts_determine(a: Amount, b: Amount)
        requires
            a.spec_mantissa() == b.spec_mantissa(),
            a.spec_scale() == b.spec_scale(),
        ensures
            a == b,
    {
    }

    pub proof fn lemma_zero_parts()
        ensures
            Self::spec_zero().spec_mantissa() == 0,
            Self::spec_zero().spec_scale() == 0,
    {
    }

    /// The sum, where it can be held, is the sum of the aligned mantissas at the larger scale.
    pub proof fn lemma_sum_parts(a: Amount, b: Amount)
        requires
            Self::can_add(a, b),
        ensures
            Self::sum(a, b).spec_scale() == Self::common_scale(a, b),
            Self::sum(a, b).spec_mantissa() == Self::aligned(a, Self::common_scale(a, b))
                + Self::aligned(b, Self::common_scale(a, b)),
    {
    }

    /// The difference, where it can be held, is the difference of the aligned mantissas at
    /// the larger scale.
    pub proof fn lemma_difference_parts(a: Amount, b: Amount)
        requires
            Self::can_sub(a, b),
        ensures
            Self::difference(a, b).spec_scale() == Self::common_scale(a, b),
            Self::difference(a, b).spec_mantissa() == Self::aligned(a, Self::common_scale(a, b))
                - Self::aligned(b, Self::common_scale(a, b)),
    {
    }

    /// The sum, where it can be held, has the sum of the two values.
    pub proof fn lemma_sum_value(a: Amount, b: Amount)
        requires
            Self::can_add(a, b),
            a.spec_scale() <= MAX_SCALE,
            b.spec_scale() <= MAX_SCALE,
        ensures
            Self::sum(a, b).value() == a.value() + b.value(),
    {
        let s = Self::common_scale(a, b);
        let q = pow10((MAX_SCALE - s) as nat);
        let (x, y) = (Self::aligned(a, s), Self::aligned(b, s));
        Self::lemma_aligned_value(a, s);
        Self::lemma_aligned_value(b, s);
        assert((x + y) * q == x * q + y * q) by (nonlinear_arith);
    }

    /// The difference, where it can be held, has the difference of the two values.
    pub proof fn lemma_difference_value(a: Amount, b: Amount)
        requires
            Self::can_sub(a, b),
            a.spec_scale() <= MAX_SCALE,
            b.spec_scale() <= MAX_SCALE,
        ensures
            Self::difference(a, b).value() == a.value() - b.value(),
    {
        let s = Self::common_scale(a, b);
        let q = pow10((MAX_SCALE - s) as nat);
        let (x, y) = (Self::aligned(a, s), Self::aligned(b, s));
        Self::lemma_aligned_value(a, s);
        Self::lemma_aligned_value(b, s);
        assert((x - y) * q == x * q - y * q) by (nonlinear_arith);
    }

    /// The value has the sign of the mantissa.
    pub proof fn lemma_value_sign(a: Amount)
        ensures
            a.value() > 0 <==> a.spec_mantissa() > 0,
            a.value() == 0 <==> a.spec_mantissa() == 0,
            a.value() < 0 <==> a.spec_mantissa() < 0,
    {
        lemma_sign_of_scaled(a.spec_mantissa(), (MAX_SCALE - a.spec_scale()) as nat);
        lemma_sign_of_scaled(-a.spec_mantissa(), (MAX_SCALE - a.spec_scale()) as nat);
        let p = pow10((MAX_SCALE - a.spec_scale()) as nat);
        assert(-a.spec_mantissa() * p == -(a.spec_mantissa() * p)) by (nonlinear_arith);
    }

    pub proof fn lemma_zero_value()
        ensures
            Self::spec_zero().value() == 0,
    {
        let p = pow10(MAX_SCALE as nat);
        assert(0 * p == 0) by (nonlinear_arith);
    }

    /// Zero, with no digits after the decimal point.
    pub fn zero() -> (r: Amount)
        ensures
            r == Self::spec_zero(),
            r.value() == 0,
            r.spec_mantissa() == 0,
            r.spec_scale() == 0,
    {
        let r = Amount { mantissa: 0, scale: 0 };
        proof {
            let p = pow10(MAX_SCALE as nat);
            assert(0 * p == 0) by (nonlinear_arith);
        }
        r
    }

    /// The amount `mantissa / 10^scale`, where it can be held.
    pub fn from_parts(mantissa: i128, scale: u32) -> (r: Option<Amount>)
        ensures
            r is Some <==> (scale <= MAX_SCALE && -MAX_MANTISSA <= mantissa <= MAX_MANTISSA),
            r matches Some(a) ==> a.spec_mantissa() == mantissa && a.spec_scale() == scale,
    {
        if scale <= MAX_SCALE && -MAX_MANTISSA <= mantissa && mantissa <= MAX_MANTISSA {
            Some(Amount { mantissa, scale })
        } else {
            None
        }
    }

    pub fn mantissa(&self) -> (r: i128)
        ensures
            r == self.spec_mantissa(),
    {
        self.mantissa
    }

    pub fn scale(&self) -> (r: u32)
        ensures
            r == self.spec_scale(),
    {
        self.scale
    }

    /// `m * 10^k`, where it fits an `i128`.
    fn rescale(m: i128, k: u32) -> (r: Option<i128>)
        requires
            k <= MAX_SCALE,
        ensures
            r is Some <==> i128::MIN <= m * pow10(k as nat) <= i128::MAX,
            r matches Some(x) ==> x == m * pow10(k as nat),
    {
        m.checked_mul(pow10_exec(k))
    }

    /// Both mantissas brought to the larger of the two scales; at most one of them can
    /// leave the range of `i128`.
    fn align(a: Amount, b: Amount) -> (r: (Option<i128>, Option<i128>, u32))
        ensures
            r.2 == Self::common_scale(a, b),
            r.0 is Some <==> i128::MIN <= Self::aligned(a, r.2 as nat) <= i128::MAX,
            r.1 is Some <==> i128::MIN <= Self::aligned(b, r.2 as nat) <= i128::MAX,
            r.0 matches Some(x) ==> x == Self::aligned(a, r.2 as nat),
            r.1 matches Some(x) ==> x == Self::aligned(b, r.2 as nat),
            a.spec_scale() == r.2 ==> r.0 is Some,
            b.spec_scale() == r.2 ==> r.1 is Some,
    {
        proof {
            use_type_invariant(a);
            use_type_invariant(b);
        }
        let s = if a.scale >= b.scale {
            a.scale
        } else {
            b.scale
        };
        let x = Self::rescale(a.mantissa, s - a.scale);
        let y = Self::rescale(b.mantissa, s - b.scale);
        (x, y, s)
    }

    /// The value of an amount at scale `s` with mantissa `m`.
    proof fn lemma_aligned_value(a: Amount, s: nat)
        requires
            a.spec_scale() <= s <= MAX_SCALE,
        ensures
            Self::aligned(a, s) * pow10((MAX_SCALE - s) as nat) == a.value(),
    {
        lemma_rescaled(
            a.spec_mantissa(),
            (s - a.spec_scale()) as nat,
            (MAX_SCALE - s) as nat,
        );
    }

    /// The exact sum, at the larger of the two scales, or `None` where its mantissa would
    /// be out of range.
    pub fn checked_add(self, other: Amount) -> (r: Option<Amount>)
        ensures
            r is Some <==> Self::can_add(self, other),
            r matches Some(x) ==> x == Self::sum(self, other),
            r matches Some(x) ==> x.value() == self.value() + other.value(),
    {
        proof {
            use_type_invariant(self);
            use_type_invariant(other);
        }
        let (x, y, s) = Self::align(self, other);
        match (x, y) {
            (Some(x), Some(y)) => match x.checked_add(y) {
                Some(m) => {
                    if -MAX_MANTISSA <= m && m <= MAX_MANTISSA {
                        proof {
                            let q = pow10((MAX_SCALE - s) as nat);
                            Self::lemma_aligned_value(self, s as nat);
                            Self::lemma_aligned_value(other, s as nat);
                            assert((x + y) * q == x * q + y * q) by (nonlinear_arith);
                        }
                        Some(Amount { mantissa: m, scale: s })
                    } else {
                        None
                    }
                },
                None => None,
            },
            _ => None,
        }
    }

    /// The exact difference, at the larger of the two scales, or `None` where its mantissa
    /// would be out of range.
    pub fn checked_sub(self, other: Amount) -> (r: Option<Amount>)
        ensures
            r is Some <==> Self::can_sub(self, other),
            r matches Some(x) ==> x == Self::difference(self, other),
            r matches Some(x) ==> x.value() == self.value() - other.value(),
    {
        proof {
            use_type_invariant(self);
            use_type_invariant(other);
        }
        let (x, y, s) = Self::align(self, other);
        match (x, y) {
            (Some(x), Some(y)) => match x.checked_sub(y) {
                Some(m) => {
                    if -MAX_MANTISSA <= m && m <= MAX_MANTISSA {
                        proof {
                            let q = pow10((MAX_SCALE - s) as nat);
                            Self::lemma_aligned_value(self, s as nat);
                            Self::lemma_aligned_value(other, s as nat);
                            assert((x - y) * q == x * q - y * q) by (nonlinear_arith);
                        }
                        Some(Amount { mantissa: m, scale: s })
                    } else {
                        None
                    }
                },
                None => None,
            },
            _ => None,
        }
    }

    /// Compares the exact values: -1, 0 or 1 as `self` is below, equal to or above `other`.
    pub fn compare(self, other: Amount) -> (r: i8)
        ensures
            r == -1 <==> self.value() < other.value(),
            r == 0 <==> self.value() == other.value(),
            r == 1 <==> self.value() > other.value(),
    {
        proof {
            use_type_invariant(self);
            use_type_invariant(other);
        }
        let (x, y, s) = Self::align(self, other);
        let ghost q = pow10((MAX_SCALE - s) as nat);
        let ghost xa = Self::aligned(self, s as nat);
        let ghost ya = Self::aligned(other, s as nat);
        proof {
            lemma_pow10_positive((MAX_SCALE - s) as nat);
            Self::lemma_aligned_value(self, s as nat);
            Self::lemma_aligned_value(other, s as nat);
        }
        proof {
            lemma_sign_of_scaled(self.spec_mantissa(), (s - self.spec_scale()) as nat);
            lemma_sign_of_scaled(other.spec_mantissa(), (s - other.spec_scale()) as nat);
        }
        // Where a mantissa leaves the range of `i128` once aligned, it is larger in magnitude
        // than the other, which stays within `MAX_MANTISSA`; its sign decides.
        let sign: i8 = match (x, y) {
            (Some(x), Some(y)) => {
                if x < y {
                    -1
                } else if x == y {
                    0
                } else {
                    1
                }
            },
            (None, _) => {
                if self.mantissa < 0 {
                    -1
                } else {
                    1
                }
            },
            (_, None) => {
                if other.mantissa < 0 {
                    1
                } else {
                    -1
                }
            },
        };
        proof {
            assert(xa < ya ==> xa * q < ya * q) by (nonlinear_arith)
                requires
                    q >= 1,
            {}
            assert(xa > ya ==> xa * q > ya * q) by (nonlinear_arith)
                requires
                    q >= 1,
            {}
        }
        sign
    }

    /// Whether the value is above zero.
    pub fn is_positive(&self) -> (r: bool)
        ensures
            r == (self.value() > 0),
    {
        proof {
            let p = pow10((MAX_SCALE - self.spec_scale()) as nat);
            lemma_pow10_positive((MAX_SCALE - self.spec_scale()) as nat);
            assert(self.spec_mantissa() > 0 ==> self.spec_mantissa() * p > 0) by (nonlinear_arith)
                requires
                    p >= 1,
            {}
            assert(self.spec_mantissa() <= 0 ==> self.spec_mantissa() * p <= 0)
                by (nonlinear_arith)
                requires
                    p >= 1,
            {}
        }
        self.mantissa > 0
    }
}

impl PartialEq for Amount {
    fn eq(&self, other: &Amount) -> (r: bool) {
        self.compare(*other) == 0
    }
}

impl vstd::std_specs::cmp::PartialEqSpecImpl for Amount {
    open spec fn obeys_eq_spec() -> bool {
        true
    }

    open spec fn eq_spec(&self, other: &Amount) -> bool {
        self.value() == other.value()
    }
}

impl Eq for Amount {

}

} // verus!

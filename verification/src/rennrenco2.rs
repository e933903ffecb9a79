//! Weighting triple: renewable, non renewable and CO2 parts of an energy
//! quantity or of a weighting factor, held as whole numbers of a fixed unit.
use vstd::prelude::*;
use vstd::std_specs::ops::AddSpecImpl;
use vstd::std_specs::ops::MulSpecImpl;
use vstd::std_specs::ops::SubSpecImpl;

verus! {

/// Renewable, non renewable and CO2 parts of an energy quantity or factor.
///
/// The parts are whole numbers of a unit that the context fixes (thousandths
/// for weighting factors), so that sums, differences and products are exact.
#[derive(Debug, Copy, Clone, PartialEq, Eq, Structural)]
pub struct RenNrenCo2 {
    /// Renewable part.
    pub ren: i128,
    /// Non renewable part.
    pub nren: i128,
    /// CO2 part.
    pub co2: i128,
}

/// A weighting triple of mathematical integers: what a `RenNrenCo2` holds,
/// without the limits of the machine.
pub struct Triple {
    /// Renewable part.
    pub ren: int,
    /// Non renewable part.
    pub nren: int,
    /// CO2 part.
    pub co2: int,
}

impl Triple {
    /// The triple with all parts zero.
    pub open spec fn zero() -> Triple {
        Triple { ren: 0, nren: 0, co2: 0 }
    }

    /// Part by part sum.
    pub open spec fn add(self, other: Triple) -> Triple {
        Triple {
            ren: self.ren + other.ren,
            nren: self.nren + other.nren,
            co2: self.co2 + other.co2,
        }
    }

    /// Part by part difference.
    pub open spec fn sub(self, other: Triple) -> Triple {
        Triple {
            ren: self.ren - other.ren,
            nren: self.nren - other.nren,
            co2: self.co2 - other.co2,
        }
    }

    /// Each part multiplied by `k`.
    pub open spec fn scale(self, k: int) -> Triple {
        Triple { ren: self.ren * k, nren: self.nren * k, co2: self.co2 * k }
    }

    /// Each part divided by a positive `d` and rounded down.
    pub open spec fn div(self, d: int) -> Triple {
        Triple { ren: self.ren / d, nren: self.nren / d, co2: self.co2 / d }
    }

    /// Of each part, what falls to the stretch from `lo` to `hi` of `whole`.
    pub open spec fn slice(self, lo: int, hi: int, whole: int) -> Triple {
        Triple {
            ren: crate::shares::slice(self.ren, lo, hi, whole),
            nren: crate::shares::slice(self.nren, lo, hi, whole),
            co2: crate::shares::slice(self.co2, lo, hi, whole),
        }
    }

    /// Whether no part is larger than `b` in absolute value.
    pub open spec fn within(self, b: int) -> bool {
        &&& -b <= self.ren <= b
        &&& -b <= self.nren <= b
        &&& -b <= self.co2 <= b
    }

    /// Whether no part is negative.
    pub open spec fn non_negative(self) -> bool {
        0 <= self.ren && 0 <= self.nren && 0 <= self.co2
    }
}

impl View for RenNrenCo2 {
    type V = Triple;

    open spec fn view(&self) -> Triple {
        Triple { ren: self.ren as int, nren: self.nren as int, co2: self.co2 as int }
    }
}

/// Number of ratio units in one: ratios are given in thousandths.
pub const RATIO_SCALE: i128 = 1000;

/// Whether `x` can be held in a part of the triple.
pub open spec fn fits(x: int) -> bool {
    i128::MIN <= x <= i128::MAX
}

/// Whether `x` and its opposite can both be held in a part of the triple.
pub open spec fn fits_both_signs(x: int) -> bool {
    -i128::MAX <= x <= i128::MAX
}

/// Quotient rounded towards minus infinity, for any sign of the divisor.
pub open spec fn floor_div(a: int, d: int) -> int
    recommends
        d != 0,
{
    if d > 0 {
        a / d
    } else {
        (-a) / (-d)
    }
}

/// Renewable share `ren / (ren + nren)` in thousandths, rounded down, with
/// the share of an empty total being zero.
pub open spec fn rer_of(ren: int, nren: int) -> int {
    if ren + nren == 0 {
        0
    } else {
        floor_div(RATIO_SCALE * ren, ren + nren)
    }
}

impl RenNrenCo2 {
    /// Sum of the renewable and non renewable parts.
    pub open spec fn spec_tot(self) -> int {
        self.ren + self.nren
    }

    /// Renewable share of the total, in thousandths.
    pub open spec fn spec_rer(self) -> int {
        rer_of(self.ren as int, self.nren as int)
    }

    /// Whether the part by part sum with `other` can be held.
    pub open spec fn can_add(self, other: RenNrenCo2) -> bool {
        fits(self.ren + other.ren) && fits(self.nren + other.nren) && fits(self.co2 + other.co2)
    }

    /// Part by part sum.
    pub open spec fn plus(self, other: RenNrenCo2) -> RenNrenCo2 {
        RenNrenCo2 {
            ren: (self.ren + other.ren) as i128,
            nren: (self.nren + other.nren) as i128,
            co2: (self.co2 + other.co2) as i128,
        }
    }

    /// Whether the part by part difference with `other` can be held.
    pub open spec fn can_sub(self, other: RenNrenCo2) -> bool {
        fits(self.ren - other.ren) && fits(self.nren - other.nren) && fits(self.co2 - other.co2)
    }

    /// Part by part difference.
    pub open spec fn minus(self, other: RenNrenCo2) -> RenNrenCo2 {
        RenNrenCo2 {
            ren: (self.ren - other.ren) as i128,
            nren: (self.nren - other.nren) as i128,
            co2: (self.co2 - other.co2) as i128,
        }
    }

    /// Whether each part multiplied by `k` can be held.
    pub open spec fn can_scale(self, k: int) -> bool {
        fits(self.ren * k) && fits(self.nren * k) && fits(self.co2 * k)
    }

    /// Each part multiplied by `k`.
    pub open spec fn times(self, k: int) -> RenNrenCo2 {
        RenNrenCo2 {
            ren: (self.ren * k) as i128,
            nren: (self.nren * k) as i128,
            co2: (self.co2 * k) as i128,
        }
    }

    /// The triple with all parts zero.
    pub fn new() -> (r: Self)
        ensures
            r.ren == 0,
            r.nren == 0,
            r.co2 == 0,
    {
        RenNrenCo2 { ren: 0, nren: 0, co2: 0 }
    }

    /// The text of the triple, with each part in thousandths written with
    /// three decimals.
    pub open spec fn spec_text(self) -> Seq<char> {
        "{ ren: "@ + crate::decimal::decimal_text(self.ren as int) + ", nren: "@
            + crate::decimal::decimal_text(self.nren as int) + ", co2: "@
            + crate::decimal::decimal_text(self.co2 as int) + " }"@
    }

    /// The text of the triple, with each part in thousandths written with
    /// three decimals.
    pub fn to_string(&self) -> (r: String)
        ensures
            r@ == self.spec_text(),
    {
        let mut r = String::from_str("{ ren: ");
        crate::decimal::push_decimal(&mut r, self.ren);
        r.append(", nren: ");
        crate::decimal::push_decimal(&mut r, self.nren);
        r.append(", co2: ");
        crate::decimal::push_decimal(&mut r, self.co2);
        r.append(" }");
        assert(r@ =~= self.spec_text());
        r
    }

    /// Total of the renewable and non renewable parts.
    pub fn tot(self) -> (r: i128)
        requires
            fits(self.spec_tot()),
        ensures
            r == self.spec_tot(),
    {
        self.ren + self.nren
    }

    /// Renewable energy ratio in thousandths, rounded down; zero when the
    /// total is zero.
    pub fn rer(self) -> (r: i128)
        requires
            fits_both_signs(self.spec_tot()),
            fits_both_signs(RATIO_SCALE * self.ren),
        ensures
            r == self.spec_rer(),
    {
        let tot = self.tot();
        if tot == 0 {
            0
        } else {
            div_floor(RATIO_SCALE * self.ren, tot)
        }
    }
}

/// Quotient of `a` by a non zero `d`, rounded towards minus infinity.
pub fn div_floor(a: i128, d: i128) -> (q: i128)
    requires
        d != 0,
        fits_both_signs(a as int),
        fits_both_signs(d as int),
    ensures
        q == floor_div(a as int, d as int),
{
    let (n, m): (i128, i128) = if d > 0 { (a, d) } else { (-a, -d) };
    if n >= 0 {
        n / m
    } else {
        // For a negative numerator the truncated quotient of the opposite
        // number gives the ceiling; one more step down unless exact.
        let p: i128 = -n;
        let q: i128 = p / m;
        let r: i128 = p % m;
        proof {
            lemma_floor_of_negative(p as int, m as int);
        }
        if r == 0 { -q } else { -q - 1 }
    }
}

/// Euclidean quotient of `-p` by `m`, from the quotient and remainder of `p`.
pub proof fn lemma_floor_of_negative(p: int, m: int)
    requires
        p >= 0,
        m > 0,
    ensures
        (-p) / m == if p % m == 0 { -(p / m) } else { -(p / m) - 1 },
{
    let q = p / m;
    let r = p % m;
    vstd::arithmetic::div_mod::lemma_fundamental_div_mod(p, m);
    assert(p == m * q + r);
    if r == 0 {
        assert(-p == (-q) * m + 0) by (nonlinear_arith)
            requires
                p == m * q,
        ;
        vstd::arithmetic::div_mod::lemma_fundamental_div_mod_converse(-p, m, -q, 0);
    } else {
        assert(-p == (-q - 1) * m + (m - r)) by (nonlinear_arith)
            requires
                p == m * q + r,
        ;
        vstd::arithmetic::div_mod::lemma_fundamental_div_mod_converse(-p, m, -q - 1, m - r);
    }
}

/// A triple without a negative part, multiplied by a number that is not
/// negative, has no negative part.
pub proof fn lemma_scale_non_negative(x: Triple, k: int)
    requires
        x.non_negative(),
        k >= 0,
    ensures
        x.scale(k).non_negative(),
{
    assert(x.ren * k >= 0 && x.nren * k >= 0 && x.co2 * k >= 0) by (nonlinear_arith)
        requires
            x.ren >= 0,
            x.nren >= 0,
            x.co2 >= 0,
            k >= 0,
    ;
}

/// A triple times a number is each part times the number, whichever side
/// the number stands on: no part has a share in another.
pub proof fn lemma_scale_part_by_part(x: Triple, k: int)
    ensures
        x.scale(k).ren == k * x.ren,
        x.scale(k).nren == k * x.nren,
        x.scale(k).co2 == k * x.co2,
{
    assert(x.ren * k == k * x.ren && x.nren * k == k * x.nren && x.co2 * k == k * x.co2)
        by (nonlinear_arith);
}

/// The sum of two triples without a negative part has no negative part.
pub proof fn lemma_add_non_negative(x: Triple, y: Triple)
    requires
        x.non_negative(),
        y.non_negative(),
    ensures
        x.add(y).non_negative(),
{
}

/// The renewable energy ratio of parts that are not negative lies between
/// zero and one: it is one where there is a renewable part and no non
/// renewable part, and zero where there is no renewable part.
pub proof fn lemma_rer_bounds(ren: int, nren: int)
    requires
        ren >= 0,
        nren >= 0,
    ensures
        0 <= rer_of(ren, nren) <= RATIO_SCALE,
        ren > 0 && nren == 0 ==> rer_of(ren, nren) == RATIO_SCALE,
        ren == 0 ==> rer_of(ren, nren) == 0,
{
    let tot = ren + nren;
    if tot > 0 {
        let s = RATIO_SCALE as int;
        assert(0 <= s * ren <= s * tot) by (nonlinear_arith)
            requires
                0 <= ren <= tot,
                s == 1000,
        ;
        vstd::arithmetic::div_mod::lemma_div_pos_is_pos(s * ren, tot);
        vstd::arithmetic::div_mod::lemma_div_is_ordered(s * ren, s * tot, tot);
        vstd::arithmetic::div_mod::lemma_div_multiples_vanish(s, tot);
        assert(s * tot == tot * s) by (nonlinear_arith);
        if ren == 0 {
            assert(s * ren == 0) by (nonlinear_arith)
                requires
                    ren == 0,
            ;
        }
    }
}

/// The renewable energy ratio is the renewable part over the sum of the
/// renewable and the non renewable part, in thousandths and rounded down,
/// whatever the CO2 part is.
pub proof fn lemma_rer_formula(x: RenNrenCo2, y: RenNrenCo2)
    requires
        x.ren == y.ren,
        x.nren == y.nren,
    ensures
        x.spec_rer() == y.spec_rer(),
        x.ren + x.nren > 0 ==> x.spec_rer() == (RATIO_SCALE * x.ren) / (x.ren + x.nren),
        x.ren + x.nren == 0 ==> x.spec_rer() == 0,
{
}

/// What the operators give, where the result can be held, is the sum, the
/// difference and the multiple of the triples as mathematical values.
pub proof fn lemma_operators(x: RenNrenCo2, y: RenNrenCo2, k: i128)
    ensures
        x.can_add(y) ==> x.plus(y)@ == x@.add(y@),
        x.can_sub(y) ==> x.minus(y)@ == x@.sub(y@),
        x.can_scale(k as int) ==> x.times(k as int)@ == x@.scale(k as int),
        x.can_scale(k as int) && x@.non_negative() && k >= 0 ==> x.times(k as int)@.non_negative(),
{
    if x.can_scale(k as int) && x@.non_negative() && k >= 0 {
        lemma_scale_non_negative(x@, k as int);
    }
}

impl Default for RenNrenCo2 {
    fn default() -> (r: Self)
        ensures
            r.ren == 0,
            r.nren == 0,
            r.co2 == 0,
    {
        RenNrenCo2 { ren: 0, nren: 0, co2: 0 }
    }
}

impl AddSpecImpl for RenNrenCo2 {
    open spec fn obeys_add_spec() -> bool {
        true
    }

    open spec fn add_req(self, rhs: RenNrenCo2) -> bool {
        self.can_add(rhs)
    }

    open spec fn add_spec(self, rhs: RenNrenCo2) -> RenNrenCo2 {
        self.plus(rhs)
    }
}

impl core::ops::Add for RenNrenCo2 {
    type Output = RenNrenCo2;

    fn add(self, other: RenNrenCo2) -> (r: RenNrenCo2) {
        RenNrenCo2 {
            ren: self.ren + other.ren,
            nren: self.nren + other.nren,
            co2: self.co2 + other.co2,
        }
    }
}

impl SubSpecImpl for RenNrenCo2 {
    open spec fn obeys_sub_spec() -> bool {
        true
    }

    open spec fn sub_req(self, rhs: RenNrenCo2) -> bool {
        self.can_sub(rhs)
    }

    open spec fn sub_spec(self, rhs: RenNrenCo2) -> RenNrenCo2 {
        self.minus(rhs)
    }
}

impl core::ops::Sub for RenNrenCo2 {
    type Output = RenNrenCo2;

    fn sub(self, other: RenNrenCo2) -> (r: RenNrenCo2) {
        RenNrenCo2 {
            ren: self.ren - other.ren,
            nren: self.nren - other.nren,
            co2: self.co2 - other.co2,
        }
    }
}

impl MulSpecImpl<i128> for RenNrenCo2 {
    open spec fn obeys_mul_spec() -> bool {
        true
    }

    open spec fn mul_req(self, rhs: i128) -> bool {
        self.can_scale(rhs as int)
    }

    open spec fn mul_spec(self, rhs: i128) -> RenNrenCo2 {
        self.times(rhs as int)
    }
}

impl core::ops::Mul<i128> for RenNrenCo2 {
    type Output = RenNrenCo2;

    fn mul(self, rhs: i128) -> (r: RenNrenCo2) {
        RenNrenCo2 { ren: self.ren * rhs, nren: self.nren * rhs, co2: self.co2 * rhs }
    }
}

impl MulSpecImpl<RenNrenCo2> for i128 {
    open spec fn obeys_mul_spec() -> bool {
        true
    }

    open spec fn mul_req(self, rhs: RenNrenCo2) -> bool {
        rhs.can_scale(self as int)
    }

    open spec fn mul_spec(self, rhs: RenNrenCo2) -> RenNrenCo2 {
        rhs.times(self as int)
    }
}

impl core::ops::Mul<RenNrenCo2> for i128 {
    type Output = RenNrenCo2;

    fn mul(self, rhs: RenNrenCo2) -> (r: RenNrenCo2) {
        RenNrenCo2 { ren: rhs.ren * self, nren: rhs.nren * self, co2: rhs.co2 * self }
    }
}

impl<'a> AddSpecImpl for &'a RenNrenCo2 {
    open spec fn obeys_add_spec() -> bool {
        true
    }

    open spec fn add_req(self, rhs: &'a RenNrenCo2) -> bool {
        self.can_add(*rhs)
    }

    open spec fn add_spec(self, rhs: &'a RenNrenCo2) -> RenNrenCo2 {
        self.plus(*rhs)
    }
}

impl<'a> core::ops::Add for &'a RenNrenCo2 {
    type Output = RenNrenCo2;

    fn add(self, other: &RenNrenCo2) -> (r: RenNrenCo2) {
        RenNrenCo2 {
            ren: self.ren + other.ren,
            nren: self.nren + other.nren,
            co2: self.co2 + other.co2,
        }
    }
}

impl<'a> SubSpecImpl for &'a RenNrenCo2 {
    open spec fn obeys_sub_spec() -> bool {
        true
    }

    open spec fn sub_req(self, rhs: &'a RenNrenCo2) -> bool {
        self.can_sub(*rhs)
    }

    open spec fn sub_spec(self, rhs: &'a RenNrenCo2) -> RenNrenCo2 {
        self.minus(*rhs)
    }
}

impl<'a> core::ops::Sub for &'a RenNrenCo2 {
    type Output = RenNrenCo2;

    fn sub(self, other: &RenNrenCo2) -> (r: RenNrenCo2) {
        RenNrenCo2 {
            ren: self.ren - other.ren,
            nren: self.nren - other.nren,
            co2: self.co2 - other.co2,
        }
    }
}

impl<'a> MulSpecImpl<i128> for &'a RenNrenCo2 {
    open spec fn obeys_mul_spec() -> bool {
        true
    }

    open spec fn mul_req(self, rhs: i128) -> bool {
        self.can_scale(rhs as int)
    }

    open spec fn mul_spec(self, rhs: i128) -> RenNrenCo2 {
        self.times(rhs as int)
    }
}

impl<'a> core::ops::Mul<i128> for &'a RenNrenCo2 {
    type Output = RenNrenCo2;

    fn mul(self, rhs: i128) -> (r: RenNrenCo2) {
        RenNrenCo2 { ren: self.ren * rhs, nren: self.nren * rhs, co2: self.co2 * rhs }
    }
}

impl<'a> MulSpecImpl<&'a RenNrenCo2> for i128 {
    open spec fn obeys_mul_spec() -> bool {
        true
    }

    open spec fn mul_req(self, rhs: &'a RenNrenCo2) -> bool {
        rhs.can_scale(self as int)
    }

    open spec fn mul_spec(self, rhs: &'a RenNrenCo2) -> RenNrenCo2 {
        rhs.times(self as int)
    }
}

impl<'a> core::ops::Mul<&'a RenNrenCo2> for i128 {
    type Output = RenNrenCo2;

    fn mul(self, rhs: &RenNrenCo2) -> (r: RenNrenCo2) {
        RenNrenCo2 { ren: rhs.ren * self, nren: rhs.nren * self, co2: rhs.co2 * self }
    }
}

impl<'a> MulSpecImpl<&'a i128> for RenNrenCo2 {
    open spec fn obeys_mul_spec() -> bool {
        true
    }

    open spec fn mul_req(self, rhs: &'a i128) -> bool {
        self.can_scale(*rhs as int)
    }

    open spec fn mul_spec(self, rhs: &'a i128) -> RenNrenCo2 {
        self.times(*rhs as int)
    }
}

impl<'a> core::ops::Mul<&'a i128> for RenNrenCo2 {
    type Output = RenNrenCo2;

    fn mul(self, rhs: &i128) -> (r: RenNrenCo2) {
        RenNrenCo2 { ren: self.ren * *rhs, nren: self.nren * *rhs, co2: self.co2 * *rhs }
    }
}

impl<'a> MulSpecImpl<RenNrenCo2> for &'a i128 {
    open spec fn obeys_mul_spec() -> bool {
        true
    }

    open spec fn mul_req(self, rhs: RenNrenCo2) -> bool {
        rhs.can_scale(*self as int)
    }

    open spec fn mul_spec(self, rhs: RenNrenCo2) -> RenNrenCo2 {
        rhs.times(*self as int)
    }
}

impl<'a> core::ops::Mul<RenNrenCo2> for &'a i128 {
    type Output = RenNrenCo2;

    fn mul(self, rhs: RenNrenCo2) -> (r: RenNrenCo2) {
        RenNrenCo2 { ren: rhs.ren * *self, nren: rhs.nren * *self, co2: rhs.co2 * *self }
    }
}

impl core::ops::SubAssign for RenNrenCo2 {
    fn sub_assign(&mut self, other: RenNrenCo2)
        requires
            old(self).can_sub(other),
        ensures
            *final(self) == old(self).minus(other),
    {
        self.ren = self.ren - other.ren;
        self.nren = self.nren - other.nren;
        self.co2 = self.co2 - other.co2;
    }
}

impl core::ops::MulAssign<i128> for RenNrenCo2 {
    fn mul_assign(&mut self, rhs: i128)
        requires
            old(self).can_scale(rhs as int),
        ensures
            *final(self) == old(self).times(rhs as int),
    {
        self.ren = self.ren * rhs;
        self.nren = self.nren * rhs;
        self.co2 = self.co2 * rhs;
    }
}

impl core::ops::AddAssign for RenNrenCo2 {
    fn add_assign(&mut self, other: RenNrenCo2)
        requires
            old(self).can_add(other),
        ensures
            *final(self) == old(self).plus(other),
    {
        self.ren = self.ren + other.ren;
        self.nren = self.nren + other.nren;
        self.co2 = self.co2 + other.co2;
    }
}

} // verus!

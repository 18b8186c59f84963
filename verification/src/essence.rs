//! The essence vector and its algebra.

use vstd::prelude::*;

verus! {

/// A quantity of essence as a point of the unbounded three-axis integer
/// lattice. This is the mathematical model of [`Essence`].
pub struct EssenceVector {
    pub yin_yang: int,
    pub water_fire: int,
    pub earth_air: int,
}

/// Two axis values agree in sign: both positive, both negative or both zero.
pub open spec fn same_sign(a: int, b: int) -> bool {
    (a > 0 && b > 0) || (a < 0 && b < 0) || (a == 0 && b == 0)
}

/// The sign of an axis value: -1, 0 or 1.
pub open spec fn signum(a: int) -> int {
    if a > 0 {
        1
    } else if a < 0 {
        -1
    } else {
        0
    }
}

/// The absolute value of an axis.
pub open spec fn abs(a: int) -> int {
    if a < 0 {
        -a
    } else {
        a
    }
}

impl EssenceVector {
    /// The vector with no essence on any axis.
    pub open spec fn zero() -> EssenceVector {
        EssenceVector { yin_yang: 0, water_fire: 0, earth_air: 0 }
    }

    /// Axis by axis sum.
    pub open spec fn combine(self, other: EssenceVector) -> EssenceVector {
        EssenceVector {
            yin_yang: self.yin_yang + other.yin_yang,
            water_fire: self.water_fire + other.water_fire,
            earth_air: self.earth_air + other.earth_air,
        }
    }

    /// Axis by axis difference.
    pub open spec fn remove(self, other: EssenceVector) -> EssenceVector {
        EssenceVector {
            yin_yang: self.yin_yang - other.yin_yang,
            water_fire: self.water_fire - other.water_fire,
            earth_air: self.earth_air - other.earth_air,
        }
    }

    /// Every axis multiplied by `k`.
    pub open spec fn scale(self, k: int) -> EssenceVector {
        EssenceVector {
            yin_yang: self.yin_yang * k,
            water_fire: self.water_fire * k,
            earth_air: self.earth_air * k,
        }
    }

    /// Both vectors are the same kind of essence whatever their
    /// magnitudes: on every axis the two values agree in sign.
    pub open spec fn same_direction(self, other: EssenceVector) -> bool {
        &&& same_sign(self.yin_yang, other.yin_yang)
        &&& same_sign(self.water_fire, other.water_fire)
        &&& same_sign(self.earth_air, other.earth_air)
    }

    /// The vector of the signs of the axes: each axis becomes -1, 0 or 1.
    pub open spec fn signum(self) -> EssenceVector {
        EssenceVector {
            yin_yang: signum(self.yin_yang),
            water_fire: signum(self.water_fire),
            earth_air: signum(self.earth_air),
        }
    }

    /// The sum of the absolute axis values.
    pub open spec fn magnitude(self) -> int {
        abs(self.yin_yang) + abs(self.water_fire) + abs(self.earth_air)
    }

    /// Every axis lies in the range of the machine's signed word.
    pub open spec fn fits(self) -> bool {
        &&& isize::MIN <= self.yin_yang <= isize::MAX
        &&& isize::MIN <= self.water_fire <= isize::MAX
        &&& isize::MIN <= self.earth_air <= isize::MAX
    }
}

/// Removing what was combined gives back what was there before.
pub proof fn lemma_remove_undoes_combine(a: EssenceVector, b: EssenceVector)
    ensures
        a.combine(b).remove(b) == a,
{
}

/// Combining does not depend on the order of the two vectors.
pub proof fn lemma_combine_commutative(a: EssenceVector, b: EssenceVector)
    ensures
        a.combine(b) == b.combine(a),
{
}

/// Combining three vectors does not depend on which two are combined
/// first.
pub proof fn lemma_combine_associative(a: EssenceVector, b: EssenceVector, c: EssenceVector)
    ensures
        a.combine(b).combine(c) == a.combine(b.combine(c)),
{
}

/// The unaligned vector changes nothing when it is combined with another.
pub proof fn lemma_combine_zero(a: EssenceVector)
    ensures
        a.combine(EssenceVector::zero()) == a,
        EssenceVector::zero().combine(a) == a,
{
}

/// No units of a vector are the unaligned vector, and one unit of a
/// vector is the vector.
pub proof fn lemma_scale_zero_one(a: EssenceVector)
    ensures
        a.scale(0) == EssenceVector::zero(),
        a.scale(1) == a,
{
}

/// One unit more of a vector is the vector combined with the units there
/// were.
pub proof fn lemma_scale_one_more(a: EssenceVector, k: int)
    ensures
        a.scale(k + 1) == a.scale(k).combine(a),
{
    assert(a.yin_yang * (k + 1) == a.yin_yang * k + a.yin_yang) by (nonlinear_arith);
    assert(a.water_fire * (k + 1) == a.water_fire * k + a.water_fire) by (nonlinear_arith);
    assert(a.earth_air * (k + 1) == a.earth_air * k + a.earth_air) by (nonlinear_arith);
}

/// Two vectors point the same way exactly when their axes have the same
/// signs. So one axis whose signs differ, zero against nonzero included,
/// is enough for the two not to point the same way, however the other two
/// axes agree.
pub proof fn lemma_same_direction_by_axis(a: EssenceVector, b: EssenceVector)
    ensures
        a.same_direction(b) <==> a.signum() == b.signum(),
        signum(a.yin_yang) != signum(b.yin_yang) ==> !a.same_direction(b),
        signum(a.water_fire) != signum(b.water_fire) ==> !a.same_direction(b),
        signum(a.earth_air) != signum(b.earth_air) ==> !a.same_direction(b),
{
}

/// A quantity of essence on the three axes yin/yang, water/fire and
/// earth/air, each a signed machine word.
#[derive(Debug, PartialEq, Eq, Clone, Copy, Hash, Structural)]
pub struct Essence {
    yin_yang: isize,
    water_fire: isize,
    earth_air: isize,
}

impl View for Essence {
    type V = EssenceVector;

    closed spec fn view(&self) -> EssenceVector {
        EssenceVector {
            yin_yang: self.yin_yang as int,
            water_fire: self.water_fire as int,
            earth_air: self.earth_air as int,
        }
    }
}

impl Essence {
    /// The essence with the given amounts on the three axes.
    pub fn new(yin_yang: isize, water_fire: isize, earth_air: isize) -> (e: Self)
        ensures
            e@.yin_yang == yin_yang,
            e@.water_fire == water_fire,
            e@.earth_air == earth_air,
    {
        Essence { yin_yang, water_fire, earth_air }
    }

    /// Combines `other` and `self` by adding like axes.
    pub fn combine(&self, other: &Self) -> (e: Self)
        requires
            self@.combine(other@).fits(),
        ensures
            e@ == self@.combine(other@),
    {
        Essence {
            yin_yang: self.yin_yang + other.yin_yang,
            water_fire: self.water_fire + other.water_fire,
            earth_air: self.earth_air + other.earth_air,
        }
    }

    /// Removes `other` from `self` by subtracting like axes.
    pub fn remove(&self, other: &Self) -> (e: Self)
        requires
            self@.remove(other@).fits(),
        ensures
            e@ == self@.remove(other@),
    {
        Essence {
            yin_yang: self.yin_yang - other.yin_yang,
            water_fire: self.water_fire - other.water_fire,
            earth_air: self.earth_air - other.earth_air,
        }
    }

    /// Whether `self` and `other` are the same kind of essence, all
    /// ratios ignored.
    pub fn contains(&self, other: &Self) -> (b: bool)
        ensures
            b == self@.same_direction(other@),
    {
        Self::same_direction(self.yin_yang, other.yin_yang)
            && Self::same_direction(self.water_fire, other.water_fire)
            && Self::same_direction(self.earth_air, other.earth_air)
    }

    fn same_direction(a: isize, b: isize) -> (r: bool)
        ensures
            r == same_sign(a as int, b as int),
    {
        (a > 0 && b > 0) || (a < 0 && b < 0) || (a == 0 && b == 0)
    }

    /// Multiplies the amount of essence on every axis by `i`.
    pub fn product(&self, i: usize) -> (e: Self)
        requires
            self@.scale(i as int).fits(),
        ensures
            e@ == self@.scale(i as int),
    {
        let yin_yang = scale_axis(self.yin_yang, i);
        let water_fire = scale_axis(self.water_fire, i);
        let earth_air = scale_axis(self.earth_air, i);
        Essence {
            yin_yang: yin_yang.unwrap(),
            water_fire: water_fire.unwrap(),
            earth_air: earth_air.unwrap(),
        }
    }

    /// `combine`, or `None` where a sum leaves the range of the machine's
    /// signed word.
    pub fn checked_combine(&self, other: &Self) -> (r: Option<Self>)
        ensures
            r is Some <==> self@.combine(other@).fits(),
            r is Some ==> r->0@ == self@.combine(other@),
    {
        let yin_yang = self.yin_yang.checked_add(other.yin_yang);
        let water_fire = self.water_fire.checked_add(other.water_fire);
        let earth_air = self.earth_air.checked_add(other.earth_air);
        match (yin_yang, water_fire, earth_air) {
            (Some(yin_yang), Some(water_fire), Some(earth_air)) => Some(
                Essence { yin_yang, water_fire, earth_air },
            ),
            _ => None,
        }
    }

    /// `remove`, or `None` where a difference leaves the range of the
    /// machine's signed word.
    pub fn checked_remove(&self, other: &Self) -> (r: Option<Self>)
        ensures
            r is Some <==> self@.remove(other@).fits(),
            r is Some ==> r->0@ == self@.remove(other@),
    {
        let yin_yang = self.yin_yang.checked_sub(other.yin_yang);
        let water_fire = self.water_fire.checked_sub(other.water_fire);
        let earth_air = self.earth_air.checked_sub(other.earth_air);
        match (yin_yang, water_fire, earth_air) {
            (Some(yin_yang), Some(water_fire), Some(earth_air)) => Some(
                Essence { yin_yang, water_fire, earth_air },
            ),
            _ => None,
        }
    }

    /// `product`, or `None` where a multiple leaves the range of the
    /// machine's signed word.
    pub fn checked_product(&self, i: usize) -> (r: Option<Self>)
        ensures
            r is Some <==> self@.scale(i as int).fits(),
            r is Some ==> r->0@ == self@.scale(i as int),
    {
        let yin_yang = scale_axis(self.yin_yang, i);
        let water_fire = scale_axis(self.water_fire, i);
        let earth_air = scale_axis(self.earth_air, i);
        match (yin_yang, water_fire, earth_air) {
            (Some(yin_yang), Some(water_fire), Some(earth_air)) => Some(
                Essence { yin_yang, water_fire, earth_air },
            ),
            _ => None,
        }
    }

    /// Two quantities are equal exactly when their models are.
    pub proof fn lemma_view_injective(a: Essence, b: Essence)
        ensures
            (a@ == b@) <==> (a == b),
    {
    }

    /// Every quantity's model lies in the machine range.
    pub proof fn lemma_view_fits(self)
        ensures
            self@.fits(),
    {
    }
}

/// One axis value times a coefficient, where the product fits the machine's
/// signed word.
fn scale_axis(a: isize, k: usize) -> (r: Option<isize>)
    ensures
        r is Some <==> isize::MIN <= a * k <= isize::MAX,
        r is Some ==> r->0 == a * k,
{
    if a == 0 || k == 0 {
        assert(a * k == 0) by (nonlinear_arith)
            requires
                a == 0 || k == 0,
        ;
        Some(0)
    } else if k <= isize::MAX as usize {
        a.checked_mul(k as isize)
    } else if a == -1 && k - 1 == isize::MAX as usize {
        assert(a * k == isize::MIN) by (nonlinear_arith)
            requires
                a == -1,
                k == isize::MAX + 1,
                isize::MIN == -isize::MAX - 1,
        ;
        Some(isize::MIN)
    } else {
        assert(a * k < isize::MIN || a * k > isize::MAX) by (nonlinear_arith)
            requires
                k > isize::MAX,
                a != 0,
                !(a == -1 && k == isize::MAX + 1),
                isize::MIN == -isize::MAX - 1,
        ;
        None
    }
}

} // verus!

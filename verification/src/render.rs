//! Rendering a vector as a sum of named kinds.
//!
//! A vector is taken apart greedily: as long as anything is left of it,
//! the catalog is scanned in its order of priority, and each kind that
//! points the way of what is left is taken out of it once. How often a
//! kind comes out has a closed form, [`units_of`], and the rendering is
//! stated over it. Two laws tie the closed form to the taking apart:
//! nothing holds no unit ([`lemma_units_of_nothing`]), and taking out of
//! a vector the unit that points its way lowers the count of that unit by
//! one and changes no other ([`lemma_take_unit`]).

use vstd::prelude::*;
use crate::catalog::{kind, kind_at, kind_index, kind_name, lemma_kind_index, name_at, KINDS};
use crate::essence::{abs, Essence, EssenceVector};
use crate::text::{decimal, decimal_string};
use vstd::string::StringExecFns;

verus! {

/// The smaller of two integers.
pub open spec fn least(a: int, b: int) -> int {
    if a <= b {
        a
    } else {
        b
    }
}

/// The larger of two integers.
pub open spec fn greatest(a: int, b: int) -> int {
    if a >= b {
        a
    } else {
        b
    }
}

/// How far the axis value `v` goes the way of the unit axis `u`, which is
/// 1 or -1.
pub open spec fn along(u: int, v: int) -> int {
    if u > 0 {
        v
    } else {
        -v
    }
}

/// The size of the axis value `v` where the unit axis `u` is zero, else
/// zero.
pub open spec fn beside(u: int, v: int) -> int {
    if u == 0 {
        abs(v)
    } else {
        0
    }
}

/// Every axis is -1, 0 or 1.
pub open spec fn is_unit(u: EssenceVector) -> bool {
    &&& -1 <= u.yin_yang <= 1
    &&& -1 <= u.water_fire <= 1
    &&& -1 <= u.earth_air <= 1
}

/// The least amount that `v` has along `u` on an axis that `u` touches;
/// zero where `u` touches none.
pub open spec fn reach(v: EssenceVector, u: EssenceVector) -> int {
    let a = along(u.yin_yang, v.yin_yang);
    let b = along(u.water_fire, v.water_fire);
    let c = along(u.earth_air, v.earth_air);
    if u.yin_yang != 0 {
        if u.water_fire != 0 {
            if u.earth_air != 0 {
                least(a, least(b, c))
            } else {
                least(a, b)
            }
        } else if u.earth_air != 0 {
            least(a, c)
        } else {
            a
        }
    } else if u.water_fire != 0 {
        if u.earth_air != 0 {
            least(b, c)
        } else {
            b
        }
    } else if u.earth_air != 0 {
        c
    } else {
        0
    }
}

/// The largest amount that `v` has on an axis that `u` does not touch.
pub open spec fn spill(v: EssenceVector, u: EssenceVector) -> int {
    greatest(
        beside(u.yin_yang, v.yin_yang),
        greatest(beside(u.water_fire, v.water_fire), beside(u.earth_air, v.earth_air)),
    )
}

/// The number of times the unit `u` occurs in the decomposition of `v`:
/// by how much `v` reaches further along the axes of `u` than on any
/// other axis.
#[verifier::opaque]
pub open spec fn units_of(v: EssenceVector, u: EssenceVector) -> int {
    if reach(v, u) > spill(v, u) {
        reach(v, u) - spill(v, u)
    } else {
        0
    }
}

/// The vector with nothing on any axis holds no unit.
pub proof fn lemma_units_of_nothing(u: EssenceVector)
    requires
        is_unit(u),
    ensures
        units_of(EssenceVector::zero(), u) == 0,
{
    reveal(units_of);
}

/// Taking the unit of its own direction out of a vector lowers the count
/// of that unit by one, leaves the count of every other unit as it was,
/// and leaves less of the vector.
pub proof fn lemma_take_unit(v: EssenceVector, u: EssenceVector)
    requires
        is_unit(u),
        v != EssenceVector::zero(),
    ensures
        units_of(v.remove(v.signum()), u) == units_of(v, u) - (if u == v.signum() {
            1int
        } else {
            0int
        }),
        v.remove(v.signum()).magnitude() < v.magnitude(),
{
    reveal(units_of);
}

/// One term of a rendering: the name alone for a single unit, else the
/// count, `*` and the name.
pub open spec fn term(count: int, name: Seq<char>) -> Seq<char> {
    if count == 1 {
        name
    } else {
        decimal(count as nat) + seq!['*'] + name
    }
}

/// The terms of the first `n` kinds of the catalog that occur in `v`, in
/// the order of priority, joined by `+`.
pub open spec fn terms(v: EssenceVector, n: int) -> Seq<char>
    decreases n,
{
    if n <= 0 {
        Seq::empty()
    } else {
        let before = terms(v, n - 1);
        let count = units_of(v, kind(n - 1));
        if count == 0 {
            before
        } else if before.len() == 0 {
            term(count, kind_name(n - 1))
        } else {
            before + seq!['+'] + term(count, kind_name(n - 1))
        }
    }
}

/// The rendering of `v`: its terms over all kinds that touch an axis, or
/// the name of the unaligned kind where there is none.
pub open spec fn rendering(v: EssenceVector) -> Seq<char> {
    if terms(v, KINDS - 1).len() == 0 {
        kind_name(KINDS - 1)
    } else {
        terms(v, KINDS - 1)
    }
}

impl Essence {
    /// Takes the essence apart into kinds. The result holds, for each
    /// place of the order of priority, how many units of that kind the
    /// essence is made of.
    ///
    /// Each pass over the catalog ends as soon as nothing is left, so the
    /// unaligned kind, last in the order, is never counted.
    pub fn decompose(&self) -> (counts: Vec<usize>)
        ensures
            counts@.len() == KINDS,
            forall|i: int| 0 <= i < KINDS ==> counts@[i] == units_of(self@, #[trigger] kind(i)),
    {
        let zero = Essence::new(0, 0, 0);
        let mut counts: Vec<usize> = Vec::new();
        while counts.len() < KINDS
            invariant
                counts@.len() <= KINDS,
                forall|i: int| 0 <= i < counts@.len() ==> counts@[i] == 0,
            decreases KINDS - counts@.len(),
        {
            counts.push(0);
        }
        let mut left = *self;
        while left != zero
            invariant
                zero@ == EssenceVector::zero(),
                counts@.len() == KINDS,
                forall|i: int|
                    0 <= i < KINDS ==> counts@[i] + units_of(left@, #[trigger] kind(i)) == units_of(
                        self@,
                        kind(i),
                    ),
            decreases left@.magnitude(),
        {
            let ghost start = left@;
            proof {
                Essence::lemma_view_injective(left, zero);
            }
            let mut i: usize = 0;
            while i < KINDS && left != zero
                invariant
                    zero@ == EssenceVector::zero(),
                    start != EssenceVector::zero(),
                    i <= KINDS,
                    counts@.len() == KINDS,
                    forall|j: int|
                        0 <= j < KINDS ==> counts@[j] + units_of(left@, #[trigger] kind(j))
                            == units_of(self@, kind(j)),
                    left@.magnitude() < start.magnitude() || (left@ == start && i <= kind_index(
                        start,
                    )),
                decreases KINDS - i,
            {
                let unit = kind_at(i);
                proof {
                    Essence::lemma_view_injective(left, zero);
                    lemma_kind_index(left@);
                    left.lemma_view_fits();
                }
                if left.contains(&unit) {
                    proof {
                        assert forall|j: int| 0 <= j < KINDS implies units_of(
                            left@.remove(unit@),
                            #[trigger] kind(j),
                        ) == units_of(left@, kind(j)) - (if j == i {
                            1int
                        } else {
                            0int
                        }) by {
                            lemma_kind_index(kind(j));
                            lemma_take_unit(left@, kind(j));
                        }
                        lemma_take_unit(left@, unit@);
                        lemma_units_bound(left@.remove(unit@), unit@);
                        lemma_units_bound(self@, unit@);
                        self.lemma_view_fits();
                    }
                    left = left.remove(&unit);
                    counts.set(i, counts[i] + 1);
                }
                i += 1;
            }
            proof {
                lemma_kind_index(start);
            }
        }
        proof {
            Essence::lemma_view_injective(left, zero);
            assert forall|i: int| 0 <= i < KINDS implies units_of(left@, #[trigger] kind(i))
                == 0 by {
                lemma_kind_index(kind(i));
                lemma_units_of_nothing(kind(i));
            }
        }
        counts
    }

    /// Turns the essence into a string such as `2*sun/light+lightning`:
    /// the kinds it is made of, in the order of priority, each with its
    /// count where that is more than one, joined by `+`. The essence with
    /// nothing on any axis is `unaligned`.
    pub fn to_string(&self) -> (s: String)
        ensures
            s@ == rendering(self@),
    {
        let counts = self.decompose();
        let mut s = String::new();
        let mut i: usize = 0;
        while i < KINDS - 1
            invariant
                i <= KINDS - 1,
                counts@.len() == KINDS,
                forall|j: int|
                    0 <= j < KINDS ==> counts@[j] == units_of(self@, #[trigger] kind(j)),
                s@ == terms(self@, i as int),
            decreases KINDS - i,
        {
            let count = counts[i];
            if count != 0 {
                if !s.as_str().is_empty() {
                    s.append("+");
                }
                if count != 1 {
                    s.append(decimal_string(count).as_str());
                    s.append("*");
                }
                s.append(name_at(i));
                proof {
                    reveal_strlit("+");
                    reveal_strlit("*");
                }
            }
            i += 1;
        }
        if s.as_str().is_empty() {
            s.append(name_at(KINDS - 1));
        }
        s
    }
}

/// No unit occurs more often in a vector than the largest of its axes is
/// large.
pub proof fn lemma_units_bound(v: EssenceVector, u: EssenceVector)
    requires
        is_unit(u),
    ensures
        0 <= units_of(v, u) <= greatest(
            abs(v.yin_yang),
            greatest(abs(v.water_fire), abs(v.earth_air)),
        ),
{
    reveal(units_of);
}

} // verus!

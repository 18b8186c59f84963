//! What the parts of the library have to do with each other.

use vstd::prelude::*;
use crate::ast::Expression;
use crate::catalog::{
    answers_to, find_name, has_part, kind, kind_index, kind_name, lemma_kind_index, lookup, KINDS,
};
use crate::essence::{lemma_scale_one_more, EssenceVector};
use crate::grammar::{
    atom_at, in_class, parse, rest_at, run_end, term_at, word_at, Class, Failure,
};
use crate::render::{
    is_unit, lemma_take_unit, lemma_units_of_nothing, rendering, terms, units_of,
};
use crate::text::{lower, lowered, normal_form, trimmed};

verus! {

/// The names to which the kind at place `i` answers, written out: its
/// primary name and each synonym that the name lists.
pub open spec fn is_key_of(i: int, key: Seq<char>) -> bool {
    if i == 0 {
        key == "lightning"@
    } else if i == 1 {
        key == "cloud/mist"@ || key == "cloud"@ || key == "mist"@
    } else if i == 2 {
        key == "wood/life"@ || key == "wood"@ || key == "life"@
    } else if i == 3 {
        key == "metal"@
    } else if i == 4 {
        key == "destruction/death"@ || key == "destruction"@ || key == "death"@
    } else if i == 5 {
        key == "acid/corrosion"@ || key == "acid"@ || key == "corrosion"@
    } else if i == 6 {
        key == "miasma"@
    } else if i == 7 {
        key == "force"@
    } else if i == 8 {
        key == "sun/light"@ || key == "sun"@ || key == "light"@
    } else if i == 9 {
        key == "sky"@
    } else if i == 10 {
        key == "purity/healing"@ || key == "purity"@ || key == "healing"@
    } else if i == 11 {
        key == "gravity"@
    } else if i == 12 {
        key == "heat"@
    } else if i == 13 {
        key == "ice"@
    } else if i == 14 {
        key == "mud"@
    } else if i == 15 {
        key == "magma"@
    } else if i == 16 {
        key == "plasma"@
    } else if i == 17 {
        key == "abyss/darkness/moon"@ || key == "abyss"@ || key == "darkness"@ || key == "moon"@
    } else if i == 18 {
        key == "vacuum/void"@ || key == "vacuum"@ || key == "void"@
    } else if i == 19 {
        key == "stone"@
    } else if i == 20 {
        key == "yin"@
    } else if i == 21 {
        key == "yang"@
    } else if i == 22 {
        key == "water"@
    } else if i == 23 {
        key == "fire"@
    } else if i == 24 {
        key == "earth"@
    } else if i == 25 {
        key == "air"@
    } else {
        key == "unaligned"@
    }
}

/// A kind answers to the names written out for it, and to no other.
pub proof fn lemma_keys(i: int, key: Seq<char>)
    requires
        0 <= i < KINDS,
    ensures
        answers_to(kind_name(i), key) <==> is_key_of(i, key),
{
    let name = kind_name(i);
    reveal_strlit("abyss");
    reveal_strlit("abyss/darkness/moon");
    reveal_strlit("acid");
    reveal_strlit("acid/corrosion");
    reveal_strlit("air");
    reveal_strlit("cloud");
    reveal_strlit("cloud/mist");
    reveal_strlit("corrosion");
    reveal_strlit("darkness");
    reveal_strlit("death");
    reveal_strlit("destruction");
    reveal_strlit("destruction/death");
    reveal_strlit("earth");
    reveal_strlit("fire");
    reveal_strlit("force");
    reveal_strlit("gravity");
    reveal_strlit("healing");
    reveal_strlit("heat");
    reveal_strlit("ice");
    reveal_strlit("life");
    reveal_strlit("light");
    reveal_strlit("lightning");
    reveal_strlit("magma");
    reveal_strlit("metal");
    reveal_strlit("miasma");
    reveal_strlit("mist");
    reveal_strlit("moon");
    reveal_strlit("mud");
    reveal_strlit("plasma");
    reveal_strlit("purity");
    reveal_strlit("purity/healing");
    reveal_strlit("sky");
    reveal_strlit("stone");
    reveal_strlit("sun");
    reveal_strlit("sun/light");
    reveal_strlit("unaligned");
    reveal_strlit("vacuum");
    reveal_strlit("vacuum/void");
    reveal_strlit("void");
    reveal_strlit("water");
    reveal_strlit("wood");
    reveal_strlit("wood/life");
    reveal_strlit("yang");
    reveal_strlit("yin");
    reveal_with_fuel(has_part, 21);
    if i == 1 {
        assert(name.subrange(0, 5) =~= "cloud"@);
        assert(name.subrange(6, 10) =~= "mist"@);
    }
    if i == 2 {
        assert(name.subrange(0, 4) =~= "wood"@);
        assert(name.subrange(5, 9) =~= "life"@);
    }
    if i == 4 {
        assert(name.subrange(0, 11) =~= "destruction"@);
        assert(name.subrange(12, 17) =~= "death"@);
    }
    if i == 5 {
        assert(name.subrange(0, 4) =~= "acid"@);
        assert(name.subrange(5, 14) =~= "corrosion"@);
    }
    if i == 8 {
        assert(name.subrange(0, 3) =~= "sun"@);
        assert(name.subrange(4, 9) =~= "light"@);
    }
    if i == 10 {
        assert(name.subrange(0, 6) =~= "purity"@);
        assert(name.subrange(7, 14) =~= "healing"@);
    }
    if i == 17 {
        assert(name.subrange(0, 5) =~= "abyss"@);
        assert(name.subrange(6, 14) =~= "darkness"@);
        assert(name.subrange(15, 19) =~= "moon"@);
    }
    if i == 18 {
        assert(name.subrange(0, 6) =~= "vacuum"@);
        assert(name.subrange(7, 11) =~= "void"@);
    }
    assert(name.subrange(0, name.len() as int) =~= name);
}

/// A letter in lower case, or the `/` that parts synonyms.
pub open spec fn is_plain(c: char) -> bool {
    ('a' <= c && c <= 'z') || c == '/'
}

/// The text is not empty and holds plain characters only.
pub open spec fn is_plain_text(s: Seq<char>) -> bool {
    s.len() > 0 && forall|k: int| 0 <= k < s.len() ==> is_plain(#[trigger] s[k])
}

/// The length of a text with its first and its last character: enough to
/// tell the names of the catalog apart.
spec fn mark(s: Seq<char>) -> (nat, char, char) {
    (s.len(), s[0], s[s.len() - 1])
}

/// Of all kinds, only the kind itself answers to its primary name.
pub proof fn lemma_own_key(i: int, j: int)
    requires
        0 <= i < KINDS,
        0 <= j < KINDS,
    ensures
        is_key_of(j, kind_name(i)) <==> j == i,
{
    reveal_strlit("abyss");
    reveal_strlit("abyss/darkness/moon");
    reveal_strlit("acid");
    reveal_strlit("acid/corrosion");
    reveal_strlit("air");
    reveal_strlit("cloud");
    reveal_strlit("cloud/mist");
    reveal_strlit("corrosion");
    reveal_strlit("darkness");
    reveal_strlit("death");
    reveal_strlit("destruction");
    reveal_strlit("destruction/death");
    reveal_strlit("earth");
    reveal_strlit("fire");
    reveal_strlit("force");
    reveal_strlit("gravity");
    reveal_strlit("healing");
    reveal_strlit("heat");
    reveal_strlit("ice");
    reveal_strlit("life");
    reveal_strlit("light");
    reveal_strlit("lightning");
    reveal_strlit("magma");
    reveal_strlit("metal");
    reveal_strlit("miasma");
    reveal_strlit("mist");
    reveal_strlit("moon");
    reveal_strlit("mud");
    reveal_strlit("plasma");
    reveal_strlit("purity");
    reveal_strlit("purity/healing");
    reveal_strlit("sky");
    reveal_strlit("stone");
    reveal_strlit("sun");
    reveal_strlit("sun/light");
    reveal_strlit("unaligned");
    reveal_strlit("vacuum");
    reveal_strlit("vacuum/void");
    reveal_strlit("void");
    reveal_strlit("water");
    reveal_strlit("wood");
    reveal_strlit("wood/life");
    reveal_strlit("yang");
    reveal_strlit("yin");
    assert(mark("abyss"@) == (5nat, 'a', 's'));
    assert(mark("abyss/darkness/moon"@) == (19nat, 'a', 'n'));
    assert(mark("acid"@) == (4nat, 'a', 'd'));
    assert(mark("acid/corrosion"@) == (14nat, 'a', 'n'));
    assert(mark("air"@) == (3nat, 'a', 'r'));
    assert(mark("cloud"@) == (5nat, 'c', 'd'));
    assert(mark("cloud/mist"@) == (10nat, 'c', 't'));
    assert(mark("corrosion"@) == (9nat, 'c', 'n'));
    assert(mark("darkness"@) == (8nat, 'd', 's'));
    assert(mark("death"@) == (5nat, 'd', 'h'));
    assert(mark("destruction"@) == (11nat, 'd', 'n'));
    assert(mark("destruction/death"@) == (17nat, 'd', 'h'));
    assert(mark("earth"@) == (5nat, 'e', 'h'));
    assert(mark("fire"@) == (4nat, 'f', 'e'));
    assert(mark("force"@) == (5nat, 'f', 'e'));
    assert(mark("gravity"@) == (7nat, 'g', 'y'));
    assert(mark("healing"@) == (7nat, 'h', 'g'));
    assert(mark("heat"@) == (4nat, 'h', 't'));
    assert(mark("ice"@) == (3nat, 'i', 'e'));
    assert(mark("life"@) == (4nat, 'l', 'e'));
    assert(mark("light"@) == (5nat, 'l', 't'));
    assert(mark("lightning"@) == (9nat, 'l', 'g'));
    assert(mark("magma"@) == (5nat, 'm', 'a'));
    assert(mark("metal"@) == (5nat, 'm', 'l'));
    assert(mark("miasma"@) == (6nat, 'm', 'a'));
    assert(mark("mist"@) == (4nat, 'm', 't'));
    assert(mark("moon"@) == (4nat, 'm', 'n'));
    assert(mark("mud"@) == (3nat, 'm', 'd'));
    assert(mark("plasma"@) == (6nat, 'p', 'a'));
    assert(mark("purity"@) == (6nat, 'p', 'y'));
    assert(mark("purity/healing"@) == (14nat, 'p', 'g'));
    assert(mark("sky"@) == (3nat, 's', 'y'));
    assert(mark("stone"@) == (5nat, 's', 'e'));
    assert(mark("sun"@) == (3nat, 's', 'n'));
    assert(mark("sun/light"@) == (9nat, 's', 't'));
    assert(mark("unaligned"@) == (9nat, 'u', 'd'));
    assert(mark("vacuum"@) == (6nat, 'v', 'm'));
    assert(mark("vacuum/void"@) == (11nat, 'v', 'd'));
    assert(mark("void"@) == (4nat, 'v', 'd'));
    assert(mark("water"@) == (5nat, 'w', 'r'));
    assert(mark("wood"@) == (4nat, 'w', 'd'));
    assert(mark("wood/life"@) == (9nat, 'w', 'e'));
    assert(mark("yang"@) == (4nat, 'y', 'g'));
    assert(mark("yin"@) == (3nat, 'y', 'n'));
}

/// Every primary name is a plain text.
pub proof fn lemma_names_plain(i: int)
    requires
        0 <= i < KINDS,
    ensures
        is_plain_text(kind_name(i)),
{
    reveal_strlit("lightning");
    reveal_strlit("cloud/mist");
    reveal_strlit("wood/life");
    reveal_strlit("metal");
    reveal_strlit("destruction/death");
    reveal_strlit("acid/corrosion");
    reveal_strlit("miasma");
    reveal_strlit("force");
    reveal_strlit("sun/light");
    reveal_strlit("sky");
    reveal_strlit("purity/healing");
    reveal_strlit("gravity");
    reveal_strlit("heat");
    reveal_strlit("ice");
    reveal_strlit("mud");
    reveal_strlit("magma");
    reveal_strlit("plasma");
    reveal_strlit("abyss/darkness/moon");
    reveal_strlit("vacuum/void");
    reveal_strlit("stone");
    reveal_strlit("yin");
    reveal_strlit("yang");
    reveal_strlit("water");
    reveal_strlit("fire");
    reveal_strlit("earth");
    reveal_strlit("air");
    reveal_strlit("unaligned");
}

/// The first kind that answers to a primary name is the kind of that
/// name.
pub proof fn lemma_find_own_name(i: int)
    requires
        0 <= i < KINDS,
    ensures
        find_name(kind_name(i), 0) == i,
{
    lemma_find_from(i, 0);
}

proof fn lemma_find_from(i: int, from: int)
    requires
        0 <= from <= i < KINDS,
    ensures
        find_name(kind_name(i), from) == i,
    decreases i - from,
{
    lemma_keys(from, kind_name(i));
    lemma_own_key(i, from);
    if from < i {
        lemma_find_from(i, from + 1);
    }
}

/// A plain text is its own normal form.
pub proof fn lemma_plain_is_normal(s: Seq<char>)
    requires
        is_plain_text(s),
    ensures
        normal_form(s) == s,
{
    assert(is_plain(s[0]));
    assert(is_plain(s[s.len() - 1]));
    assert forall|k: int| 0 <= k < s.len() implies lower(#[trigger] s[k]) == s[k] by {
        assert(is_plain(s[k]));
    }
    assert(lowered(s) =~= s);
    assert(trimmed(s) =~= s);
}

/// A primary name names its own kind.
pub proof fn lemma_lookup_own_name(i: int)
    requires
        0 <= i < KINDS,
    ensures
        lookup(kind_name(i)) == Some(kind(i)),
{
    lemma_names_plain(i);
    lemma_plain_is_normal(kind_name(i));
    lemma_find_own_name(i);
}

/// Where every character from `at` to the end of the text is of the
/// class, the run that starts at `at` ends with the text.
proof fn lemma_run_to_end(s: Seq<char>, at: int, class: Class)
    requires
        0 <= at <= s.len(),
        forall|k: int| at <= k < s.len() ==> in_class(#[trigger] s[k], class),
    ensures
        run_end(s, at, class) == s.len(),
    decreases s.len() - at,
{
    if at < s.len() {
        assert(in_class(s[at], class));
        lemma_run_to_end(s, at + 1, class);
    }
}

/// A plain text that names a kind parses, whole, as one unit of that
/// kind.
pub proof fn lemma_parse_name(s: Seq<char>, unit: EssenceVector)
    requires
        is_plain_text(s),
        lookup(s) == Some(unit),
    ensures
        parse(s) == Ok::<(Expression, int), Failure>((Expression::Atom(1, unit), s.len() as int)),
{
    assert(is_plain(s[0]));
    assert forall|k: int| 0 <= k < s.len() implies in_class(#[trigger] s[k], Class::Word) by {
        assert(is_plain(s[k]));
    }
    lemma_run_to_end(s, 0, Class::Word);
    assert(s.subrange(0, s.len() as int) =~= s);
    assert(run_end(s, 0, Class::Blank) == 0);
    assert(run_end(s, 0, Class::Digit) == 0);
    assert(run_end(s, s.len() as int, Class::Blank) == s.len());
    let read = (Expression::Atom(1, unit), s.len() as int);
    assert(word_at(s, 0, 1) == Ok::<(Expression, int), Failure>(read));
    assert(atom_at(s, 0) == Ok::<(Expression, int), Failure>(read));
    assert(term_at(s, 0) == Ok::<(Expression, int), Failure>(read));
    assert(rest_at(s, s.len() as int, read.0) == read);
}

/// The vector made of the units that `v` holds of the first `n` kinds of
/// the catalog.
pub open spec fn sum_of_units(v: EssenceVector, n: int) -> EssenceVector
    decreases n,
{
    if n <= 0 {
        EssenceVector::zero()
    } else {
        sum_of_units(v, n - 1).combine(kind(n - 1).scale(units_of(v, kind(n - 1))))
    }
}

/// The units that a vector holds of the kinds of the catalog add up to
/// the vector: what a rendering says is the vector that was rendered.
pub proof fn lemma_units_add_up(v: EssenceVector)
    ensures
        sum_of_units(v, KINDS as int) == v,
    decreases v.magnitude(),
{
    if v == EssenceVector::zero() {
        assert forall|j: int| 0 <= j < KINDS implies units_of(v, #[trigger] kind(j)) == 0 by {
            lemma_kind_index(kind(j));
            lemma_units_of_nothing(kind(j));
        }
        lemma_sum_of_nothing(v, KINDS as int);
    } else {
        let less = v.remove(v.signum());
        lemma_kind_index(v);
        assert forall|j: int| 0 <= j < KINDS implies units_of(v, #[trigger] kind(j)) == units_of(
            less,
            kind(j),
        ) + if j == kind_index(v) {
            1int
        } else {
            0int
        } by {
            lemma_kind_index(kind(j));
            lemma_take_unit(v, kind(j));
        }
        lemma_take_unit(v, v.signum());
        lemma_units_add_up(less);
        lemma_sum_with_one_more(v, less, kind_index(v), KINDS as int);
    }
}

/// Where a vector holds no unit of any kind, its units add up to nothing.
proof fn lemma_sum_of_nothing(v: EssenceVector, n: int)
    requires
        0 <= n <= KINDS,
        forall|j: int| 0 <= j < KINDS ==> units_of(v, #[trigger] kind(j)) == 0,
    ensures
        sum_of_units(v, n) == EssenceVector::zero(),
    decreases n,
{
    if n > 0 {
        lemma_sum_of_nothing(v, n - 1);
    }
}

/// Where `v` holds one unit more than `less` of the kind at place `i`, and
/// as many of every other kind, the units of `v` add up to those of
/// `less` and that kind.
proof fn lemma_sum_with_one_more(v: EssenceVector, less: EssenceVector, i: int, n: int)
    requires
        0 <= i < KINDS,
        0 <= n <= KINDS,
        forall|j: int|
            0 <= j < KINDS ==> units_of(v, #[trigger] kind(j)) == units_of(less, kind(j)) + if j
                == i {
                1int
            } else {
                0int
            },
    ensures
        sum_of_units(v, n) == if i < n {
            sum_of_units(less, n).combine(kind(i))
        } else {
            sum_of_units(less, n)
        },
    decreases n,
{
    if n > 0 {
        lemma_sum_with_one_more(v, less, i, n - 1);
        let unit = kind(n - 1);
        assert(units_of(v, unit) == units_of(less, unit) + if n - 1 == i {
            1int
        } else {
            0int
        });
        if n - 1 == i {
            lemma_scale_one_more(unit, units_of(less, unit));
        }
    }
}

/// A unit occurs once in itself, and no other unit occurs in it.
pub proof fn lemma_units_of_unit(u: EssenceVector, w: EssenceVector)
    requires
        is_unit(u),
        is_unit(w),
    ensures
        units_of(u, w) == if w == u && u != EssenceVector::zero() {
            1int
        } else {
            0int
        },
{
    reveal(units_of);
}

/// The terms of a kind are its name, from the place of the kind on.
proof fn lemma_terms_of_kind(i: int, n: int)
    requires
        0 <= i < KINDS,
        0 <= n < KINDS,
    ensures
        terms(kind(i), n) == if i < n {
            kind_name(i)
        } else {
            Seq::empty()
        },
    decreases n,
{
    if n > 0 {
        lemma_terms_of_kind(i, n - 1);
        lemma_kind_index(kind(i));
        lemma_kind_index(kind(n - 1));
        lemma_units_of_unit(kind(i), kind(n - 1));
        lemma_names_plain(i);
    }
}

/// A kind renders as its primary name.
pub proof fn lemma_rendering_of_kind(i: int)
    requires
        0 <= i < KINDS,
    ensures
        rendering(kind(i)) == kind_name(i),
{
    lemma_terms_of_kind(i, KINDS - 1);
    lemma_names_plain(i);
}

/// The vector with nothing on any axis renders as `unaligned`.
pub proof fn lemma_zero_is_unaligned()
    ensures
        rendering(EssenceVector::zero()) == "unaligned"@,
{
    lemma_rendering_of_kind(KINDS - 1);
}

/// The rendering of each kind of the catalog parses, whole, and what it
/// parses to evaluates to the kind.
pub proof fn lemma_round_trip(i: int)
    requires
        0 <= i < KINDS,
    ensures
        parse(rendering(kind(i))) matches Ok((tree, next)) && tree.value() == kind(i) && next
            == rendering(kind(i)).len(),
{
    lemma_rendering_of_kind(i);
    lemma_names_plain(i);
    lemma_lookup_own_name(i);
    lemma_parse_name(kind_name(i), kind(i));
}

} // verus!

//! What is rendered can be read again: the rendering of a vector parses,
//! whole, to an expression whose value is the vector.

use vstd::prelude::*;
use crate::ast::Expression;
use crate::catalog::{kind, kind_index, kind_name, lemma_kind_index, lookup, KINDS};
use crate::essence::{lemma_scale_zero_one, EssenceVector};
use crate::grammar::{
    atom_at, expr_at, holds, in_class, number, parse, rest_at, run_end, term_at, word_at, Class,
    Failure,
};
use crate::laws::{
    is_plain, is_plain_text, lemma_lookup_own_name, lemma_names_plain, lemma_parse_name,
    lemma_units_add_up, sum_of_units,
};
use crate::render::{greatest, lemma_units_bound, rendering, term, terms, units_of};
use crate::text::{decimal, digit_char};

verus! {

/// A decimal numeral is made of digits and stands for its number.
pub proof fn lemma_decimal(n: nat)
    ensures
        decimal(n).len() >= 1,
        forall|k: int| 0 <= k < decimal(n).len() ==> in_class(#[trigger] decimal(n)[k], Class::Digit),
        number(decimal(n)) == n,
    decreases n,
{
    if n < 10 {
        assert(decimal(n).drop_last() =~= Seq::<char>::empty());
        assert(number(decimal(n).drop_last()) == 0);
    } else {
        lemma_decimal(n / 10);
        assert(decimal(n).drop_last() =~= decimal(n / 10));
    }
}

/// Where the characters from `at` up to `end` are of the class and the
/// one at `end`, if there is one, is not, the run that starts at `at`
/// ends at `end`.
proof fn lemma_run_exact(s: Seq<char>, at: int, end: int, class: Class)
    requires
        0 <= at <= end <= s.len(),
        forall|k: int| at <= k < end ==> in_class(#[trigger] s[k], class),
        end < s.len() ==> !in_class(s[end], class),
    ensures
        run_end(s, at, class) == end,
    decreases end - at,
{
    if at < end {
        assert(in_class(s[at], class));
        lemma_run_exact(s, at + 1, end, class);
    }
}

/// Where the text holds, from `at`, the primary name of a kind, and then
/// ends or goes on with `+`, the word at `at` is read as that kind.
proof fn lemma_word_text(s: Seq<char>, at: int, coefficient: nat, i: int)
    requires
        0 <= i < KINDS,
        0 <= at,
        at + kind_name(i).len() <= s.len(),
        s.subrange(at, at + kind_name(i).len()) == kind_name(i),
        at + kind_name(i).len() < s.len() ==> s[at + kind_name(i).len()] == '+',
    ensures
        word_at(s, at, coefficient) == Ok::<(Expression, int), Failure>(
            (Expression::Atom(coefficient, kind(i)), at + kind_name(i).len()),
        ),
        !in_class(s[at], Class::Blank),
        !in_class(s[at], Class::Digit),
        s[at] != '(',
        s[at] != '-',
{
    let name = kind_name(i);
    let end = at + name.len();
    lemma_names_plain(i);
    lemma_lookup_own_name(i);
    assert forall|k: int| at <= k < end implies in_class(#[trigger] s[k], Class::Word) by {
        assert(s[k] == name[k - at]);
        assert(is_plain(name[k - at]));
    }
    assert(s[at] == name[0]);
    assert(is_plain(name[0]));
    lemma_run_exact(s, at, end, Class::Word);
    lemma_run_exact(s, end, end, Class::Blank);
}

/// Where the text holds, from `at`, the term of `count` units of a kind,
/// and then ends or goes on with `+`, the term at `at` is read as that
/// many units of the kind.
proof fn lemma_term_text(s: Seq<char>, at: int, count: int, i: int)
    requires
        0 <= i < KINDS,
        1 <= count <= usize::MAX,
        0 <= at,
        at + term(count, kind_name(i)).len() <= s.len(),
        s.subrange(at, at + term(count, kind_name(i)).len()) == term(count, kind_name(i)),
        at + term(count, kind_name(i)).len() < s.len() ==> s[at + term(count, kind_name(i)).len()]
            == '+',
    ensures
        term_at(s, at) == Ok::<(Expression, int), Failure>(
            (Expression::Atom(count as nat, kind(i)), at + term(count, kind_name(i)).len()),
        ),
        !in_class(s[at], Class::Blank),
        s[at] != '-',
{
    let name = kind_name(i);
    let text = term(count, name);
    lemma_names_plain(i);
    if count == 1 {
        lemma_word_text(s, at, 1, i);
        lemma_run_exact(s, at, at, Class::Blank);
        lemma_run_exact(s, at, at, Class::Digit);
        assert(atom_at(s, at) == word_at(s, at, 1));
    } else {
        let digits = decimal(count as nat);
        lemma_decimal(count as nat);
        let star = at + digits.len();
        assert(text == digits + seq!['*'] + name);
        assert forall|k: int| at <= k < star implies in_class(#[trigger] s[k], Class::Digit) by {
            assert(s[k] == text[k - at]);
            assert(text[k - at] == digits[k - at]);
        }
        assert(s[star] == text[star - at]);
        assert(s[star] == '*');
        assert(s[at] == text[0]);
        assert(in_class(s[at], Class::Digit));
        assert(s.subrange(at, star) =~= digits) by {
            assert forall|k: int| 0 <= k < digits.len() implies s.subrange(at, star)[k]
                == digits[k] by {
                assert(s[at + k] == text[k]);
            }
        }
        assert(s.subrange(star + 1, star + 1 + name.len()) =~= name) by {
            assert forall|k: int| 0 <= k < name.len() implies s.subrange(
                star + 1,
                star + 1 + name.len(),
            )[k] == name[k] by {
                assert(s[star + 1 + k] == text[star + 1 + k - at]);
            }
        }
        lemma_word_text(s, star + 1, count as nat, i);
        lemma_run_exact(s, at, at, Class::Blank);
        lemma_run_exact(s, at, star, Class::Digit);
        lemma_run_exact(s, star, star, Class::Blank);
        lemma_run_exact(s, star + 1, star + 1, Class::Blank);
        assert(holds(s, star, '*'));
        assert(atom_at(s, at) == word_at(s, star + 1, count as nat));
    }
}

/// The expression that the terms of the first `n` kinds of `v` stand for:
/// the sum, bound to the left, of one atom for each kind that occurs in
/// `v`; none where no kind occurs.
pub open spec fn sum_of_terms(v: EssenceVector, n: int) -> Option<Expression>
    decreases n,
{
    if n <= 0 {
        None
    } else {
        let count = units_of(v, kind(n - 1));
        let atom = Expression::Atom(count as nat, kind(n - 1));
        match sum_of_terms(v, n - 1) {
            before if count == 0 => before,
            None => Some(atom),
            Some(before) => Some(Expression::Sum(Box::new(before), Box::new(atom))),
        }
    }
}

/// There are terms exactly where there is an expression for them, and
/// the value of that expression is what the units of the kinds add up to.
proof fn lemma_sum_of_terms(v: EssenceVector, n: int)
    requires
        0 <= n < KINDS,
    ensures
        terms(v, n).len() == 0 <==> sum_of_terms(v, n) is None,
        sum_of_units(v, n) == match sum_of_terms(v, n) {
            Some(tree) => tree.value(),
            None => EssenceVector::zero(),
        },
    decreases n,
{
    if n > 0 {
        lemma_sum_of_terms(v, n - 1);
        lemma_names_plain(n - 1);
        lemma_kind_index(kind(n - 1));
        lemma_units_bound(v, kind(n - 1));
        let count = units_of(v, kind(n - 1));
        let atom = Expression::Atom(count as nat, kind(n - 1));
        assert(atom.value() == kind(n - 1).scale(count));
        if count == 0 {
            lemma_scale_zero_one(kind(n - 1));
        }
    }
}

/// The terms of the first `n` kinds start the terms of the first `m`,
/// and where more follows them, a `+` follows them.
proof fn lemma_terms_start(v: EssenceVector, n: int, m: int)
    requires
        0 <= n <= m < KINDS,
    ensures
        terms(v, n).len() <= terms(v, m).len(),
        terms(v, m).subrange(0, terms(v, n).len() as int) == terms(v, n),
        0 < terms(v, n).len() < terms(v, m).len() ==> terms(v, m)[terms(v, n).len() as int]
            == '+',
    decreases m - n,
{
    if n < m {
        lemma_terms_start(v, n, m - 1);
        let before = terms(v, m - 1);
        assert(before.subrange(0, before.len() as int) =~= before);
        assert(terms(v, m).subrange(0, terms(v, n).len() as int) =~= before.subrange(
            0,
            terms(v, n).len() as int,
        ));
    } else {
        assert(terms(v, n).subrange(0, terms(v, n).len() as int) =~= terms(v, n));
    }
}

/// Reading the terms of all kinds of `v` comes, after the terms of the
/// first `n` kinds, to the expression that those terms stand for.
proof fn lemma_read_terms(v: EssenceVector, n: int)
    requires
        v.fits(),
        0 <= n < KINDS,
        terms(v, n).len() > 0,
    ensures
        expr_at(terms(v, KINDS - 1), 0) == Ok::<(Expression, int), Failure>(
            rest_at(terms(v, KINDS - 1), terms(v, n).len() as int, sum_of_terms(v, n)->0),
        ),
    decreases n,
{
    let s = terms(v, KINDS - 1);
    let before = terms(v, n - 1);
    let count = units_of(v, kind(n - 1));
    let text = term(count, kind_name(n - 1));
    let atom = Expression::Atom(count as nat, kind(n - 1));
    lemma_sum_of_terms(v, n);
    lemma_sum_of_terms(v, n - 1);
    lemma_terms_start(v, n, KINDS - 1);
    lemma_kind_index(kind(n - 1));
    lemma_units_bound(v, kind(n - 1));
    if count == 0 {
        lemma_read_terms(v, n - 1);
    } else if before.len() == 0 {
        assert(s.subrange(0, text.len() as int) == text);
        lemma_term_text(s, 0, count, n - 1);
        assert(run_end(s, 0, Class::Blank) == 0);
    } else {
        lemma_read_terms(v, n - 1);
        let plus = before.len() as int;
        assert(terms(v, n) == before + seq!['+'] + text);
        assert(s[plus] == terms(v, n)[plus]);
        assert(s.subrange(plus + 1, plus + 1 + text.len()) =~= text) by {
            assert forall|k: int| 0 <= k < text.len() implies s.subrange(
                plus + 1,
                plus + 1 + text.len(),
            )[k] == text[k] by {
                assert(s[plus + 1 + k] == terms(v, n)[plus + 1 + k]);
            }
        }
        lemma_term_text(s, plus + 1, count, n - 1);
    }
}

/// The rendering of a vector in the machine range parses, whole, and
/// what it parses to evaluates to the vector.
pub proof fn lemma_rendering_reads_back(v: EssenceVector)
    requires
        v.fits(),
    ensures
        parse(rendering(v)) matches Ok((tree, next)) && tree.value() == v && next == rendering(
            v,
        ).len(),
{
    let last = KINDS - 1;
    lemma_units_add_up(v);
    lemma_sum_of_terms(v, last);
    lemma_kind_index(kind(last));
    assert(sum_of_units(v, KINDS as int) == sum_of_units(v, last).combine(
        kind(last).scale(units_of(v, kind(last))),
    ));
    if terms(v, last).len() == 0 {
        lemma_names_plain(last);
        lemma_lookup_own_name(last);
        lemma_parse_name(kind_name(last), kind(last));
    } else {
        lemma_read_terms(v, last);
    }
}

} // verus!

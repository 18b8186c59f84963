//! The grammar of the Calq language, as functions from a text and a place
//! in it to what is read there.
//!
//! ```text
//! atom := WS (DIGIT+ WS "*" WS)? WS word WS
//! word := one or more characters other than blanks, '(', ')', '+', '-'
//!         and digits
//! term := atom | "(" WS expr WS ")"
//! expr := WS ("-")? WS term (WS ("+"|"-") WS term)* WS
//! ```
//!
//! `WS` is any number of blanks: spaces, tabs, line feeds and carriage
//! returns. Reading stops where the text no longer continues an
//! expression; what follows that place is not looked at.

use vstd::prelude::*;
use crate::ast::Expression;
use crate::catalog::lookup;
use crate::essence::EssenceVector;

verus! {

/// Why a text is not an expression.
pub enum Failure {
    /// A word that names no kind of essence.
    UnknownName(Seq<char>),
    /// Digits that no `*` follows, or that stand for a number too large
    /// for the machine's unsigned word.
    MalformedCoefficient,
    /// A `(` whose expression is not followed by `)`.
    UnmatchedParenthesis,
    /// No word where a term has to start: the text ends there, or
    /// another character stands there.
    EmptyTerm,
}

/// A class of characters.
#[derive(Clone, Copy, PartialEq, Eq, Structural)]
pub enum Class {
    /// Space, tab, line feed and carriage return.
    Blank,
    /// The decimal digits.
    Digit,
    /// The characters of a word: all but blanks, `(`, `)`, `+`, `-` and
    /// digits.
    Word,
}

/// Whether `c` is a space, a tab, a line feed or a carriage return.
pub open spec fn is_blank(c: char) -> bool {
    c == ' ' || c == '\t' || c == '\n' || c == '\r'
}

/// Whether `c` is a decimal digit.
pub open spec fn is_digit(c: char) -> bool {
    '0' <= c && c <= '9'
}

/// Whether `c` belongs to the class.
pub open spec fn in_class(c: char, class: Class) -> bool {
    match class {
        Class::Blank => is_blank(c),
        Class::Digit => is_digit(c),
        Class::Word => !is_blank(c) && !is_digit(c) && c != '(' && c != ')' && c != '+' && c
            != '-',
    }
}

/// The end of the longest run of characters of the class that starts at
/// `at`.
pub open spec fn run_end(s: Seq<char>, at: int, class: Class) -> int
    decreases s.len() - at,
{
    if 0 <= at < s.len() && in_class(s[at], class) {
        run_end(s, at + 1, class)
    } else {
        at
    }
}

/// A run ends at or after its start, within the text.
pub proof fn lemma_run_end_bounds(s: Seq<char>, at: int, class: Class)
    ensures
        at <= run_end(s, at, class),
        at <= s.len() ==> run_end(s, at, class) <= s.len(),
    decreases s.len() - at,
{
    if 0 <= at < s.len() && in_class(s[at], class) {
        lemma_run_end_bounds(s, at + 1, class);
    }
}

/// How many characters of the text lie at or after `at`.
pub open spec fn remaining(s: Seq<char>, at: int) -> int {
    if at <= s.len() {
        s.len() - at
    } else {
        0
    }
}

/// The number that a run of decimal digits stands for.
pub open spec fn number(digits: Seq<char>) -> nat
    decreases digits.len(),
{
    if digits.len() == 0 {
        0
    } else {
        (number(digits.drop_last()) * 10 + (digits.last() as u32 - '0' as u32)) as nat
    }
}

/// Whether the character at `at` is `c`.
pub open spec fn holds(s: Seq<char>, at: int, c: char) -> bool {
    0 <= at < s.len() && s[at] == c
}

/// The word that starts at `at`, taken as the name of a kind, with the
/// blanks after it.
pub open spec fn word_at(s: Seq<char>, at: int, coefficient: nat) -> Result<
    (Expression, int),
    Failure,
> {
    let end = run_end(s, at, Class::Word);
    if end <= at {
        Err(Failure::EmptyTerm)
    } else {
        match lookup(s.subrange(at, end)) {
            Some(unit) => Ok((Expression::Atom(coefficient, unit), run_end(s, end, Class::Blank))),
            None => Err(Failure::UnknownName(s.subrange(at, end))),
        }
    }
}

/// The atom that starts at `at`: a name, or a number, `*` and a name. The
/// coefficient of a name alone is 1.
pub open spec fn atom_at(s: Seq<char>, at: int) -> Result<(Expression, int), Failure> {
    let start = run_end(s, at, Class::Blank);
    let end = run_end(s, start, Class::Digit);
    if end > start {
        let star = run_end(s, end, Class::Blank);
        let coefficient = number(s.subrange(start, end));
        if holds(s, star, '*') && coefficient <= usize::MAX {
            word_at(s, run_end(s, star + 1, Class::Blank), coefficient)
        } else {
            Err(Failure::MalformedCoefficient)
        }
    } else {
        word_at(s, start, 1)
    }
}

/// The term that starts at `at`: an expression in parentheses, or an
/// atom.
pub open spec fn term_at(s: Seq<char>, at: int) -> Result<(Expression, int), Failure>
    decreases remaining(s, at), 0int,
{
    let open = run_end(s, at, Class::Blank);
    if holds(s, open, '(') {
        proof {
            lemma_run_end_bounds(s, at, Class::Blank);
        }
        match expr_at(s, open + 1) {
            Ok((tree, close)) => if holds(s, close, ')') {
                Ok((tree, run_end(s, close + 1, Class::Blank)))
            } else {
                Err(Failure::UnmatchedParenthesis)
            },
            Err(failure) => Err(failure),
        }
    } else {
        atom_at(s, at)
    }
}

/// What `tree` becomes with the terms that follow it from `at`, each
/// after a `+` or a `-`. The operators bind to the left. Reading stops
/// before the first operator that no term follows. The condition on
/// `next` holds of every term (`lemma_extent`); it shows that reading
/// comes to an end.
pub open spec fn rest_at(s: Seq<char>, at: int, tree: Expression) -> (Expression, int)
    decreases remaining(s, at), 1int,
{
    if holds(s, at, '+') || holds(s, at, '-') {
        match term_at(s, at + 1) {
            Ok((term, next)) if next > at => rest_at(
                s,
                next,
                if s[at] == '+' {
                    Expression::Sum(Box::new(tree), Box::new(term))
                } else {
                    Expression::Subtract(Box::new(tree), Box::new(term))
                },
            ),
            _ => (tree, at),
        }
    } else {
        (tree, at)
    }
}

/// The expression that starts at `at`: a term, which a `-` before it
/// takes away from nothing, and the terms that follow it. The condition
/// on `next` holds of every term (`lemma_extent`), so the arm after it is
/// never taken; it shows that reading comes to an end.
pub open spec fn expr_at(s: Seq<char>, at: int) -> Result<(Expression, int), Failure>
    decreases remaining(s, at), 2int,
{
    let sign = run_end(s, at, Class::Blank);
    let negated = holds(s, sign, '-');
    let start = if negated {
        sign + 1
    } else {
        sign
    };
    proof {
        lemma_run_end_bounds(s, at, Class::Blank);
    }
    match term_at(s, start) {
        Ok((term, next)) if next >= start => Ok(
            rest_at(
                s,
                next,
                if negated {
                    Expression::Subtract(
                        Box::new(Expression::Atom(1, EssenceVector::zero())),
                        Box::new(term),
                    )
                } else {
                    term
                },
            ),
        ),
        Ok(_) => Err(Failure::EmptyTerm),
        Err(failure) => Err(failure),
    }
}

/// A word, and so an atom, ends after it starts, within the text.
pub proof fn lemma_atom_extent(s: Seq<char>, at: int)
    requires
        0 <= at <= s.len(),
    ensures
        atom_at(s, at) matches Ok((_, next)) ==> at < next <= s.len(),
{
    let start = run_end(s, at, Class::Blank);
    let end = run_end(s, start, Class::Digit);
    lemma_run_end_bounds(s, at, Class::Blank);
    lemma_run_end_bounds(s, start, Class::Digit);
    let star = run_end(s, end, Class::Blank);
    lemma_run_end_bounds(s, end, Class::Blank);
    let word = if end > start {
        run_end(s, star + 1, Class::Blank)
    } else {
        start
    };
    if end > start && holds(s, star, '*') {
        lemma_run_end_bounds(s, star + 1, Class::Blank);
    }
    if word <= s.len() {
        lemma_run_end_bounds(s, word, Class::Word);
        lemma_run_end_bounds(s, run_end(s, word, Class::Word), Class::Blank);
    }
}

/// A term and an expression end after they start, and the terms that
/// follow a tree end at or after their start, all within the text. So the
/// conditions on `next` in `rest_at` and `expr_at`, which are there to
/// show that reading comes to an end, always hold.
pub proof fn lemma_extent(s: Seq<char>, at: int)
    requires
        0 <= at <= s.len(),
    ensures
        term_at(s, at) matches Ok((_, next)) ==> at < next <= s.len(),
        expr_at(s, at) matches Ok((_, next)) ==> at < next <= s.len(),
        forall|tree: Expression| at <= (#[trigger] rest_at(s, at, tree)).1 <= s.len(),
{
    lemma_term_extent(s, at);
    lemma_expr_extent(s, at);
    assert forall|tree: Expression| at <= (#[trigger] rest_at(s, at, tree)).1 <= s.len() by {
        lemma_rest_extent(s, at, tree);
    }
}

proof fn lemma_term_extent(s: Seq<char>, at: int)
    requires
        0 <= at <= s.len(),
    ensures
        term_at(s, at) matches Ok((_, next)) ==> at < next <= s.len(),
    decreases remaining(s, at), 0int,
{
    let open = run_end(s, at, Class::Blank);
    lemma_run_end_bounds(s, at, Class::Blank);
    if holds(s, open, '(') {
        lemma_expr_extent(s, open + 1);
        if let Ok((_, close)) = expr_at(s, open + 1) {
            if holds(s, close, ')') {
                lemma_run_end_bounds(s, close + 1, Class::Blank);
            }
        }
    } else {
        lemma_atom_extent(s, at);
    }
}

proof fn lemma_rest_extent(s: Seq<char>, at: int, tree: Expression)
    requires
        0 <= at <= s.len(),
    ensures
        at <= rest_at(s, at, tree).1 <= s.len(),
    decreases remaining(s, at), 1int,
{
    if holds(s, at, '+') || holds(s, at, '-') {
        lemma_term_extent(s, at + 1);
        if let Ok((term, next)) = term_at(s, at + 1) {
            let joined = if s[at] == '+' {
                Expression::Sum(Box::new(tree), Box::new(term))
            } else {
                Expression::Subtract(Box::new(tree), Box::new(term))
            };
            lemma_rest_extent(s, next, joined);
        }
    }
}

proof fn lemma_expr_extent(s: Seq<char>, at: int)
    requires
        0 <= at <= s.len(),
    ensures
        expr_at(s, at) matches Ok((_, next)) ==> at < next <= s.len(),
    decreases remaining(s, at), 2int,
{
    let sign = run_end(s, at, Class::Blank);
    lemma_run_end_bounds(s, at, Class::Blank);
    let negated = holds(s, sign, '-');
    let start = if negated {
        sign + 1
    } else {
        sign
    };
    lemma_term_extent(s, start);
    if let Ok((term, next)) = term_at(s, start) {
        let first = if negated {
            Expression::Subtract(
                Box::new(Expression::Atom(1, EssenceVector::zero())),
                Box::new(term),
            )
        } else {
            term
        };
        lemma_rest_extent(s, next, first);
    }
}

/// The expression that the text starts with and the number of characters
/// that it takes up, or why the text starts with none.
pub open spec fn parse(text: Seq<char>) -> Result<(Expression, int), Failure> {
    expr_at(text, 0)
}

} // verus!

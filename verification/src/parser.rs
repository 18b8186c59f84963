//! The parser of the Calq language: recursive descent over the characters
//! of a text, held to the grammar.

use vstd::prelude::*;
use vstd::slice::slice_subrange;
use vstd::string::{StrSliceExecFns, StringExecFns};
use crate::ast::{CalqAst, Expression};
use crate::catalog::{find_kind, kind_at, KINDS};
use crate::essence::{Essence, EssenceVector};
use crate::grammar::{
    atom_at, expr_at, holds, in_class, lemma_extent, lemma_run_end_bounds, number, parse, rest_at,
    run_end,
    term_at, word_at, Class, Failure,
};
use crate::text::{chars_of, normalize};

verus! {

/// Why a text could not be parsed.
#[derive(Debug, PartialEq, Eq)]
pub enum ParseError {
    /// A word that names no kind of essence; the word as it was written.
    UnknownName(String),
    /// Digits that no `*` follows, or that stand for a number too large
    /// for the machine's unsigned word.
    MalformedCoefficient,
    /// A `(` whose expression is not followed by `)`.
    UnmatchedParenthesis,
    /// No word where a term has to start: the text ends there, or
    /// another character stands there.
    EmptyTerm,
}

impl View for ParseError {
    type V = Failure;

    open spec fn view(&self) -> Failure {
        match self {
            ParseError::UnknownName(word) => Failure::UnknownName(word@),
            ParseError::MalformedCoefficient => Failure::MalformedCoefficient,
            ParseError::UnmatchedParenthesis => Failure::UnmatchedParenthesis,
            ParseError::EmptyTerm => Failure::EmptyTerm,
        }
    }
}

impl Clone for ParseError {
    fn clone(&self) -> (res: Self)
        ensures
            res@ == self@,
    {
        match self {
            ParseError::UnknownName(word) => ParseError::UnknownName(word.clone()),
            ParseError::MalformedCoefficient => ParseError::MalformedCoefficient,
            ParseError::UnmatchedParenthesis => ParseError::UnmatchedParenthesis,
            ParseError::EmptyTerm => ParseError::EmptyTerm,
        }
    }
}

/// What a parsing function returned is what the grammar reads.
pub open spec fn agrees(
    got: Result<(CalqAst, usize), ParseError>,
    read: Result<(Expression, int), Failure>,
) -> bool {
    match got {
        Ok((tree, next)) => read == Ok::<(Expression, int), Failure>((tree@, next as int)),
        Err(error) => read == Err::<(Expression, int), Failure>(error@),
    }
}

/// Whether `c` belongs to the class.
fn is_in_class(c: char, class: Class) -> (b: bool)
    ensures
        b == in_class(c, class),
{
    let blank = c == ' ' || c == '\t' || c == '\n' || c == '\r';
    let digit = '0' <= c && c <= '9';
    match class {
        Class::Blank => blank,
        Class::Digit => digit,
        Class::Word => !blank && !digit && c != '(' && c != ')' && c != '+' && c != '-',
    }
}

/// The end of the run of characters of the class that starts at `at`.
fn parse_run(s: &[char], at: usize, class: Class) -> (end: usize)
    requires
        at <= s.len(),
    ensures
        end == run_end(s@, at as int, class),
        at <= end <= s.len(),
        forall|i: int| at <= i < end ==> in_class(#[trigger] s@[i], class),
{
    let mut end: usize = at;
    while end < s.len() && is_in_class(s[end], class)
        invariant
            at <= end <= s.len(),
            run_end(s@, at as int, class) == run_end(s@, end as int, class),
            forall|i: int| at <= i < end ==> in_class(#[trigger] s@[i], class),
        decreases s.len() - end,
    {
        end += 1;
    }
    end
}

/// The place after the blanks that start at `at`.
fn parse_whitespace(s: &[char], at: usize) -> (end: usize)
    requires
        at <= s.len(),
    ensures
        end == run_end(s@, at as int, Class::Blank),
        at <= end <= s.len(),
{
    parse_run(s, at, Class::Blank)
}

/// The number that the digits from `from` up to `to` stand for, where it
/// fits the machine's unsigned word.
fn i_product(s: &[char], from: usize, to: usize) -> (r: Option<usize>)
    requires
        from <= to <= s.len(),
        forall|i: int| from <= i < to ==> in_class(#[trigger] s@[i], Class::Digit),
    ensures
        r is Some <==> number(s@.subrange(from as int, to as int)) <= usize::MAX,
        r is Some ==> r->0 == number(s@.subrange(from as int, to as int)),
{
    let mut value: usize = 0;
    let mut i: usize = from;
    while i < to
        invariant
            from <= i <= to <= s.len(),
            forall|i: int| from <= i < to ==> in_class(#[trigger] s@[i], Class::Digit),
            value == number(s@.subrange(from as int, i as int)),
        decreases to - i,
    {
        let c = s[i];
        assert(in_class(s@[i as int], Class::Digit));
        let digit: usize = (c as u32 - '0' as u32) as usize;
        proof {
            let longer = s@.subrange(from as int, i + 1);
            assert(longer.drop_last() == s@.subrange(from as int, i as int));
            assert(longer.last() == c);
            lemma_number_grows(s@.subrange(from as int, to as int), i + 1 - from);
            assert(s@.subrange(from as int, to as int).take(i + 1 - from) == longer);
        }
        let next = match value.checked_mul(10) {
            Some(tens) => tens.checked_add(digit),
            None => None,
        };
        match next {
            Some(next) => {
                value = next;
            },
            None => {
                return None;
            },
        }
        i += 1;
    }
    Some(value)
}

/// A number is at least the number that any start of its digits stands
/// for.
proof fn lemma_number_grows(digits: Seq<char>, k: int)
    requires
        0 <= k <= digits.len(),
        forall|i: int| 0 <= i < digits.len() ==> in_class(#[trigger] digits[i], Class::Digit),
    ensures
        number(digits.take(k)) <= number(digits),
    decreases digits.len(),
{
    if k < digits.len() {
        lemma_number_grows(digits.drop_last(), k);
        assert(digits.drop_last().take(k) == digits.take(k));
        assert(in_class(digits[digits.len() - 1], Class::Digit));
    } else {
        assert(digits.take(k) == digits);
    }
}

/// Parses the simplest calculation, `x*e` or `e`, where `x` is a whole
/// number and `e` the name of a kind of essence.
fn parse_atom_calq(text: &str, s: &[char], at: usize) -> (r: Result<(CalqAst, usize), ParseError>)
    requires
        s@ == text@,
        at <= s.len(),
    ensures
        agrees(r, atom_at(s@, at as int)),
{
    let start = parse_whitespace(s, at);
    let end = parse_run(s, start, Class::Digit);
    let mut coefficient: usize = 1;
    let mut word = start;
    if end > start {
        let star = parse_whitespace(s, end);
        if star >= s.len() || s[star] != '*' {
            return Err(ParseError::MalformedCoefficient);
        }
        match i_product(s, start, end) {
            Some(number) => {
                coefficient = number;
            },
            None => {
                return Err(ParseError::MalformedCoefficient);
            },
        }
        word = parse_whitespace(s, star + 1);
    }
    let word_end = parse_run(s, word, Class::Word);
    if word_end <= word {
        return Err(ParseError::EmptyTerm);
    }
    let key = normalize(slice_subrange(s, word, word_end));
    let i = find_kind(key.as_slice());
    if i < KINDS {
        let next = parse_whitespace(s, word_end);
        Ok((CalqAst::Atom(coefficient, kind_at(i)), next))
    } else {
        Err(ParseError::UnknownName(String::from_str(text.substring_char(word, word_end))))
    }
}

/// Parses a calculation with `(` and `)` around it. `open` is the place
/// of the `(`.
fn parse_calq_with_parens(text: &str, s: &[char], at: usize, open: usize) -> (r: Result<
    (CalqAst, usize),
    ParseError,
>)
    requires
        s@ == text@,
        at <= s.len(),
        open == run_end(s@, at as int, Class::Blank),
        holds(s@, open as int, '('),
    ensures
        agrees(r, term_at(s@, at as int)),
    decreases s.len() - at, 0int,
{
    proof {
        lemma_run_end_bounds(s@, at as int, Class::Blank);
    }
    match parse_calq(text, s, open + 1) {
        Ok((tree, close)) => {
            if close < s.len() && s[close] == ')' {
                let next = parse_whitespace(s, close + 1);
                Ok((tree, next))
            } else {
                Err(ParseError::UnmatchedParenthesis)
            }
        },
        Err(error) => Err(error),
    }
}

/// Parses a term: a calculation in parentheses, or an atom.
fn parse_term(text: &str, s: &[char], at: usize) -> (r: Result<(CalqAst, usize), ParseError>)
    requires
        s@ == text@,
        at <= s.len(),
    ensures
        agrees(r, term_at(s@, at as int)),
        r matches Ok((_, next)) ==> at < next <= s.len(),
    decreases s.len() - at, 1int,
{
    proof {
        lemma_extent(s@, at as int);
    }
    let open = parse_whitespace(s, at);
    if open < s.len() && s[open] == '(' {
        parse_calq_with_parens(text, s, at, open)
    } else {
        parse_atom_calq(text, s, at)
    }
}

/// Parses a full calculation, with `+`, `-` and a `-` before the first
/// term.
fn parse_calq(text: &str, s: &[char], at: usize) -> (r: Result<(CalqAst, usize), ParseError>)
    requires
        s@ == text@,
        at <= s.len(),
    ensures
        agrees(r, expr_at(s@, at as int)),
        r matches Ok((_, next)) ==> at < next <= s.len(),
    decreases s.len() - at, 2int,
{
    proof {
        lemma_extent(s@, at as int);
    }
    let sign = parse_whitespace(s, at);
    let negated = sign < s.len() && s[sign] == '-';
    let start = if negated {
        sign + 1
    } else {
        sign
    };
    let (first, first_end) = match parse_term(text, s, start) {
        Ok(read) => read,
        Err(error) => {
            return Err(error);
        },
    };
    let mut tree = if negated {
        // -x is 0 - x
        let nothing = CalqAst::Atom(1, Essence::new(0, 0, 0));
        assert(nothing@ == Expression::Atom(1, EssenceVector::zero()));
        CalqAst::Subtract(Box::new(nothing), Box::new(first))
    } else {
        first
    };
    let ghost whole = rest_at(s@, first_end as int, tree@);
    let mut end = first_end;
    loop
        invariant
            s@ == text@,
            at < end <= s.len(),
            expr_at(s@, at as int) == Ok::<(Expression, int), Failure>(whole),
            rest_at(s@, end as int, tree@) == whole,
        decreases s.len() - end,
    {
        if end >= s.len() || (s[end] != '+' && s[end] != '-') {
            return Ok((tree, end));
        }
        let plus = s[end] == '+';
        match parse_term(text, s, end + 1) {
            Ok((term, next)) => {
                tree = if plus {
                    CalqAst::Sum(Box::new(tree), Box::new(term))
                } else {
                    CalqAst::Subtract(Box::new(tree), Box::new(term))
                };
                end = next;
            },
            Err(_) => {
                return Ok((tree, end));
            },
        }
    }
}

impl CalqAst {
    /// Parses the calculation that the text starts with. Returns its tree
    /// and the number of characters that it takes up, blanks after it
    /// included; what follows them is not looked at.
    pub fn parse_prefix(text: &str) -> (r: Result<(CalqAst, usize), ParseError>)
        ensures
            agrees(r, parse(text@)),
            r matches Ok((_, next)) ==> 0 < next <= text@.len(),
    {
        let chars = chars_of(text);
        parse_calq(text, chars.as_slice(), 0)
    }

    /// Parses a calculation such as `4*Fire+3*Air`. The text has to start
    /// with a calculation; anything after it is ignored.
    pub fn from_str(text: &str) -> (r: Result<CalqAst, ParseError>)
        ensures
            match r {
                Ok(tree) => parse(text@) matches Ok((read, _)) && read == tree@,
                Err(error) => parse(text@) == Err::<(Expression, int), Failure>(error@),
            },
    {
        match CalqAst::parse_prefix(text) {
            Ok((tree, _)) => Ok(tree),
            Err(error) => Err(error),
        }
    }
}

impl core::str::FromStr for CalqAst {
    type Err = ParseError;

    fn from_str(text: &str) -> (r: Result<Self, ParseError>)
        ensures
            match r {
                Ok(tree) => parse(text@) matches Ok((read, _)) && read == tree@,
                Err(error) => parse(text@) == Err::<(Expression, int), Failure>(error@),
            },
    {
        CalqAst::from_str(text)
    }
}

} // verus!

//! What a front end does with the lines that a user enters: which line is
//! complete, which ends the session, what a calculation comes to, and the
//! log of a session.

use vstd::prelude::*;
use vstd::string::{StrSliceExecFns, StringExecFns};
use crate::ast::CalqAst;
use crate::catalog::{kind, kind_at, KINDS};
use crate::grammar::{parse, Failure};
use crate::parser::ParseError;
use crate::render::rendering;
use crate::text::{chars_of, normal_form, normalize, range_is};

verus! {

/// What a calculation comes to.
#[derive(Debug, PartialEq, Eq)]
pub enum Answer {
    /// The rendering of the value of the calculation.
    Value(String),
    /// The text is no calculation.
    ParseError(ParseError),
    /// The value of the calculation, or of a part of it, does not fit the
    /// machine's signed word on some axis.
    OutOfRange,
}

/// The mathematical model of [`Answer`].
pub enum Outcome {
    /// The rendering of the value of the calculation.
    Value(Seq<char>),
    /// The text is no calculation.
    ParseError(Failure),
    /// The value of the calculation, or of a part of it, does not fit the
    /// machine's signed word on some axis.
    OutOfRange,
}

impl View for Answer {
    type V = Outcome;

    open spec fn view(&self) -> Outcome {
        match self {
            Answer::Value(text) => Outcome::Value(text@),
            Answer::ParseError(error) => Outcome::ParseError(error@),
            Answer::OutOfRange => Outcome::OutOfRange,
        }
    }
}

impl Clone for Answer {
    fn clone(&self) -> (res: Self)
        ensures
            res@ == self@,
    {
        match self {
            Answer::Value(text) => Answer::Value(text.clone()),
            Answer::ParseError(error) => Answer::ParseError(error.clone()),
            Answer::OutOfRange => Answer::OutOfRange,
        }
    }
}

/// What the calculation that `text` starts with comes to.
pub open spec fn outcome(text: Seq<char>) -> Outcome {
    match parse(text) {
        Ok((tree, _)) => if tree.in_range() {
            Outcome::Value(rendering(tree.value()))
        } else {
            Outcome::OutOfRange
        },
        Err(failure) => Outcome::ParseError(failure),
    }
}

/// Whether the input ends in a line feed, which completes it.
pub open spec fn is_complete(input: Seq<char>) -> bool {
    input.len() > 0 && input.last() == '\n'
}

/// Whether the line is the word that ends a session: `exit`, in any case,
/// with any white space around it.
pub open spec fn is_exit_line(line: Seq<char>) -> bool {
    normal_form(line) == seq!['e', 'x', 'i', 't']
}

/// Returns true if the input ends in a line feed.
pub fn complete_input(i: &str) -> (b: bool)
    ensures
        b == is_complete(i@),
{
    let chars = chars_of(i);
    chars.len() > 0 && chars[chars.len() - 1] == '\n'
}

/// Whether the line asks to end the session.
pub fn is_exit(line: &str) -> (b: bool)
    ensures
        b == is_exit_line(line@),
{
    let chars = chars_of(line);
    let key = normalize(chars.as_slice());
    let word = ['e', 'x', 'i', 't'];
    assert(key@.subrange(0, key@.len() as int) == key@);
    assert(word@ == seq!['e', 'x', 'i', 't']);
    range_is(key.as_slice(), 0, key.len(), word.as_slice())
}

/// Parses, evaluates and renders a calculation.
pub fn calculate(text: &str) -> (answer: Answer)
    ensures
        answer@ == outcome(text@),
{
    match CalqAst::from_str(text) {
        Ok(tree) => match tree.checked_eval() {
            Some(value) => Answer::Value(value.to_string()),
            None => Answer::OutOfRange,
        },
        Err(error) => Answer::ParseError(error),
    }
}

/// The renderings of the first `n` kinds of the catalog, the last of them
/// first, each followed by a line feed.
pub open spec fn listing(n: int) -> Seq<char>
    decreases n,
{
    if n <= 0 {
        Seq::empty()
    } else {
        rendering(kind(n - 1)) + seq!['\n'] + listing(n - 1)
    }
}

/// Every kind of the catalog, rendered, one to a line, from the last in
/// the order of priority to the first.
pub fn all_essence() -> (s: String)
    ensures
        s@ == listing(KINDS as int),
{
    let mut s = String::new();
    let mut n: usize = 0;
    while n < KINDS
        invariant
            n <= KINDS,
            s@ == listing(n as int),
        decreases KINDS - n,
    {
        let mut line = kind_at(n).to_string();
        proof {
            reveal_strlit("\n");
        }
        line.append("\n");
        line.append(s.as_str());
        s = line;
        n += 1;
    }
    s
}

/// One calculation of a session: what was entered and what it came to.
#[derive(Debug, PartialEq, Eq)]
pub struct Exchange {
    pub input: String,
    pub answer: Answer,
}

impl Clone for Exchange {
    fn clone(&self) -> (res: Self)
        ensures
            res.input@ == self.input@,
            res.answer@ == self.answer@,
    {
        Exchange { input: self.input.clone(), answer: self.answer.clone() }
    }
}

/// Calculates what was entered.
pub fn apply_calc(s: &str) -> (exchange: Exchange)
    ensures
        exchange.input@ == s@,
        exchange.answer@ == outcome(s@),
{
    Exchange { input: String::from_str(s), answer: calculate(s) }
}

/// The lines of a text that are not empty, in order. A line ends at a
/// line feed or with the text. `start` is where the line begins that is
/// being read, `at` the place up to which it has been read.
pub open spec fn lines_from(s: Seq<char>, start: int, at: int) -> Seq<Seq<char>>
    decreases s.len() - at,
{
    if at < 0 || at >= s.len() {
        if start < s.len() {
            seq![s.subrange(start, s.len() as int)]
        } else {
            Seq::empty()
        }
    } else if s[at] == '\n' {
        if start < at {
            seq![s.subrange(start, at)] + lines_from(s, at + 1, at + 1)
        } else {
            lines_from(s, at + 1, at + 1)
        }
    } else {
        lines_from(s, start, at + 1)
    }
}

/// The lines of `lines`, each as the sequence of its characters.
pub open spec fn texts(lines: Seq<String>) -> Seq<Seq<char>> {
    Seq::new(lines.len(), |i: int| lines[i]@)
}

/// Parts a text at its line feeds and returns the lines that are not
/// empty, each to be shown on a line of its own.
pub fn place_linebreaks(s: &str) -> (lines: Vec<String>)
    ensures
        texts(lines@) == lines_from(s@, 0, 0),
{
    let chars = chars_of(s);
    let mut lines: Vec<String> = Vec::new();
    let mut start: usize = 0;
    let mut at: usize = 0;
    while at < chars.len()
        invariant
            chars@ == s@,
            start <= at <= chars.len(),
            lines_from(s@, 0, 0) == texts(lines@) + lines_from(s@, start as int, at as int),
        decreases chars.len() - at,
    {
        if chars[at] == '\n' {
            if start < at {
                let ghost before = lines@;
                lines.push(String::from_str(s.substring_char(start, at)));
                assert(texts(lines@) == texts(before) + seq![s@.subrange(start as int, at as int)]);
            }
            start = at + 1;
        }
        at += 1;
    }
    if start < chars.len() {
        let ghost before = lines@;
        lines.push(String::from_str(s.substring_char(start, chars.len())));
        assert(texts(lines@) == texts(before) + seq![s@.subrange(start as int, s@.len() as int)]);
    }
    lines
}

/// What can happen in a session.
pub enum Msg {
    /// The text of the input area has become this.
    Input(String),
}

/// A session: the calculations made so far and the input not yet
/// complete.
pub struct App {
    pub log: Vec<Exchange>,
    pub input: String,
}

impl App {
    /// A session in which nothing has happened yet.
    pub fn create() -> (app: Self)
        ensures
            app.log@.len() == 0,
            app.input@.len() == 0,
    {
        App { log: Vec::new(), input: String::new() }
    }

    /// Takes in what happened. Complete input is calculated and goes to
    /// the end of the log, and the input area is cleared; input that is
    /// not complete stays in the input area. Returns whether the session
    /// has to be shown anew, which is always.
    pub fn update(&mut self, msg: Msg) -> (redraw: bool)
        ensures
            redraw,
            match msg {
                Msg::Input(s) => if is_complete(s@) {
                    &&& final(self).log@.len() == old(self).log@.len() + 1
                    &&& final(self).log@.subrange(0, old(self).log@.len() as int) == old(self).log@
                    &&& final(self).log@.last().input@ == s@
                    &&& final(self).log@.last().answer@ == outcome(s@)
                    &&& final(self).input@.len() == 0
                } else {
                    &&& final(self).log@ == old(self).log@
                    &&& final(self).input@ == s@
                },
            },
    {
        match msg {
            Msg::Input(s) => {
                if complete_input(s.as_str()) {
                    self.log.push(apply_calc(s.as_str()));
                    self.input = String::new();
                } else {
                    self.input = s;
                }
            },
        }
        true
    }
}

} // verus!

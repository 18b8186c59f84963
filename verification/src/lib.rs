//! Essence arithmetic: a three-axis integer vector algebra, a catalog of
//! twenty-seven named kinds of essence, and the Calq expression language
//! that combines them.
//!
//! A calculation such as `4*fire+air` is parsed into a [`CalqAst`],
//! evaluated to an [`Essence`], and rendered as the sum of kinds that the
//! essence is made of, here `heat+3*fire`.
//!
//! - [`essence`]: the vector and its algebra.
//! - [`catalog`]: the kinds, their names and their order of priority.
//! - [`render`]: taking a vector apart into kinds, and its rendering.
//! - [`ast`]: the expression tree and its evaluation.
//! - [`grammar`]: what a text reads as, stated as mathematics.
//! - [`parser`]: the parser, held to the grammar.
//! - [`session`]: what a front end does with the lines a user enters.
//! - [`text`]: characters, numerals and the normal form of names.
//! - [`laws`], [`reading`]: what the parts have to do with each other.

pub mod ast;
pub mod catalog;
pub mod essence;
pub mod grammar;
pub mod laws;
pub mod parser;
pub mod reading;
pub mod render;
pub mod session;
pub mod text;

pub use ast::{CalqAst, Expression};
pub use catalog::essence_order;
pub use essence::{Essence, EssenceVector};
pub use parser::ParseError;
pub use session::{
    all_essence, apply_calc, calculate, complete_input, is_exit, place_linebreaks, Answer, App,
    Exchange, Msg,
};

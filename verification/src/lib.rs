//! A parser for a small markup language: running text with inline directives,
//! introduced by `[`, and block directives, introduced by `{` and headed by a
//! name and a pipe.
//!
//! [`parser`] holds the cursor and the executable rules, [`grammar`] what each
//! rule means as a function of the bytes, [`model`] the values that the
//! grammar speaks of, and [`laws`] what follows for every source.

pub mod bytes;
pub mod grammar;
pub mod laws;
pub mod model;
pub mod parser;
pub mod text;

//! A second set of article operations over the same store, in the style of
//! a plain repository: reads answer `None` where the first set answers
//! `NotFound`, and writes change only the fields they are given.
pub mod articles;

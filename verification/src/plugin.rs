//! The preprocessor itself: given a variable table (when the host
//! configuration carries one) it rewrites every chapter of the book; it
//! supports every output renderer but one reserved sentinel name.

use vstd::prelude::*;

use crate::book::{handle_book, is_substituted_book, Book};
use crate::table::Table;
use crate::text::str_eq;

verus! {

/// A variable substitution preprocessor.
pub struct Plugin;

impl Plugin {
    /// A fresh preprocessor; it carries no state.
    pub fn new() -> (p: Self) {
        Self
    }

    /// The preprocessor's name.
    pub fn name(&self) -> (r: &'static str)
        ensures
            r@ == "variable substitution preprocessor"@,
    {
        "variable substitution preprocessor"
    }

    /// Rewrite every chapter of `book` under the variable table, when the
    /// host configuration carries one; with no table the book is returned
    /// unchanged.
    pub fn run(&self, variables: Option<&Table>, book: Book) -> (out: Book)
        ensures
            match variables {
                Some(vars) => is_substituted_book(vars@, book, out),
                None => out == book,
            },
    {
        match variables {
            Some(vars) => handle_book(vars, book),
            None => book,
        }
    }

    /// Every output renderer is supported but the reserved sentinel name.
    pub fn supports_renderer(&self, renderer: &str) -> (r: bool)
        ensures
            r == (renderer@ != "not-supported"@),
    {
        !str_eq(renderer, "not-supported")
    }
}

} // verus!

//! The document tree: a rooted, ordered forest of items. A chapter carries
//! rewritable text and an ordered sequence of sub-items; every other kind of
//! item is opaque to the engine and passes through unchanged.

use vstd::prelude::*;

use crate::engine::{substitute_spec, substitute_variables};
use crate::table::{Table, ValueView};

verus! {

/// A textual node: its content, and its ordered sub-items.
pub struct Chapter {
    pub content: String,
    pub sub_items: Vec<BookItem>,
}

/// One node of the document tree.
pub enum BookItem {
    Chapter(Chapter),
    Other,
}

/// A whole document: an ordered forest of top-level items.
pub struct Book {
    pub sections: Vec<BookItem>,
}

/// `after` is `before` with the content of every chapter, at every depth,
/// rewritten by the substitution engine under `vars`; structure, ordering and
/// non-chapter items are untouched.
pub open spec fn is_substituted(vars: Map<Seq<char>, ValueView>, before: BookItem, after: BookItem) -> bool
    decreases before,
{
    match before {
        BookItem::Chapter(b) => match after {
            BookItem::Chapter(a) => {
                &&& a.content@ == substitute_spec(vars, b.content@)
                &&& a.sub_items@.len() == b.sub_items@.len()
                &&& forall|i: int|
                    0 <= i < b.sub_items@.len() ==> is_substituted(
                        vars,
                        #[trigger] b.sub_items@[i],
                        a.sub_items@[i],
                    )
            },
            BookItem::Other => false,
        },
        BookItem::Other => after is Other,
    }
}

/// `is_substituted`, lifted to every top-level item of a book.
pub open spec fn is_substituted_book(vars: Map<Seq<char>, ValueView>, before: Book, after: Book) -> bool {
    &&& after.sections@.len() == before.sections@.len()
    &&& forall|i: int|
        0 <= i < before.sections@.len() ==> is_substituted(
            vars,
            #[trigger] before.sections@[i],
            after.sections@[i],
        )
}

/// Rewrite one item of the tree: a chapter has its content substituted and
/// its sub-items rewritten in order; any other item is returned unchanged.
#[verifier::loop_isolation(false)]
pub fn handle_item(vars: &Table, item: &BookItem) -> (out: BookItem)
    ensures
        is_substituted(vars@, *item, out),
    decreases *item,
{
    match item {
        BookItem::Chapter(ch) => {
            let content = substitute_variables(vars, ch.content.as_str());
            let n = ch.sub_items.len();
            let mut subs: Vec<BookItem> = Vec::new();
            let mut i: usize = 0;
            while i < n
                invariant
                    i <= n,
                    n == ch.sub_items@.len(),
                    subs@.len() == i,
                    forall|j: int|
                        0 <= j < i ==> is_substituted(
                            vars@,
                            #[trigger] ch.sub_items@[j],
                            subs@[j],
                        ),
                decreases n - i,
            {
                let sub = handle_item(vars, &ch.sub_items[i]);
                subs.push(sub);
                i += 1;
            }
            BookItem::Chapter(Chapter { content, sub_items: subs })
        },
        BookItem::Other => BookItem::Other,
    }
}

/// Rewrite every top-level item of `book`, in order.
pub fn handle_book(vars: &Table, book: Book) -> (out: Book)
    ensures
        is_substituted_book(vars@, book, out),
{
    let n = book.sections.len();
    let mut sections: Vec<BookItem> = Vec::new();
    let mut i: usize = 0;
    while i < n
        invariant
            i <= n,
            n == book.sections@.len(),
            sections@.len() == i,
            forall|j: int|
                0 <= j < i ==> is_substituted(
                    vars@,
                    #[trigger] book.sections@[j],
                    sections@[j],
                ),
        decreases n - i,
    {
        let sub = handle_item(vars, &book.sections[i]);
        sections.push(sub);
        i += 1;
    }
    Book { sections }
}

} // verus!

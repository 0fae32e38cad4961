//! The document-tree walker: a book is an ordered, possibly nested tree of
//! items, some of which carry a chapter's text. The walker visits every item
//! exactly once, in order, applies the substitution engine to each chapter's
//! content, and leaves everything else — the tree's shape, every item's kind
//! and position, every other field — unchanged. A per-chapter failure of the
//! engine would be rendered into that chapter's content as a visible
//! diagnostic rather than aborting the traversal; the present rule set never
//! fails, so that path is never taken.

use vstd::prelude::*;

use crate::engine::replace_placeholders;
use crate::engine::str_eq;
use crate::engine::transform_spec;
use crate::engine::TransformError;

verus! {

/// A chapter: the one kind of item that carries a text unit, together with
/// the sub-items nested beneath it.
pub struct Chapter {
    /// The chapter's title; never touched by the walker.
    pub name: String,
    /// The chapter's text, the unit the substitution engine rewrites.
    pub content: String,
    /// The items nested under this chapter, in order.
    pub sub_items: Vec<BookItem>,
}

/// One item of the document tree.
pub enum BookItem {
    /// A chapter, carrying text and possibly nested items.
    Chapter(Chapter),
    /// A structural separator; carries no text.
    Separator,
    /// A part title; carries a label that is not a text unit and is never
    /// rewritten.
    PartTitle(String),
}

/// A book: the ordered top-level items of the document tree.
pub struct Book {
    /// The top-level items, in order.
    pub sections: Vec<BookItem>,
}

/// `new` is the result of one walk over `orig`: the same kind of item in the
/// same position, every chapter's content rewritten by the substitution pass,
/// and every other datum equal to what it was.
pub open spec fn item_processed(orig: BookItem, new: BookItem) -> bool
    decreases orig,
{
    match orig {
        BookItem::Chapter(c0) => match new {
            BookItem::Chapter(c1) => {
                &&& c1.name@ == c0.name@
                &&& c1.content@ == transform_spec(c0.content@)
                &&& c1.sub_items@.len() == c0.sub_items@.len()
                &&& forall|i: int|
                    0 <= i < c0.sub_items@.len() ==> item_processed(
                        #[trigger] c0.sub_items@[i],
                        c1.sub_items@[i],
                    )
            },
            _ => false,
        },
        BookItem::Separator => new is Separator,
        BookItem::PartTitle(t0) => match new {
            BookItem::PartTitle(t1) => t1@ == t0@,
            _ => false,
        },
    }
}

/// Item-wise correspondence of two item sequences of equal length.
pub open spec fn items_processed(orig: Seq<BookItem>, new: Seq<BookItem>) -> bool {
    &&& orig.len() == new.len()
    &&& forall|i: int| 0 <= i < orig.len() ==> item_processed(#[trigger] orig[i], new[i])
}

/// `new` is the result of one walk over the whole of `orig`.
pub open spec fn book_processed(orig: Book, new: Book) -> bool {
    items_processed(orig.sections@, new.sections@)
}

/// Walks one item: rewrites a chapter's content and recurses into its
/// sub-items; returns every other kind of item as it was.
#[verifier::loop_isolation(false)]
fn process_item(item: &BookItem) -> (r: BookItem)
    ensures
        item_processed(*item, r),
    decreases *item,
{
    match item {
        BookItem::Chapter(c) => {
            let content = match replace_placeholders(c.content.clone()) {
                Ok(t) => t,
                Err(e) => e.message(),
            };
            let mut subs: Vec<BookItem> = Vec::new();
            let mut j: usize = 0;
            while j < c.sub_items.len()
                invariant
                    j <= c.sub_items@.len(),
                    subs@.len() == j,
                    forall|k: int|
                        0 <= k < j ==> item_processed(#[trigger] c.sub_items@[k], subs@[k]),
                decreases c.sub_items@.len() - j,
            {
                let s = process_item(&c.sub_items[j]);
                subs.push(s);
                j += 1;
            }
            BookItem::Chapter(Chapter { name: c.name.clone(), content, sub_items: subs })
        },
        BookItem::Separator => BookItem::Separator,
        BookItem::PartTitle(t) => BookItem::PartTitle(t.clone()),
    }
}

/// The preprocessor: the marker table and substitution engine behind the
/// single capability the host consumes.
pub struct MathEvns {}

impl MathEvns {
    /// Builds the preprocessor. It holds no state: the marker table is fixed.
    pub fn new() -> MathEvns {
        MathEvns {}
    }

    /// The preprocessor's name, as the host knows it.
    pub fn name(&self) -> (r: &'static str)
        ensures
            r@ == "mathevirons"@,
    {
        "mathevirons"
    }

    /// Walks the whole book: every chapter's content is rewritten by the
    /// substitution pass, every item keeps its kind, position and other data,
    /// and no item is added, removed or reordered. Never fails; the `Result`
    /// is the forward-compatible failure channel the host is written against.
    pub fn run(&self, book: Book) -> (r: Result<Book, TransformError>)
        ensures
            r matches Ok(b) && book_processed(book, b),
    {
        let mut sections: Vec<BookItem> = Vec::new();
        let mut j: usize = 0;
        while j < book.sections.len()
            invariant
                j <= book.sections@.len(),
                sections@.len() == j,
                forall|k: int|
                    0 <= k < j ==> item_processed(#[trigger] book.sections@[k], sections@[k]),
            decreases book.sections@.len() - j,
        {
            let s = process_item(&book.sections[j]);
            sections.push(s);
            j += 1;
        }
        Ok(Book { sections })
    }

    /// Whether this preprocessor supports a renderer: exactly the HTML
    /// renderer is supported, and no other.
    pub fn supports_renderer(&self, renderer: &str) -> (r: bool)
        ensures
            r == (renderer@ == "html"@),
    {
        str_eq(renderer, "html")
    }
}

} // verus!

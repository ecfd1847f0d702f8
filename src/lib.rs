//! A scoped stack of values: a call pushes a value for the extent of a
//! continuation, nested code sees every active value, innermost first, and the
//! value comes off again before the pushing call returns.

mod list;
mod render;

pub use list::{
    lemma_empty_traversal, lemma_nested_traversal, lemma_push_traversal, lemma_traversal_depth,
    newest_first, Dbg, IntrusiveList, Iter, IterMut,
};
pub use render::{bracketed, joined, render_entries};

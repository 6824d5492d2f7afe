//! Parsing, checking and writing OPML documents: outlines of named entries,
//! most often lists of feed subscriptions.
//!
//! Text is read into a generic XML element tree, the tree into the typed
//! records of [`OPML`], and the records checked: the version must be `1.0`,
//! `1.1` or `2.0`, and the body must hold at least one outline. Writing goes
//! the other way, from the records to an element tree to text.
use vstd::prelude::*;

pub mod binding;
pub mod decimal;
pub mod opml;
pub mod tree;
pub mod xml;

pub use opml::{extract_all_outlines, Body, Error, Head, Outline, OPML};
pub use tree::{Attribute, Element, XmlFault};

verus! {

} // verus!

//! The tree-building half of an HTML parser: what a browser's script task does with the
//! callbacks of a streaming HTML tokenizer.
//!
//! The tokenizer, the network, the style-sheet parser and the threads that run them are
//! outside this crate. The crate holds the document tree, the choice of an interface for
//! every tag, the decisions taken when an element is created or closed, and the two
//! listeners that gather style sheets and scripts.

pub mod css_listener;
pub mod document;
pub mod element;
pub mod forest;
pub mod interface;
pub mod js_listener;
pub mod messages;
pub mod parser;
pub mod text;
pub mod trace;

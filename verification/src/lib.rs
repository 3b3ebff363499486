//! Structural matching of the children of a parse-tree node against an ordered
//! list of branch patterns.
//!
//! Every child carries a rule tag. A branch pattern lists the tags it expects,
//! with at most one variadic item that stands for a run of children with one
//! tag. Dispatch selects the first branch whose pattern fits the tags of the
//! children, converts each child with a function supplied by the caller, and
//! binds the results to the names the pattern declares.
//!
//! * [`pattern`]: branch patterns and how they are split into prefix, variadic
//!   item and suffix.
//! * [`matcher`]: whether a pattern fits a sequence of tags.
//! * [`window`]: the positions of the children, taken from both ends.
//! * [`order`]: the order in which children are converted and the order in
//!   which the results are bound.
//! * [`extract`]: the conversion of the children, one at a time, and the
//!   bindings that result.
//! * [`binding`]: bindings and their lookup by name.
//! * [`dispatch`]: selection of the first fitting branch and the dispatch as a
//!   whole.
//! * [`render`]: the observed tags as text, for error messages.
//! * [`tag`]: rule tags and nodes.

pub mod binding;
pub mod dispatch;
pub mod extract;
pub mod matcher;
pub mod order;
pub mod pattern;
pub mod render;
pub mod tag;
pub mod window;

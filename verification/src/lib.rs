//! Closure conversion for a two-phase language: every inflight closure that is
//! written in preflight code becomes a preflight class with a single inflight
//! method, and the closure expression becomes a construction of that class.
//!
//! * [`ast`] holds the syntax tree, [`view`] its mathematical model, and
//!   [`named_args`] the named arguments of a call.
//! * [`closure_transform`] is the conversion, and [`rename_this`] the
//!   renaming of `this` that it needs inside instance methods. [`names`]
//!   makes the names of the new classes and bindings.
//! * [`conversion`] and [`synthesis`] say, on the model, what the conversion
//!   makes of a tree; [`count`] says how many closures it converts.
//! * [`laws`], [`placement`], [`scoping`], [`settle`] and [`uniqueness`] prove
//!   what holds of every conversion.

pub mod ast;
pub mod closure_transform;
pub mod conversion;
pub mod count;
pub mod laws;
pub mod named_args;
pub mod names;
pub mod placement;
pub mod rename_this;
pub mod scoping;
pub mod settle;
pub mod synthesis;
pub mod uniqueness;
pub mod view;

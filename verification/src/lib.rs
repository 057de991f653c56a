//! Generation of parameterized integration-test trees.
//!
//! A definition names dimensions (each with an ordered list of values) and
//! tests (each selecting some dimensions). Every test is expanded into one
//! scenario per combination of values, and every scenario is materialized as a
//! directory that mirrors the test's template tree: plain files are copied,
//! templated files are rendered against the scenario's bindings.
//!
//! The library computes; it never touches the file system and never renders.
//! Whoever uses it reads the definition and the template trees, hands them
//! in, and gets back the steps to take, in order: file operations to carry
//! out, and templates to render with the context that the library made.
//!
//! - [`test_definition`]: dimensions, tests, and when a definition is well
//!   formed.
//! - [`product`]: combinations of values, enumerated by `itertools`.
//! - [`naming`]: bindings and the directory names made of them.
//! - [`paths`]: the layout of paths, and the template suffix.
//! - [`entry`]: the entries of a template tree and their kinds.
//! - [`operation`]: the file operations that are carried out.
//! - [`plan`]: the steps that a generation hands out: file operations and
//!   requests to render.
//! - [`template`], [`rendering`]: contexts and parsed templates, held by
//!   `tera`, and what becomes of the outcome of a rendering.
//! - [`test_generation`]: scenarios, tests and the whole generation.
//! - [`laws`]: what holds of every generation.
//! - [`error`]: the failures.

pub mod entry;
pub mod error;
pub mod laws;
pub mod naming;
pub mod operation;
pub mod paths;
pub mod plan;
pub mod product;
pub mod rendering;
pub mod template;
pub mod test_definition;
pub mod test_generation;

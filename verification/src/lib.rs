//! Removal of expressions of which the value is not used, as a minifier of ECMAScript does it.
//!
//! [`peephole::PeepholeOptimizations::remove_unused_expression`] leaves of an expression what has
//! to be evaluated for its side effects: `[1, a()]` becomes `a()`, `a() ? 1 : b()` becomes
//! `a() || b()`, and `'a' + 'b'` goes altogether.
//!
//! - [`ast`] is the expression tree, [`ctx`] what is known of the program around it.
//! - [`analysis`] asks the static analyses of `oxc_ecmascript` about an expression. They see its
//!   [`shape`], in the syntax [`nodes`] of the parser; some nodes are [`opaque`] throughout.
//! - [`rewrite`] says what becomes of an expression; [`peephole`], [`operators`], [`literals`] and
//!   [`calls`] do it, with [`boolean_context`], [`join`] and [`optional_chain`] for parts of it.
//! - [`outcomes`] tells what becomes of an expression by what becomes of its parts, and [`effects`]
//!   what the analyses find of it by what they find of its parts. [`deeds`] holds that what an
//!   expression surely does is not lost, and [`fields`] that the views of the tree lose nothing.
//! - [`semantics`] says what evaluating an expression does, and [`preservation`] proves that the
//!   pass keeps it. [`laws`] and [`targets`] hold what else is true of every outcome.
pub mod analysis;
pub mod ast;
pub mod boolean_context;
pub mod calls;
pub mod ctx;
pub mod deeds;
pub mod effects;
pub mod fields;
pub mod join;
pub mod laws;
pub mod literals;
pub mod measure;
pub mod nodes;
pub mod opaque;
pub mod operators;
pub mod optional_chain;
pub mod outcomes;
pub mod peephole;
pub mod preservation;
pub mod rewrite;
pub mod semantics;
pub mod shape;
pub mod targets;

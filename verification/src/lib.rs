//! Restructuring of annotated type declarations.
//!
//! A declaration, a record or a tagged union, bears directives. Each asks
//! for one derived type: a *view*, which keeps some members as they are,
//! or a *patch*, which wraps every member it keeps so that a value of it
//! says member by member whether to change the original. This library
//! decides what each derived type is and what its conversions do; it
//! neither reads source text nor writes it.
//!
//! - [`token`]: token trees, in which the arguments of a directive come.
//! - [`cursor`]: taking named arguments out of a token sequence.
//! - [`selector`]: which members a directive keeps, and how a selector is
//!   laid over a type-level base.
//! - [`policy`]: the closed choices of a directive.
//! - [`args`]: the resolved configuration of a directive, under the
//!   type-level block of its declaration.
//! - [`decl`]: the declaration, as far as it is read.
//! - [`view`], [`patch`]: the two generators.
//! - [`value`]: what the derived conversions do to values.
//! - [`expand`]: the expansion of a whole declaration.
//! - [`basic`]: the basic generators, which know no type-level block.
//! - [`error`]: the failures.

pub mod args;
pub mod basic;
pub mod cursor;
pub mod decl;
pub mod error;
pub mod expand;
pub mod patch;
pub mod policy;
pub mod selector;
pub mod text;
pub mod token;
pub mod value;
pub mod view;

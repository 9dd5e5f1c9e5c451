//! Documentation-driven annotator for generated C library bindings.
//!
//! The crate models a hand-curated catalog of a C library's documented
//! types and functions, classifies every function by whether calling it
//! can trigger a network round trip, derives the allow/block lists that
//! drive two separate binding-generation passes, and injects per-item
//! documentation comments into the generated declaration text.

use vstd::prelude::*;

pub mod annotate;
pub mod callback;
pub mod doc;
pub mod driver;
pub mod name_map;
pub mod rst;
pub mod strutil;

verus! {

} // verus!

//! Refurbishment evidence engine.
//!
//! The engine folds heterogeneous, possibly-missing hardware signals
//! (serial number, firmware text, enrollment flags, storage and display
//! descriptors, battery readings) into a single judgment of whether the
//! machine looks refurbished or part-swapped, with a confidence tier and
//! a provenance report. Gathering the raw signals is the caller's job;
//! everything here is a pure computation over one batch of facts.

pub mod engine;
pub mod facts;
pub mod parse;
pub mod probe;
pub mod text;

use vstd::prelude::*;

verus! {

} // verus!

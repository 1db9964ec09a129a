//! Selection and rendering logic for a terminal sprite viewer.
//!
//! The library holds the catalog of creature names and forms, the fixed
//! generation table, the selector that turns a user request into one
//! concrete (name, shiny, size) tuple, and the renderer that looks the
//! tuple up in an in-memory asset store.

pub mod assets;
pub mod catalog;
pub mod generations;
pub mod rng;
pub mod selector;
pub mod text;

use vstd::prelude::*;

verus! {

/// Everything that can go wrong while resolving or rendering a request.
#[derive(Debug, Clone, PartialEq, Eq)]
pub enum Error {
    /// The requested name is not in the catalog.
    UnknownPokemon,
    /// The requested form is not among the entry's alternate forms;
    /// carries the list of valid alternates (possibly empty).
    UnknownForm { alternatives: Vec<String> },
    /// The generation spec string could not be parsed.
    InvalidGenerationFormat,
    /// A generation number outside the table was supplied.
    InvalidGeneration,
    /// A drawn id exceeds the catalog length.
    IndexOutOfBounds,
    /// Every name in a random-by-names request was invalid.
    NoValidNames,
    /// No asset is stored under the resolved key.
    AssetNotFound,
    /// The stored asset bytes are not valid UTF-8.
    AssetNotUtf8,
}

} // verus!

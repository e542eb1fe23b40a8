//! What is decided around loading and saving the catalog file.
//!
//! Reading, writing and the file format are the caller's. This module holds
//! the kinds of failure and the rule that a catalog that cannot be loaded is
//! replaced by the empty one.

use vstd::prelude::*;
use crate::model::{AppDataStruct, SeriesView};

verus! {

/// Why the catalog could not be loaded or saved, with the reason in words.
#[derive(Debug, PartialEq, Eq)]
pub enum StoreError {
    /// The file could not be read or written.
    Io(String),
    /// The file does not hold a catalog.
    Parse(String),
    /// The catalog could not be written down.
    Serialize(String),
}

impl StoreError {
    /// The reason in words.
    pub fn reason(&self) -> (r: &String)
        ensures
            *r == match *self {
                StoreError::Io(s) => s,
                StoreError::Parse(s) => s,
                StoreError::Serialize(s) => s,
            },
    {
        match self {
            StoreError::Io(s) => s,
            StoreError::Parse(s) => s,
            StoreError::Serialize(s) => s,
        }
    }
}

/// The catalog to start with, given how loading went: the loaded catalog,
/// or the empty catalog together with the failure, which is handed back as a
/// warning and stops nothing.
pub fn loaded_or_empty(loaded: Result<AppDataStruct, StoreError>) -> (r: (
    AppDataStruct,
    Option<StoreError>,
))
    ensures
        match loaded {
            Ok(catalog) => r.0 == catalog && r.1 is None,
            Err(e) => r.0@ == Seq::<SeriesView>::empty() && r.1 == Some(e),
        },
{
    match loaded {
        Ok(catalog) => (catalog, None),
        Err(e) => (AppDataStruct::new(), Some(e)),
    }
}

} // verus!

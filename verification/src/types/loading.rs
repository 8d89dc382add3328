//! Marker types for the states of a load.

use vstd::prelude::*;

verus! {

/// Not yet loaded
#[derive(Debug)]
pub struct NotLoaded;

/// Currently loading
#[derive(Debug)]
pub struct Loading;

/// Successfully loaded
#[derive(Debug)]
pub struct Loaded;

/// Failed to load
#[derive(Debug)]
pub struct Failed;

} // verus!

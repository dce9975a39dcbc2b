//! Plain marker and naming components attached to entities.
use vstd::prelude::*;

verus! {

/// Marks an entity as hidden.
#[derive(Clone, Copy, Debug, PartialEq, Eq, Structural)]
pub struct Hidden;

/// The display name of an entity.
#[derive(Clone, Debug)]
pub struct Name(pub String);

} // verus!

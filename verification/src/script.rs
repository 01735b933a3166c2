//! Script building blocks that carry no fractional values.
use crate::models::Element;
use vstd::prelude::*;

verus! {

/// Where a script comes from.
#[derive(Debug, Clone, Copy, PartialEq, Eq, Structural)]
pub enum ScriptType {
    ExistingNovel,
    RandomGenerated,
    Custom,
}

/// A faction or sect of the world.
#[derive(Debug, Clone, PartialEq, Eq)]
pub struct Faction {
    pub id: String,
    pub name: String,
    pub description: String,
    pub power_level: u32,
}

/// A cultivation technique.
#[derive(Debug, Clone, PartialEq, Eq)]
pub struct Technique {
    pub id: String,
    pub name: String,
    pub description: String,
    pub required_realm_level: u32,
    pub element: Option<Element>,
}

} // verus!

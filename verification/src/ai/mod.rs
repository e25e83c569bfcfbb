//! The computer opponent's decision rules over plain-value observations.
pub mod kinds;
pub mod targets;
pub mod model;
pub mod policies;
pub mod production;
pub mod ids;
pub mod ranking;
pub mod keyed;
pub mod raids;
pub mod harassment;
pub mod budget;
pub mod defense;
pub mod expansion;
pub mod escort_party;
pub mod frontal;
pub mod resources;
pub mod memory;
pub mod priorities;

//! The decision logic of the facilitated workshop mode of Half-Earth
//! Socialism: the per-cycle policy budget, the policy-card deck and its
//! unlock graph, the moderator-facing copy, and the cycle report and
//! final debrief data.
pub mod text;
pub mod deck;
pub mod workshop;
pub mod order;
pub mod plan;
pub mod report;
pub mod ending;

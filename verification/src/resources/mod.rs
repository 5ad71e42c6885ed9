//! Resource profiles and the rules that assign them to programs.

pub mod resource_profile;
pub mod rules;

pub use resource_profile::{Budget, ResourceProfile};
pub use rules::profile_for;

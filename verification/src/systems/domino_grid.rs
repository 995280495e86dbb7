//! The domino grid: its data model, its notifications and the systems that
//! move pieces and prune placement areas.
pub mod components;
pub mod dispatch;
pub mod events;
pub mod systems;

//! Physics-interaction core of a 2D platformer: one-way platform contact
//! filtering, ground detection, character movement and patrolling
//! platforms, all over fixed-point quantities.

pub mod fixed;
pub mod one_way;
pub mod ground;
pub mod character_controller;
pub mod platform_motion;
pub mod enemy;
pub mod player;

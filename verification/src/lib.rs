//! The simulation core of a small coin-collecting arcade game.
//!
//! A player cube moves on a plane and collects the coins whose grid cell it
//! enters. All quantities are fixed-point integers, so every rule of the
//! game is stated and proved in exact arithmetic.

pub mod coin_animator;
pub mod entities;
pub mod error;
pub mod pickup_detector;
pub mod player_controller;
pub mod score_text;
pub mod spawn;
pub mod units;
pub mod world;

//! Synthetic sequence records that avoid forbidden patterns, with optional pattern spiking.
pub mod ambiguity;
pub mod args;
pub mod config;
pub mod text;
pub mod expand;
pub mod matcher;
pub mod sample;
pub mod spike;
pub mod run;

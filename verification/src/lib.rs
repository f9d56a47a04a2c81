//! Verified logic of the Electrode ground station.

pub mod authority;
pub mod autopilot;
pub mod binary64;
pub mod bridge;
pub mod catalog;
pub mod clock;
pub mod control;
pub mod devices;
pub mod digest;
pub mod discovery;
pub mod gate;
pub mod json;
pub mod laws;
pub mod limits;
pub mod listeners;
pub mod manifest;
pub mod manual;
pub mod parameters;
pub mod policy;
pub mod requests;
pub mod session;
pub mod settings;
pub mod sim_bridge;
pub mod simulation;
pub mod sorting;
pub mod status;
pub mod tables;
pub mod telemetry;
pub mod text;
pub mod text_map;
pub mod transfer;
pub mod upload;
pub mod velocity_budget;

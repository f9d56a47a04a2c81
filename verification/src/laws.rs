//! What the library promises as a whole: laws that relate inputs and results directly.

pub mod calls;
pub mod commands;
pub mod images;
pub mod judgements;
pub mod ledgers;
pub mod manifests;
pub mod network;
pub mod numbers;
pub mod profiles;
pub mod station;
pub mod texts;
pub mod transfers;
pub mod uploads;
pub mod views;

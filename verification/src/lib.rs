//! Verified core of the pool/spa daemon: the decision logic, schedules,
//! state machines and stores that the daemon's I/O layer drives.

pub mod text;
pub mod adapter;
pub mod calibrator;
pub mod config;
pub mod devices;
pub mod heat;
pub mod history;
pub mod network_secret;
pub mod push;
pub mod routes;
pub mod scenes;
pub mod scheduled_heat;
pub mod scheduler;
pub mod spa_notifications;
pub mod state;
pub mod thermal;
pub mod weather;

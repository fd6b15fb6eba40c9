//! Decision logic of a BACnet/IP to MQTT republisher, with machine-checked contracts.

pub mod address;
pub mod app;
pub mod bacnet;
pub mod clock;
pub mod config;
pub mod import;
pub mod laws;
pub mod log;
pub mod model;
pub mod mqtt;
pub mod network;
pub mod numerals;
pub mod order;
pub mod pages;
pub mod seed;
pub mod settings;
pub mod statuses;
pub mod text;
pub mod topic;
pub mod value;
pub mod worker;

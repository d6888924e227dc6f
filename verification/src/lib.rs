//! Link-bonding engine of a userspace VPN daemon: control frames, link health,
//! bonding policies and configuration rules, with machine-checked contracts.

pub mod address;
pub mod bond;
pub mod config;
pub mod control;
pub mod error;
pub mod keys;
pub mod link;
pub mod manager;
pub mod noise;
pub mod provision;
pub mod schedule;
pub mod supervisor;
pub mod text;

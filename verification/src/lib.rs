//! Fan curve control for TUXEDO laptops: the configuration model, curve
//! interpolation, the daemon's filtering and safety rules, the embedded
//! controller request table, and the command-line decisions.

pub mod config;
pub mod filter;
pub mod controller;
pub mod tuxedo;
pub mod cli;

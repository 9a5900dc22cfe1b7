//! Core logic of an ACME DNS-01 certificate renewal tool: configuration
//! profiles, DNS challenge naming, the restricted signer's request checks,
//! cron scheduling and certificate renewal decisions.
pub mod text;
pub mod dns;
pub mod acme;
pub mod smap;
pub mod config;
pub mod crypto;
pub mod signer;
pub mod json;
pub mod agent;
pub mod cron;
pub mod monitor;
pub mod cert;
pub mod providers;
pub mod commands;
pub mod nginx;
pub mod workflow;

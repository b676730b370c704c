//! Decision logic of a watchdog that keeps a CUPS queue for a network printer
//! enabled: parsing of CUPS tool output, mDNS search decisions, the watchdog's
//! state machine and the installer's plan.

pub mod text;
pub mod cups;
pub mod discovery;
pub mod config;
pub mod watchdog;
pub mod installer;

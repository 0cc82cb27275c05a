//! PulseHub: verified device, profile, configuration and IPC logic for the
//! Logitech G102 LIGHTSYNC mouse configuration tool.
#![allow(unused_imports)]

use vstd::prelude::*;

pub mod model;
pub mod text;
pub mod fmt;
pub mod profile;
pub mod hidpp;
pub mod g102;
pub mod discovery;
pub mod device;
pub mod config;
pub mod ipc;
pub mod agent;
pub mod local_log;
pub mod coordinator;
pub mod gui;
pub mod draft;
pub mod panel;
pub mod client;
pub mod cli;
pub mod probe;

verus! {

} // verus!

//! NanoPulse: the logic of the IoT toolkit's devices, gateways and server,
//! with its contracts.
use vstd::prelude::*;

pub mod api;
pub mod context;
pub mod device;
pub mod gateway_config;
pub mod gateway_mqtt;
pub mod hex;
pub mod home_assistant;
pub mod integration;
pub mod jitqueue;
pub mod json;
pub mod lua_helpers;
pub mod profile;
pub mod region;
pub mod semtech_helpers;
pub mod semtech_sx1302;
pub mod server_config;
pub mod storage;
pub mod structs;
pub mod topic;
pub mod wifi;

verus! {

} // verus!

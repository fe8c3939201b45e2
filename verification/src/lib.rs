//! Verified core of a lightweight workload orchestrator.
//!
//! A central controller accepts declarative workload definitions and
//! dispatches scheduling decisions to worker agents; each worker boots a
//! Firecracker-style microVM per function workload, wires up host-side
//! networking (tap device, IP allocation, forwarding rules), fetches and
//! caches rootfs images, and cleans everything up on teardown.
//!
//! The library holds the logic of that runtime: the IP pool, the network
//! fabric state machine, the microVM configuration, the instance lifecycle
//! with compensating teardown, the image cache protocol, the workload
//! definition format, and the controller's request routing. Effectful
//! operations (syscalls, HTTP, the VM process) are driven by a thin
//! unverified shell that performs the actions this library decides on.

pub mod controller;
pub mod element;
pub mod errors;
pub mod fetcher;
pub mod ip_pool;
pub mod json;
pub mod net_utils;
pub mod network;
pub mod runtime;
pub mod text;
pub mod workload;


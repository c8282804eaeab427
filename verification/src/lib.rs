//! Monitoring and interactive control of supervised services: the binary
//! status-record decoder with its monotonic-time arithmetic, the selection
//! expression parser, the service registry, the keystroke-driven command
//! state machine, and the render-ready display line for each service.
//!
//! The filesystem and the terminal stay outside: callers perform the probes
//! and the control-byte writes, and everything decided from their outcomes
//! is specified and verified here.

pub mod interpreter;
pub mod machine;
pub mod registry;
pub mod render;
pub mod status;
pub mod tai;
mod text;

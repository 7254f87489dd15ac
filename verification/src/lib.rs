//! Verified control logic for a 28BYJ-48 stepper-motor turntable driven
//! through a ULN2003 board and commanded over a small HTTP API.

pub mod control;
pub mod fixed;
pub mod http;
pub mod json;
pub mod link;
pub mod response;
pub mod stepper;
pub mod text;

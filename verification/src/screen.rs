//! Screen capture and frame encoding.

pub mod capture;
pub mod encoder;

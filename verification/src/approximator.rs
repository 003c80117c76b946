//! Traits of the approximators that stand outside the network code.
pub mod encoder;

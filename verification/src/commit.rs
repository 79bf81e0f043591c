//! The commitment engine: binding outside data into a transaction output.

pub mod engine;
pub mod lnpbp4;
pub mod merkle;
pub mod p2c;
pub mod tapret;

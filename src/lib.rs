//! Decoding and re-encoding of BPK1 letter containers and the records nested in them.

pub mod bits;
pub mod blocks;
pub mod bpk1;
pub mod color;
pub mod error;
pub mod letter;
pub mod mask;
pub mod mii_data;
pub mod reader;
pub mod sheet;
pub mod stationery;
pub mod text;

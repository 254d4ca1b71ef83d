//! The reasons a letter or one of its blocks cannot be decoded.

use crate::bpk1::BPK1Error;
use crate::mii_data::MiiDeserializeError;
use crate::stationery::StationeryDeserializeError;
use vstd::prelude::*;

verus! {

/// The first failure met while decoding, by kind.
#[derive(Clone, Copy, Debug, PartialEq, Eq, Structural)]
pub enum DecodeError {
    /// The container itself could not be read.
    Container(BPK1Error),
    /// An identity block is shorter than a Mii record.
    MiiTooShort,
    /// An identity block holds a record that cannot be decoded.
    Mii(MiiDeserializeError),
    /// A stationery block holds a record that cannot be decoded.
    Stationery(StationeryDeserializeError),
    /// A palette block is shorter than its declared colors.
    ColorsTooShort,
    /// A stroke-sheet block is shorter than its declared strokes.
    SheetTooShort,
}

} // verus!

//! Byte-string vocabulary of rows and cells.
use vstd::prelude::*;

verus! {

/// Opaque identifier of a row within a table.
pub type RowKey = Vec<u8>;

/// Opaque name (qualifier) of a cell within a row.
pub type CellName = Vec<u8>;

/// Opaque content of one logical version of a cell.
pub type CellValue = Vec<u8>;

/// The cells of one row, in the order their qualifiers arrived.
pub type RowData = Vec<(CellName, CellValue)>;

/// A borrowed run of cells.
pub type RowDataSlice<'a> = &'a [(CellName, CellValue)];

/// A decoded cell payload, tagged by the encoding it was stored in.
pub enum CellData<B, P> {
    Bincode(B),
    Protobuf(P),
}

} // verus!

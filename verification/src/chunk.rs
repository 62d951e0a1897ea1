//! The unit delivered by a streamed row read, and its mathematical view.
use vstd::prelude::*;

verus! {

/// Row-level signal a chunk may carry.
#[derive(Clone, Copy, Debug, PartialEq, Eq)]
pub enum RowStatus {
    /// The server asks the reader to drop the row in progress.
    ResetRow(bool),
    /// The row in progress is complete.
    CommitRow(bool),
}

/// One partial description of a row, as it arrives on the wire.
#[derive(Clone, Debug)]
pub struct CellChunk {
    /// Key of the row this chunk belongs to; empty when the chunk does not name one.
    pub row_key: Vec<u8>,
    /// Name of the cell this chunk opens; `None` when it continues the open cell.
    pub qualifier: Option<Vec<u8>>,
    /// Version of the cell in microseconds; zero on a plain continuation.
    pub timestamp_micros: i64,
    /// Bytes to append to the value of the open cell.
    pub value: Vec<u8>,
    /// Row-level signal, if any.
    pub row_status: Option<RowStatus>,
}

/// What a chunk says, as plain mathematical values.
#[verifier::ext_equal]
pub struct Fragment {
    pub row_key: Seq<u8>,
    pub qualifier: Option<Seq<u8>>,
    pub timestamp: int,
    pub value: Seq<u8>,
    pub commit: bool,
}

impl View for CellChunk {
    type V = Fragment;

    open spec fn view(&self) -> Fragment {
        Fragment {
            row_key: self.row_key@,
            qualifier: match self.qualifier {
                Some(q) => Some(q@),
                None => None,
            },
            timestamp: self.timestamp_micros as int,
            value: self.value@,
            commit: self.row_status matches Some(RowStatus::CommitRow(_)),
        }
    }
}

/// The fragments a list of chunks stands for, in order.
pub open spec fn fragments(chunks: Seq<CellChunk>) -> Seq<Fragment> {
    Seq::new(chunks.len(), |i: int| chunks[i]@)
}

} // verus!

//! The reassembly state machine, stated over sequences of bytes.
use vstd::prelude::*;
use crate::chunk::Fragment;

verus! {

/// A cell: its name and its value.
pub type Cell = (Seq<u8>, Seq<u8>);

/// A row: its key and its cells in arrival order.
pub type Row = (Seq<u8>, Seq<Cell>);

/// Everything the reassembler remembers between two fragments.
#[verifier::ext_equal]
pub struct Assembly {
    /// Rows completed so far, oldest first.
    pub rows: Seq<Row>,
    /// Key of the row under construction, once a fragment has named it.
    pub row_key: Option<Seq<u8>>,
    /// Cells of the row under construction that are already closed.
    pub cells: Seq<Cell>,
    /// Name of the open cell, if one is open.
    pub cell_name: Option<Seq<u8>>,
    /// Version that the buffered value belongs to.
    pub cell_timestamp: int,
    /// Bytes buffered for the open cell.
    pub cell_value: Seq<u8>,
    /// Whether incoming bytes are retained (false while a stale version streams by).
    pub keep: bool,
}

impl Assembly {
    /// The state at the start of a read.
    pub open spec fn fresh() -> Assembly {
        Assembly {
            rows: Seq::empty(),
            row_key: None,
            cells: Seq::empty(),
            cell_name: None,
            cell_timestamp: 0,
            cell_value: Seq::empty(),
            keep: true,
        }
    }

    /// The closed cells followed by the open cell, if one is open.
    pub open spec fn flushed(self) -> Seq<Cell> {
        match self.cell_name {
            Some(name) => self.cells.push((name, self.cell_value)),
            None => self.cells,
        }
    }

    /// Bytes that arrived while no cell was open; the next cell to open
    /// starts with them.
    pub open spec fn pending(self) -> Seq<u8> {
        if self.cell_name is Some {
            Seq::empty()
        } else {
            self.cell_value
        }
    }

    /// Nothing of a row is held: no key, no cell, no byte.
    pub open spec fn between_rows(self) -> bool {
        &&& self.row_key is None
        &&& self.cells.len() == 0
        &&& self.cell_name is None
        &&& self.cell_value.len() == 0
    }

    /// A non-empty row key in the fragment names the row under construction.
    pub open spec fn keyed(self, f: Fragment) -> Assembly {
        if f.row_key.len() > 0 {
            Assembly { row_key: Some(f.row_key), ..self }
        } else {
            self
        }
    }

    /// A qualifier closes the open cell and opens the next one.
    pub open spec fn opened(self, name: Seq<u8>, timestamp: int) -> Assembly {
        Assembly {
            cells: self.flushed(),
            cell_name: Some(name),
            cell_timestamp: timestamp,
            cell_value: self.pending(),
            keep: true,
            ..self
        }
    }

    /// A fragment without qualifier continues the open cell. A non-zero
    /// timestamp announces another version: an older one is ignored from
    /// here on, any other replaces what was buffered.
    pub open spec fn continued(self, timestamp: int) -> Assembly {
        if timestamp == 0 {
            self
        } else if timestamp < self.cell_timestamp {
            Assembly { keep: false, ..self }
        } else {
            Assembly { cell_timestamp: timestamp, cell_value: Seq::empty(), keep: true, ..self }
        }
    }

    /// Bytes are buffered only while the current version is kept.
    pub open spec fn fed(self, bytes: Seq<u8>) -> Assembly {
        if self.keep {
            Assembly { cell_value: self.cell_value + bytes, ..self }
        } else {
            self
        }
    }

    /// A commit closes the open cell, emits the row if it has a key, and
    /// starts the next row from nothing.
    pub open spec fn committed(self) -> Assembly {
        Assembly {
            rows: match self.row_key {
                Some(key) => self.rows.push((key, self.flushed())),
                None => self.rows,
            },
            row_key: None,
            cells: Seq::empty(),
            cell_name: None,
            cell_value: Seq::empty(),
            ..self
        }
    }

    /// The state after a fragment has been taken in: committed if the
    /// fragment carried the marker, as it is otherwise.
    pub open spec fn closing(self, commit: bool) -> Assembly {
        if commit {
            self.committed()
        } else {
            self
        }
    }

    /// The state after one more fragment.
    pub open spec fn step(self, f: Fragment) -> Assembly {
        let keyed = self.keyed(f);
        let cell = match f.qualifier {
            Some(name) => keyed.opened(name, f.timestamp),
            None => keyed.continued(f.timestamp),
        };
        cell.fed(f.value).closing(f.commit)
    }

    /// The state after a run of fragments, taken in order.
    pub open spec fn run(self, fs: Seq<Fragment>) -> Assembly
        decreases fs.len(),
    {
        if fs.len() == 0 {
            self
        } else {
            self.run(fs.drop_last()).step(fs.last())
        }
    }
}

/// The rows that a whole stream of fragments decodes to.
pub open spec fn decoded(fs: Seq<Fragment>) -> Seq<Row> {
    Assembly::fresh().run(fs).rows
}

} // verus!

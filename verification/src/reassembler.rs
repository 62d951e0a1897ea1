//! The executable reassembler: chunks in, complete rows out.
use vstd::prelude::*;
use crate::cell::{CellName, CellValue, RowData, RowKey};
use crate::chunk::{fragments, CellChunk, RowStatus};
use crate::model::{decoded, Assembly, Cell, Row};

verus! {

/// The cells of a row under construction, as mathematical values.
pub open spec fn cells_of(data: RowData) -> Seq<Cell> {
    Seq::new(data@.len(), |i: int| (data@[i].0@, data@[i].1@))
}

/// A list of decoded rows, as mathematical values.
pub open spec fn rows_of(rows: Vec<(RowKey, RowData)>) -> Seq<Row> {
    Seq::new(rows@.len(), |i: int| (rows@[i].0@, cells_of(rows@[i].1)))
}

/// Holds one row and one cell at a time while a stream is read.
pub struct Reassembler {
    rows: Vec<(RowKey, RowData)>,
    row_key: Option<RowKey>,
    row_data: RowData,
    cell_name: Option<CellName>,
    cell_timestamp: i64,
    cell_value: CellValue,
    cell_version_ok: bool,
}

impl View for Reassembler {
    type V = Assembly;

    closed spec fn view(&self) -> Assembly {
        Assembly {
            rows: rows_of(self.rows),
            row_key: match self.row_key {
                Some(key) => Some(key@),
                None => None,
            },
            cells: cells_of(self.row_data),
            cell_name: match self.cell_name {
                Some(name) => Some(name@),
                None => None,
            },
            cell_timestamp: self.cell_timestamp as int,
            cell_value: self.cell_value@,
            keep: self.cell_version_ok,
        }
    }
}

impl Reassembler {
    /// A reassembler that has seen nothing yet.
    pub fn new() -> (r: Reassembler)
        ensures
            r@ == Assembly::fresh(),
    {
        let r = Reassembler {
            rows: Vec::new(),
            row_key: None,
            row_data: Vec::new(),
            cell_name: None,
            cell_timestamp: 0,
            cell_value: Vec::new(),
            cell_version_ok: true,
        };
        assert(rows_of(r.rows) =~= Seq::<Row>::empty());
        assert(cells_of(r.row_data) =~= Seq::<Cell>::empty());
        assert(r.cell_value@ =~= Seq::<u8>::empty());
        r
    }

    /// Moves the open cell, if there is one, to the end of the row under
    /// construction and empties the buffer.
    fn flush_cell(&mut self)
        ensures
            final(self)@ == (Assembly {
                cells: old(self)@.flushed(),
                cell_name: None,
                cell_value: old(self)@.pending(),
                ..old(self)@
            }),
    {
        let name = self.cell_name.take();
        match name {
            Some(name) => {
                let mut value: Vec<u8> = Vec::new();
                core::mem::swap(&mut self.cell_value, &mut value);
                let ghost before = cells_of(self.row_data);
                self.row_data.push((name, value));
                assert(cells_of(self.row_data) =~= before.push((name@, value@)));
                assert(self.cell_value@ =~= Seq::<u8>::empty());
            },
            None => {},
        }
    }

    /// Takes in the next chunk of the stream.
    pub fn push(&mut self, chunk: CellChunk)
        ensures
            final(self)@ == old(self)@.step(chunk@),
    {
        let CellChunk { row_key, qualifier, timestamp_micros, value, row_status } = chunk;
        if row_key.len() > 0 {
            self.row_key = Some(row_key);
        }
        match qualifier {
            Some(name) => {
                self.flush_cell();
                self.cell_name = Some(name);
                self.cell_timestamp = timestamp_micros;
                self.cell_version_ok = true;
            },
            None => {
                if timestamp_micros != 0 {
                    if timestamp_micros < self.cell_timestamp {
                        self.cell_version_ok = false;
                    } else {
                        self.cell_version_ok = true;
                        self.cell_value = Vec::new();
                        self.cell_timestamp = timestamp_micros;
                        assert(self.cell_value@ =~= Seq::<u8>::empty());
                    }
                }
            },
        }
        if self.cell_version_ok {
            let mut bytes = value;
            self.cell_value.append(&mut bytes);
        }
        let commit = match row_status {
            Some(RowStatus::CommitRow(_)) => true,
            _ => false,
        };
        if commit {
            self.flush_cell();
            let key = self.row_key.take();
            let mut data: RowData = Vec::new();
            core::mem::swap(&mut self.row_data, &mut data);
            assert(cells_of(self.row_data) =~= Seq::<Cell>::empty());
            match key {
                Some(key) => {
                    let ghost before = rows_of(self.rows);
                    self.rows.push((key, data));
                    assert(rows_of(self.rows) =~= before.push((key@, cells_of(data))));
                },
                None => {},
            }
            self.cell_value = Vec::new();
            assert(self.cell_value@ =~= Seq::<u8>::empty());
        }
    }

    /// Takes in all the chunks of one stream message, in order.
    pub fn push_all(&mut self, chunks: Vec<CellChunk>)
        ensures
            final(self)@ == old(self)@.run(fragments(chunks@)),
    {
        let ghost start = self@;
        let ghost all = chunks@;
        for chunk in it: chunks
            invariant
                it.seq() == all,
                self@ == start.run(fragments(all.take(it.index() as int))),
        {
            proof {
                let done = all.take(it.index() as int);
                let next = all.take(it.index() + 1);
                assert(fragments(next).drop_last() =~= fragments(done));
                assert(fragments(next).last() == chunk@);
            }
            self.push(chunk);
        }
        assert(all.take(all.len() as int) =~= all);
    }

    /// Gives up the rows completed so far; whatever is half built is dropped.
    pub fn into_rows(self) -> (rows: Vec<(RowKey, RowData)>)
        ensures
            rows_of(rows) == self@.rows,
    {
        self.rows
    }
}

/// Decodes a whole stream of chunks into its complete rows.
pub fn decode(chunks: Vec<CellChunk>) -> (rows: Vec<(RowKey, RowData)>)
    ensures
        rows_of(rows) == decoded(fragments(chunks@)),
{
    let mut reassembler = Reassembler::new();
    reassembler.push_all(chunks);
    reassembler.into_rows()
}

} // verus!

//! What holds of whole rows: a row sent without contested versions
//! decodes to its cells in arrival order, and rows come out in the order
//! in which the stream commits them.
use vstd::prelude::*;
use crate::chunk::Fragment;
use crate::model::{decoded, Assembly, Cell, Row};
use crate::runs::{
    commit_free, lemma_commit_last, lemma_run_concat, payload, uncommitted, unmarked,
};
use crate::versions::one_cell;

verus! {

/// The cells that a run of fragments spells out when no version is
/// contested: each qualifier starts a cell with the bytes of its
/// fragment, each fragment without one extends the last cell.
pub open spec fn grouped(fs: Seq<Fragment>) -> Seq<Cell>
    decreases fs.len(),
{
    if fs.len() == 0 {
        Seq::empty()
    } else {
        let before = grouped(fs.drop_last());
        match fs.last().qualifier {
            Some(name) => before.push((name, fs.last().value)),
            None => if before.len() == 0 {
                before
            } else {
                before.update(
                    before.len() - 1,
                    (before.last().0, before.last().1 + fs.last().value),
                )
            },
        }
    }
}

/// The qualifiers of a run of fragments, in arrival order.
pub open spec fn qualifiers(fs: Seq<Fragment>) -> Seq<Seq<u8>>
    decreases fs.len(),
{
    if fs.len() == 0 {
        Seq::empty()
    } else {
        match fs.last().qualifier {
            Some(name) => qualifiers(fs.drop_last()).push(name),
            None => qualifiers(fs.drop_last()),
        }
    }
}

/// The names of a list of cells, in order.
pub open spec fn names(cells: Seq<Cell>) -> Seq<Seq<u8>> {
    Seq::new(cells.len(), |i: int| cells[i].0)
}

/// The fragments of one row, commit marker aside: the first names the
/// row, later ones repeat its key or leave it empty, cells are opened by
/// qualifier and never carry a second version; either the first fragment
/// opens a cell or the row has no cell at all.
pub open spec fn row_body(fs: Seq<Fragment>) -> bool {
    &&& fs.len() >= 1
    &&& fs[0].row_key.len() > 0
    &&& fs[0].qualifier is Some || forall|i: int|
        0 <= i < fs.len() ==> (#[trigger] fs[i]).qualifier is None
    &&& forall|i: int|
        0 <= i < fs.len() ==> (#[trigger] fs[i]).row_key.len() == 0 || fs[i].row_key
            == fs[0].row_key
    &&& forall|i: int|
        0 <= i < fs.len() ==> (#[trigger] fs[i]).qualifier is None ==> fs[i].timestamp == 0
}

/// The fragments of exactly one complete row: a row body whose last
/// fragment, and no other, carries the commit marker.
pub open spec fn plain_row(fs: Seq<Fragment>) -> bool {
    &&& row_body(fs)
    &&& forall|i: int| 0 <= i < fs.len() ==> ((#[trigger] fs[i]).commit <==> i == fs.len() - 1)
}

/// The row that the fragments of a plain row spell out.
pub open spec fn row_of(fs: Seq<Fragment>) -> Row
    recommends
        fs.len() >= 1,
{
    (fs[0].row_key, grouped(fs))
}

/// Several runs of fragments, one after the other.
pub open spec fn joined(runs: Seq<Seq<Fragment>>) -> Seq<Fragment>
    decreases runs.len(),
{
    if runs.len() == 0 {
        Seq::empty()
    } else {
        joined(runs.drop_last()) + runs.last()
    }
}

/// There are as many cells as qualifiers, and they are named by the
/// qualifiers in arrival order.
pub proof fn theorem_cells_follow_qualifiers(fs: Seq<Fragment>)
    ensures
        names(grouped(fs)) == qualifiers(fs),
    decreases fs.len(),
{
    if fs.len() == 0 {
        assert(names(grouped(fs)) =~= qualifiers(fs));
    } else {
        theorem_cells_follow_qualifiers(fs.drop_last());
        assert(names(grouped(fs)) =~= qualifiers(fs));
    }
}

/// A single cell sent in pieces groups to one cell holding the pieces
/// joined.
pub proof fn lemma_one_cell_grouped(fs: Seq<Fragment>)
    requires
        one_cell(fs),
    ensures
        grouped(fs) == seq![(fs[0].qualifier->Some_0, payload(fs))],
    decreases fs.len(),
{
    if fs.len() == 1 {
        assert(fs.drop_last() =~= Seq::<Fragment>::empty());
        assert(grouped(fs.drop_last()) =~= Seq::<Cell>::empty());
        assert(payload(fs.drop_last()) =~= Seq::<u8>::empty());
        assert(payload(fs) =~= fs[0].value);
        assert(grouped(fs) =~= seq![(fs[0].qualifier->Some_0, payload(fs))]);
    } else {
        assert(one_cell(fs.drop_last()));
        lemma_one_cell_grouped(fs.drop_last());
        assert(grouped(fs) =~= seq![(fs[0].qualifier->Some_0, payload(fs))]);
    }
}

/// While the body of a row streams in, the reassembler holds exactly the
/// cells spelled out so far, under the row's key.
proof fn lemma_row_body(s: Assembly, fs: Seq<Fragment>)
    requires
        s.between_rows(),
        row_body(fs),
        commit_free(fs),
    ensures
        s.run(fs).rows == s.rows,
        s.run(fs).row_key == Some(fs[0].row_key),
        s.run(fs).flushed() == grouped(fs),
        s.run(fs).cell_name is Some ==> s.run(fs).keep,
        s.run(fs).cell_name is None ==> fs[0].qualifier is None && s.run(fs).cells.len() == 0,
    decreases fs.len(),
{
    let init = fs.drop_last();
    if fs.len() == 1 {
        assert(init =~= Seq::<Fragment>::empty());
        assert(grouped(init) =~= Seq::<Cell>::empty());
        assert(s.run(init) == s);
        assert(s.run(fs).flushed() =~= grouped(fs));
    } else {
        assert(row_body(init));
        assert(commit_free(init));
        lemma_row_body(s, init);
        assert(s.run(fs).flushed() =~= grouped(fs));
    }
}

/// Grouping does not look at commit markers.
proof fn lemma_grouped_ignores_commit(fs: Seq<Fragment>)
    requires
        fs.len() >= 1,
    ensures
        grouped(unmarked(fs)) == grouped(fs),
{
    let other = unmarked(fs);
    assert(other.drop_last() =~= fs.drop_last());
}

/// The fragments of one complete row, with no version contested, add
/// exactly that row: its cells in qualifier-arrival order, each with its
/// bytes joined in stream order. Nothing of the row is held afterwards.
pub proof fn theorem_plain_row_decodes(s: Assembly, fs: Seq<Fragment>)
    requires
        s.between_rows(),
        plain_row(fs),
    ensures
        s.run(fs).rows == s.rows.push(row_of(fs)),
        s.run(fs).between_rows(),
{
    let body = unmarked(fs);
    assert(body.drop_last() =~= fs.drop_last());
    assert(body.last() == uncommitted(fs.last()));
    assert(row_body(body)) by {
        assert(body[0].row_key == fs[0].row_key);
        assert forall|i: int| 0 <= i < body.len() implies (#[trigger] body[i]).row_key.len() == 0
            || body[i].row_key == body[0].row_key by {
            assert(body[i].row_key == fs[i].row_key);
        }
        assert forall|i: int| 0 <= i < body.len() && (#[trigger] body[i]).qualifier
            is None implies body[i].timestamp == 0 by {
            assert(body[i].qualifier == fs[i].qualifier);
            assert(body[i].timestamp == fs[i].timestamp);
        }
        if !(fs[0].qualifier is Some) {
            assert forall|i: int| 0 <= i < body.len() implies (#[trigger] body[i]).qualifier
                is None by {
                assert(body[i].qualifier == fs[i].qualifier);
            }
        } else {
            assert(body[0].qualifier == fs[0].qualifier);
        }
    }
    assert(commit_free(body)) by {
        assert forall|i: int| 0 <= i < body.len() implies !(#[trigger] body[i]).commit by {
            if i < body.len() - 1 {
                assert(body[i] == fs[i]);
            }
        }
    }
    lemma_row_body(s, body);
    lemma_grouped_ignores_commit(fs);
    lemma_commit_last(s.run(fs.drop_last()), fs.last());
}

/// A stream that is one complete row, with no version contested,
/// decodes to exactly that row.
pub proof fn theorem_single_row(fs: Seq<Fragment>)
    requires
        plain_row(fs),
    ensures
        decoded(fs) == seq![row_of(fs)],
{
    theorem_plain_row_decodes(Assembly::fresh(), fs);
    assert(decoded(fs) =~= seq![row_of(fs)]);
}

/// Rows come out in the order in which the stream commits them: a stream
/// made of complete rows, one after the other, decodes to those rows in
/// that order.
pub proof fn theorem_rows_in_stream_order(s: Assembly, runs: Seq<Seq<Fragment>>)
    requires
        s.between_rows(),
        forall|i: int| 0 <= i < runs.len() ==> plain_row(#[trigger] runs[i]),
    ensures
        s.run(joined(runs)).rows == s.rows + Seq::new(runs.len(), |i: int| row_of(runs[i])),
        s.run(joined(runs)).between_rows(),
    decreases runs.len(),
{
    if runs.len() == 0 {
        assert(s.run(joined(runs)).rows =~= s.rows + Seq::new(
            runs.len(),
            |i: int| row_of(runs[i]),
        ));
    } else {
        let init = runs.drop_last();
        theorem_rows_in_stream_order(s, init);
        lemma_run_concat(s, joined(init), runs.last());
        theorem_plain_row_decodes(s.run(joined(init)), runs.last());
        assert(s.run(joined(runs)).rows =~= s.rows + Seq::new(
            runs.len(),
            |i: int| row_of(runs[i]),
        ));
    }
}

} // verus!

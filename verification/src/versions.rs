//! What holds of one cell: a value sent in pieces is joined, a newer
//! version replaces, an older one is dropped.
use vstd::prelude::*;
use crate::chunk::Fragment;
use crate::model::Assembly;
use crate::runs::{
    commit_free, lemma_commit_last, lemma_run_commit_last, named, payload, uncommitted, unmarked,
};

verus! {

/// A run of fragments that carries one cell: the first opens it, the
/// others continue it with a zero timestamp.
pub open spec fn one_cell(fs: Seq<Fragment>) -> bool {
    &&& fs.len() >= 1
    &&& fs[0].qualifier is Some
    &&& forall|i: int|
        1 <= i < fs.len() ==> (#[trigger] fs[i]).qualifier is None && fs[i].timestamp == 0
}

/// The state in which a cell is open under `name` with `value` buffered
/// for version `timestamp`, after the cells that `s` held, in the row
/// that `key` names.
pub open spec fn holding(
    s: Assembly,
    key: Option<Seq<u8>>,
    name: Seq<u8>,
    timestamp: int,
    value: Seq<u8>,
    keep: bool,
) -> Assembly {
    Assembly {
        rows: s.rows,
        row_key: key,
        cells: s.flushed(),
        cell_name: Some(name),
        cell_timestamp: timestamp,
        cell_value: value,
        keep,
    }
}

/// The pieces of a cell's value, joined, while nothing commits.
proof fn lemma_split_value(s: Assembly, fs: Seq<Fragment>)
    requires
        one_cell(fs),
        commit_free(fs),
    ensures
        s.run(fs) == holding(
            s,
            named(s.row_key, fs),
            fs[0].qualifier->Some_0,
            fs[0].timestamp,
            s.pending() + payload(fs),
            true,
        ),
    decreases fs.len(),
{
    let init = fs.drop_last();
    if fs.len() == 1 {
        assert(init =~= Seq::<Fragment>::empty());
        assert(payload(init) =~= Seq::<u8>::empty());
        assert(s.run(init) == s);
        assert(s.run(fs).cell_value =~= s.pending() + payload(fs));
    } else {
        assert(one_cell(init));
        assert(commit_free(init));
        lemma_split_value(s, init);
        assert(s.run(fs).cell_value =~= s.pending() + payload(fs));
    }
}

/// A cell whose value arrives in pieces holds the pieces joined in
/// stream order: the first fragment opens the cell, each later one adds
/// its bytes, and if the last one commits, the row closes with that cell
/// at its end.
pub proof fn theorem_split_value_is_joined(s: Assembly, fs: Seq<Fragment>)
    requires
        one_cell(fs),
        commit_free(fs.drop_last()),
    ensures
        s.run(fs) == holding(
            s,
            named(s.row_key, fs),
            fs[0].qualifier->Some_0,
            fs[0].timestamp,
            s.pending() + payload(fs),
            true,
        ).closing(fs.last().commit),
{
    let open = unmarked(fs);
    lemma_run_commit_last(s, fs);
    assert(open[0].qualifier == fs[0].qualifier && open[0].timestamp == fs[0].timestamp);
    assert(one_cell(open)) by {
        assert forall|i: int| 1 <= i < open.len() implies (#[trigger] open[i]).qualifier is None
            && open[i].timestamp == 0 by {
            assert(open[i].qualifier == fs[i].qualifier && open[i].timestamp == fs[i].timestamp);
        }
    }
    assert(commit_free(open)) by {
        assert forall|i: int| 0 <= i < open.len() implies !(#[trigger] open[i]).commit by {
            if i < open.len() - 1 {
                assert(open[i] == fs.drop_last()[i]);
            }
        }
    }
    lemma_split_value(s, open);
}

/// A later fragment of the open cell that announces a newer version
/// replaces what was buffered: the cell holds the newer payload alone.
/// A version with the same timestamp counts as newer, so of two equal
/// ones the last to arrive is kept. (A zero timestamp announces no
/// version, so the newer one is non-zero.)
pub proof fn theorem_newer_version_replaces(s: Assembly, first: Fragment, second: Fragment)
    requires
        first.qualifier is Some,
        !first.commit,
        second.qualifier is None,
        second.timestamp >= first.timestamp,
        second.timestamp != 0,
    ensures
        s.step(first).step(second) == holding(
            s,
            named(s.row_key, seq![first, second]),
            first.qualifier->Some_0,
            second.timestamp,
            second.value,
            true,
        ).closing(second.commit),
{
    let both = seq![first, second];
    assert(both.drop_last() =~= seq![first]);
    assert(seq![first].drop_last() =~= Seq::<Fragment>::empty());
    assert(named(s.row_key, seq![first].drop_last()) == s.row_key);
    assert(named(s.row_key, both.drop_last()) == s.keyed(first).row_key);
    assert(named(s.row_key, both) == s.keyed(first).keyed(second).row_key);
    lemma_commit_last(s.step(first), second);
    let open = s.step(first).step(uncommitted(second));
    assert(open.cell_value =~= second.value);
    assert(open == holding(
        s,
        named(s.row_key, both),
        first.qualifier->Some_0,
        second.timestamp,
        second.value,
        true,
    ));
}

/// An older version and what continues it leave the cell as it was,
/// while nothing commits.
proof fn lemma_older_version(s: Assembly, first: Fragment, later: Seq<Fragment>)
    requires
        first.qualifier is Some,
        !first.commit,
        commit_free(later),
        later.len() >= 1,
        later[0].timestamp != 0,
        forall|i: int|
            0 <= i < later.len() ==> (#[trigger] later[i]).qualifier is None && (later[i].timestamp
                == 0 || later[i].timestamp < first.timestamp),
    ensures
        s.step(first).run(later) == holding(
            s,
            named(s.row_key, seq![first] + later),
            first.qualifier->Some_0,
            first.timestamp,
            s.pending() + first.value,
            false,
        ),
    decreases later.len(),
{
    let opened = s.step(first);
    let init = later.drop_last();
    assert((seq![first] + later).drop_last() =~= seq![first] + init);
    assert((seq![first] + later).last() == later.last());
    if later.len() == 1 {
        assert(init =~= Seq::<Fragment>::empty());
        assert(opened.run(init) == opened);
        assert(seq![first] + init =~= seq![first]);
        assert(seq![first].drop_last() =~= Seq::<Fragment>::empty());
        assert(named(s.row_key, seq![first].drop_last()) == s.row_key);
    } else {
        assert(commit_free(init));
        lemma_older_version(s, first, init);
    }
}

/// Fragments that announce a version older than the one held are read
/// and dropped, and so is every plain continuation that follows them:
/// the cell keeps the payload it had, and if the last of them commits,
/// the row closes with that payload.
pub proof fn theorem_older_version_is_dropped(s: Assembly, first: Fragment, later: Seq<Fragment>)
    requires
        first.qualifier is Some,
        !first.commit,
        later.len() >= 1,
        commit_free(later.drop_last()),
        later[0].timestamp != 0,
        forall|i: int|
            0 <= i < later.len() ==> (#[trigger] later[i]).qualifier is None && (later[i].timestamp
                == 0 || later[i].timestamp < first.timestamp),
    ensures
        s.step(first).run(later) == holding(
            s,
            named(s.row_key, seq![first] + later),
            first.qualifier->Some_0,
            first.timestamp,
            s.pending() + first.value,
            false,
        ).closing(later.last().commit),
{
    let open = unmarked(later);
    lemma_run_commit_last(s.step(first), later);
    assert(commit_free(open)) by {
        assert forall|i: int| 0 <= i < open.len() implies !(#[trigger] open[i]).commit by {
            if i < open.len() - 1 {
                assert(open[i] == later.drop_last()[i]);
            }
        }
    }
    assert forall|i: int| 0 <= i < open.len() implies (#[trigger] open[i]).qualifier is None
        && (open[i].timestamp == 0 || open[i].timestamp < first.timestamp) by {
        assert(open[i].qualifier == later[i].qualifier && open[i].timestamp == later[i].timestamp);
    }
    assert(open[0].timestamp == later[0].timestamp);
    lemma_older_version(s, first, open);
    assert((seq![first] + later).drop_last() =~= seq![first] + later.drop_last());
    assert((seq![first] + open).drop_last() =~= seq![first] + later.drop_last());
    assert((seq![first] + open).last().row_key == (seq![first] + later).last().row_key);
}

} // verus!

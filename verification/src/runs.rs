//! What holds of every run of fragments: how runs compose, what a
//! commit marker does, and that completed rows stay as they are.
use vstd::prelude::*;
use crate::chunk::Fragment;
use crate::model::{decoded, Assembly, Row};

verus! {

/// The same fragment without its commit marker.
pub open spec fn uncommitted(f: Fragment) -> Fragment {
    Fragment { commit: false, ..f }
}

/// No fragment of the run carries a commit marker.
pub open spec fn commit_free(fs: Seq<Fragment>) -> bool {
    forall|i: int| 0 <= i < fs.len() ==> !(#[trigger] fs[i]).commit
}

/// A run of fragments with the commit marker of its last one removed.
pub open spec fn unmarked(fs: Seq<Fragment>) -> Seq<Fragment>
    recommends
        fs.len() >= 1,
{
    fs.drop_last().push(uncommitted(fs.last()))
}

/// All value bytes of a run of fragments, in stream order.
pub open spec fn payload(fs: Seq<Fragment>) -> Seq<u8>
    decreases fs.len(),
{
    if fs.len() == 0 {
        Seq::empty()
    } else {
        payload(fs.drop_last()) + fs.last().value
    }
}

/// The key that a run of fragments leaves the row with: the last
/// non-empty one it carries, or the one held before.
pub open spec fn named(key: Option<Seq<u8>>, fs: Seq<Fragment>) -> Option<Seq<u8>>
    decreases fs.len(),
{
    if fs.len() == 0 {
        key
    } else if fs.last().row_key.len() > 0 {
        Some(fs.last().row_key)
    } else {
        named(key, fs.drop_last())
    }
}

/// Feeding one fragment is a run of length one.
pub proof fn lemma_run_single(s: Assembly, f: Fragment)
    ensures
        s.run(seq![f]) == s.step(f),
{
    assert(seq![f].drop_last() =~= Seq::<Fragment>::empty());
    assert(s.run(seq![f].drop_last()) == s);
}

/// Feeding two runs one after the other is feeding their concatenation.
pub proof fn lemma_run_concat(s: Assembly, a: Seq<Fragment>, b: Seq<Fragment>)
    ensures
        s.run(a + b) == s.run(a).run(b),
    decreases b.len(),
{
    if b.len() == 0 {
        assert(a + b =~= a);
    } else {
        lemma_run_concat(s, a, b.drop_last());
        assert((a + b).drop_last() =~= a + b.drop_last());
        assert((a + b).last() == b.last());
    }
}

/// A commit marker acts after everything else in its fragment: the
/// fragment is taken in as if unmarked, then the row is closed.
pub proof fn lemma_commit_last(s: Assembly, f: Fragment)
    ensures
        s.step(f) == s.step(uncommitted(f)).closing(f.commit),
{
}

/// The same for a run: a marker on its last fragment closes the row
/// after the whole run has been taken in.
pub proof fn lemma_run_commit_last(s: Assembly, fs: Seq<Fragment>)
    requires
        fs.len() >= 1,
    ensures
        s.run(fs) == s.run(unmarked(fs)).closing(fs.last().commit),
        payload(unmarked(fs)) == payload(fs),
        named(s.row_key, unmarked(fs)) == named(s.row_key, fs),
{
    assert(unmarked(fs).drop_last() =~= fs.drop_last());
    assert(unmarked(fs).last() == uncommitted(fs.last()));
}

/// Completed rows are never taken back nor reordered: whatever a run of
/// fragments adds comes after the rows that were already there.
pub proof fn theorem_rows_only_grow(s: Assembly, fs: Seq<Fragment>)
    ensures
        s.rows.is_prefix_of(s.run(fs).rows),
    decreases fs.len(),
{
    if fs.len() > 0 {
        theorem_rows_only_grow(s, fs.drop_last());
        let mid = s.run(fs.drop_last());
        assert(mid.rows.is_prefix_of(mid.step(fs.last()).rows));
    }
}

/// Fragments without a commit marker complete no row, however many
/// cells they carry.
pub proof fn theorem_no_commit_no_row(s: Assembly, fs: Seq<Fragment>)
    requires
        commit_free(fs),
    ensures
        s.run(fs).rows == s.rows,
    decreases fs.len(),
{
    if fs.len() > 0 {
        assert(commit_free(fs.drop_last()));
        theorem_no_commit_no_row(s, fs.drop_last());
    }
}

/// A stream that stops before its last row is committed decodes to the
/// rows committed before, and to nothing of the unfinished one.
pub proof fn theorem_unfinished_row_is_dropped(done: Seq<Fragment>, partial: Seq<Fragment>)
    requires
        commit_free(partial),
    ensures
        decoded(done + partial) == decoded(done),
{
    lemma_run_concat(Assembly::fresh(), done, partial);
    theorem_no_commit_no_row(Assembly::fresh().run(done), partial);
}

/// Rows that are already complete take no part in what follows: with
/// more of them in front, the same fragments lead to the same state with
/// the same rows in front.
pub proof fn lemma_rows_ride_along(s: Assembly, extra: Seq<Row>, fs: Seq<Fragment>)
    ensures
        (Assembly { rows: extra + s.rows, ..s }).run(fs) == (Assembly {
            rows: extra + s.run(fs).rows,
            ..s.run(fs)
        }),
    decreases fs.len(),
{
    let t = Assembly { rows: extra + s.rows, ..s };
    if fs.len() > 0 {
        lemma_rows_ride_along(s, extra, fs.drop_last());
        let sm = s.run(fs.drop_last());
        let tm = Assembly { rows: extra + sm.rows, ..sm };
        let f = fs.last();
        assert(tm.step(f).rows =~= extra + sm.step(f).rows);
        assert(tm.step(f) =~= (Assembly { rows: extra + sm.step(f).rows, ..sm.step(f) }));
    } else {
        assert(t.run(fs) =~= (Assembly { rows: extra + s.run(fs).rows, ..s.run(fs) }));
    }
}

/// A stream may be cut after any commit marker, provided that the part
/// after the cut opens a cell with its first fragment: decoding the two
/// parts on their own and joining the rows gives what decoding the
/// whole gives.
pub proof fn theorem_streams_compose(a: Seq<Fragment>, b: Seq<Fragment>)
    requires
        a.len() == 0 || a.last().commit,
        b.len() == 0 || b[0].qualifier is Some,
    ensures
        decoded(a + b) == decoded(a) + decoded(b),
{
    let fresh = Assembly::fresh();
    if a.len() == 0 {
        assert(a + b =~= b);
        assert(decoded(a) + decoded(b) =~= decoded(b));
    } else if b.len() == 0 {
        assert(a + b =~= a);
        assert(decoded(a) + decoded(b) =~= decoded(a));
    } else {
        let sa = fresh.run(a);
        let first = b[0];
        let rest = b.skip(1);
        assert(b =~= seq![first] + rest);
        lemma_run_concat(fresh, a, b);
        lemma_run_concat(sa, seq![first], rest);
        lemma_run_single(sa, first);
        lemma_run_concat(fresh, seq![first], rest);
        lemma_run_single(fresh, first);
        let opened = fresh.step(first);
        assert(sa.step(first).rows =~= sa.rows + opened.rows);
        assert(sa.step(first) =~= (Assembly { rows: sa.rows + opened.rows, ..opened }));
        lemma_rows_ride_along(opened, sa.rows, rest);
    }
}

} // verus!

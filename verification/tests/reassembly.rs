use bigtable_rs::cell::{CellData, RowData, RowKey};
use bigtable_rs::chunk::{CellChunk, RowStatus};
use bigtable_rs::reassembler::{decode, Reassembler};

fn chunk(key: &str, qualifier: Option<&str>, ts: i64, value: &str, commit: bool) -> CellChunk {
    CellChunk {
        row_key: key.as_bytes().to_vec(),
        qualifier: qualifier.map(|q| q.as_bytes().to_vec()),
        timestamp_micros: ts,
        value: value.as_bytes().to_vec(),
        row_status: if commit { Some(RowStatus::CommitRow(true)) } else { None },
    }
}

fn row(key: &str, cells: &[(&str, &str)]) -> (RowKey, RowData) {
    (
        key.as_bytes().to_vec(),
        cells.iter().map(|(n, v)| (n.as_bytes().to_vec(), v.as_bytes().to_vec())).collect(),
    )
}

#[test]
fn two_cells_with_a_split_value() {
    let rows = decode(vec![
        chunk("r1", Some("c1"), 5, "ab", false),
        chunk("", None, 0, "cd", false),
        chunk("", Some("c2"), 1, "x", true),
    ]);
    assert_eq!(rows, vec![row("r1", &[("c1", "abcd"), ("c2", "x")])]);
}

#[test]
fn stale_version_never_appears() {
    let rows = decode(vec![
        chunk("r1", Some("c1"), 10, "new", false),
        chunk("", None, 5, "stale", true),
    ]);
    assert_eq!(rows, vec![row("r1", &[("c1", "new")])]);
}

#[test]
fn newer_version_replaces_older() {
    let rows = decode(vec![
        chunk("r1", Some("c1"), 5, "old", false),
        chunk("", None, 10, "new", true),
    ]);
    assert_eq!(rows, vec![row("r1", &[("c1", "new")])]);
}

#[test]
fn equal_timestamp_counts_as_newer() {
    let rows = decode(vec![
        chunk("r1", Some("c1"), 7, "first", false),
        chunk("", None, 7, "second", true),
    ]);
    assert_eq!(rows, vec![row("r1", &[("c1", "second")])]);
}

#[test]
fn continuation_of_a_stale_version_is_dropped_too() {
    let rows = decode(vec![
        chunk("r1", Some("c1"), 10, "keep", false),
        chunk("", None, 5, "sta", false),
        chunk("", None, 0, "le", false),
        chunk("", Some("c2"), 1, "y", true),
    ]);
    assert_eq!(rows, vec![row("r1", &[("c1", "keep"), ("c2", "y")])]);
}

#[test]
fn continuation_of_a_newer_version_is_kept() {
    let rows = decode(vec![
        chunk("r1", Some("c1"), 5, "old", false),
        chunk("", None, 9, "ne", false),
        chunk("", None, 0, "wer", true),
    ]);
    assert_eq!(rows, vec![row("r1", &[("c1", "newer")])]);
}

#[test]
fn zero_timestamp_after_negative_one_is_a_continuation() {
    let rows = decode(vec![
        chunk("r1", Some("c1"), -1, "a", false),
        chunk("", None, 0, "b", true),
    ]);
    assert_eq!(rows, vec![row("r1", &[("c1", "ab")])]);
}

#[test]
fn value_split_across_many_fragments_is_joined() {
    let rows = decode(vec![
        chunk("k", Some("q"), 3, "a", false),
        chunk("", None, 0, "", false),
        chunk("", None, 0, "bc", false),
        chunk("", None, 0, "d", false),
        chunk("", None, 0, "efg", true),
    ]);
    assert_eq!(rows, vec![row("k", &[("q", "abcdefg")])]);
}

#[test]
fn value_in_a_single_fragment() {
    let rows = decode(vec![chunk("k", Some("q"), 3, "whole", true)]);
    assert_eq!(rows, vec![row("k", &[("q", "whole")])]);
}

#[test]
fn non_commit_fragments_keep_their_contribution() {
    let rows = decode(vec![
        chunk("r", Some("a"), 1, "1", false),
        chunk("", Some("b"), 1, "2", false),
        chunk("", Some("c"), 1, "3", true),
    ]);
    assert_eq!(rows, vec![row("r", &[("a", "1"), ("b", "2"), ("c", "3")])]);
}

#[test]
fn rows_come_out_in_commit_order() {
    let rows = decode(vec![
        chunk("r2", Some("c"), 1, "second-key-first", true),
        chunk("r1", Some("c"), 1, "x", false),
        chunk("", Some("d"), 1, "y", true),
        chunk("r3", Some("c"), 1, "z", true),
    ]);
    assert_eq!(
        rows,
        vec![
            row("r2", &[("c", "second-key-first")]),
            row("r1", &[("c", "x"), ("d", "y")]),
            row("r3", &[("c", "z")]),
        ]
    );
}

#[test]
fn duplicate_qualifiers_give_two_cells() {
    let rows = decode(vec![
        chunk("r", Some("c"), 1, "x", false),
        chunk("", Some("c"), 2, "y", true),
    ]);
    assert_eq!(rows, vec![row("r", &[("c", "x"), ("c", "y")])]);
}

#[test]
fn stream_without_commit_yields_nothing() {
    let rows = decode(vec![
        chunk("r1", Some("c1"), 5, "ab", false),
        chunk("", None, 0, "cd", false),
    ]);
    assert!(rows.is_empty());
}

#[test]
fn unfinished_row_after_a_complete_one_is_dropped() {
    let rows = decode(vec![
        chunk("r1", Some("c1"), 5, "ab", true),
        chunk("r2", Some("c1"), 5, "cd", false),
    ]);
    assert_eq!(rows, vec![row("r1", &[("c1", "ab")])]);
}

#[test]
fn empty_stream_yields_nothing() {
    assert!(decode(vec![]).is_empty());
}

#[test]
fn commit_without_row_key_yields_no_row() {
    let rows = decode(vec![
        chunk("", Some("c1"), 5, "lost", true),
        chunk("r2", Some("c2"), 5, "kept", true),
    ]);
    assert_eq!(rows, vec![row("r2", &[("c2", "kept")])]);
}

#[test]
fn commit_resets_the_row() {
    let rows = decode(vec![
        chunk("r1", Some("a"), 5, "1", true),
        chunk("", Some("b"), 5, "2", true),
        chunk("r3", Some("c"), 5, "3", true),
    ]);
    assert_eq!(rows, vec![row("r1", &[("a", "1")]), row("r3", &[("c", "3")])]);
}

#[test]
fn row_without_cells() {
    let rows = decode(vec![chunk("r1", None, 0, "", true)]);
    assert_eq!(rows, vec![row("r1", &[])]);
}

#[test]
fn last_row_key_of_a_cycle_names_the_row() {
    let rows = decode(vec![
        chunk("r1", Some("a"), 5, "1", false),
        chunk("r2", Some("b"), 5, "2", true),
    ]);
    assert_eq!(rows, vec![row("r2", &[("a", "1"), ("b", "2")])]);
}

#[test]
fn reset_marker_is_not_a_commit() {
    let mut first = chunk("r1", Some("a"), 5, "1", false);
    first.row_status = Some(RowStatus::ResetRow(true));
    let rows = decode(vec![first, chunk("", Some("b"), 5, "2", true)]);
    assert_eq!(rows, vec![row("r1", &[("a", "1"), ("b", "2")])]);
}

#[test]
fn commit_marker_counts_whatever_its_flag() {
    let mut only = chunk("r1", Some("a"), 5, "1", false);
    only.row_status = Some(RowStatus::CommitRow(false));
    assert_eq!(decode(vec![only]), vec![row("r1", &[("a", "1")])]);
}

#[test]
fn bytes_before_the_first_cell_go_to_it() {
    let rows = decode(vec![
        chunk("r1", None, 0, "zz", false),
        chunk("", Some("c"), 1, "a", true),
    ]);
    assert_eq!(rows, vec![row("r1", &[("c", "zza")])]);
}

#[test]
fn version_state_outlives_a_commit_until_a_cell_opens() {
    let rows = decode(vec![
        chunk("r1", Some("c"), 10, "a", true),
        chunk("r2", None, 5, "dropped", false),
        chunk("", Some("d"), 1, "b", true),
    ]);
    assert_eq!(rows, vec![row("r1", &[("c", "a")]), row("r2", &[("d", "b")])]);
}

#[test]
fn pushing_chunk_by_chunk_equals_decoding_at_once() {
    let chunks = vec![
        chunk("r1", Some("c1"), 5, "ab", false),
        chunk("", None, 0, "cd", false),
        chunk("", Some("c2"), 1, "x", true),
        chunk("r2", Some("c1"), 2, "y", true),
    ];
    let mut one_by_one = Reassembler::new();
    for c in chunks.clone() {
        one_by_one.push(c);
    }
    let mut in_two = Reassembler::new();
    in_two.push_all(chunks[..2].to_vec());
    in_two.push_all(chunks[2..].to_vec());
    let expected = vec![row("r1", &[("c1", "abcd"), ("c2", "x")]), row("r2", &[("c1", "y")])];
    assert_eq!(one_by_one.into_rows(), expected);
    assert_eq!(in_two.into_rows(), expected);
    assert_eq!(decode(chunks), expected);
}

#[test]
fn cutting_after_a_commit_splits_the_rows() {
    let a = vec![chunk("r1", Some("c"), 9, "a", false), chunk("", None, 3, "no", true)];
    let b = vec![chunk("r2", Some("d"), 1, "b", false), chunk("", None, 2, "c", true)];
    let mut whole = a.clone();
    whole.extend(b.clone());
    let mut parts = decode(a);
    parts.extend(decode(b));
    assert_eq!(decode(whole), parts);
    assert_eq!(parts, vec![row("r1", &[("c", "a")]), row("r2", &[("d", "c")])]);
}

#[test]
fn binary_names_and_values_pass_unchanged() {
    let rows = decode(vec![CellChunk {
        row_key: vec![0, 255, 1],
        qualifier: Some(vec![]),
        timestamp_micros: i64::MIN,
        value: vec![0, 0, 128],
        row_status: Some(RowStatus::CommitRow(true)),
    }]);
    assert_eq!(rows, vec![(vec![0u8, 255, 1], vec![(vec![], vec![0u8, 0, 128])])]);
}

#[test]
fn cell_data_holds_either_encoding() {
    let a: CellData<u8, String> = CellData::Bincode(7);
    let b: CellData<u8, String> = CellData::Protobuf("p".to_string());
    assert!(matches!(a, CellData::Bincode(7)));
    assert!(matches!(b, CellData::Protobuf(ref s) if s == "p"));
}

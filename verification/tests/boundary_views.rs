//! Tests of the boundary view layer: collection views, string views,
//! record-size queries, and the bounds and idempotence they promise.

use gfa_views::JSegment;
use gfa_views::JSlice;
use gfa_views::StrPtr;
use gfa_views::WGFA;
use gfa_views::seg_size;
use gfa_views::string_size;

#[test]
fn record_size_queries_match_layout() {
    assert_eq!(seg_size(), std::mem::size_of::<JSegment>());
    assert_eq!(string_size(), std::mem::size_of::<String>());
    assert!(seg_size() > 0);
    assert!(string_size() > 0);
}

#[test]
fn collection_views_report_count_and_stride() {
    let g = WGFA::parse_gfa("S\tA\tACGT\nS\tB\tTTTT\nL\tA\t+\tB\t-\t4M");
    let segs = g.segments();
    assert_eq!(segs.len, 2);
    assert_eq!(segs.stride, seg_size());
    let links = g.links();
    assert_eq!(links.len, 1);
    let paths = g.paths();
    assert_eq!(paths.len, 0);
}

#[test]
fn jslice_new_keeps_fields() {
    let s = JSlice::new(7, 3, 24);
    assert_eq!(s.start, 7);
    assert_eq!(s.len, 3);
    assert_eq!(s.stride, 24);
}

#[test]
fn jslice_from_slice_describes_the_slice() {
    let v: Vec<u64> = vec![1, 2, 3];
    let s = JSlice::from_slice(v.as_slice());
    assert_eq!(s.len, 3);
    assert_eq!(s.stride, std::mem::size_of::<u64>());
    assert_eq!(s.start, v.as_ptr() as usize);
}

#[test]
fn strptr_reports_exact_byte_length() {
    let text = "ACGT".to_string();
    let p = StrPtr::new(text.as_str());
    assert_eq!(p.len, 4);
    assert_eq!(p.start, text.as_ptr() as usize);
    // A multi-byte character counts in bytes, not in characters.
    let accented = "né".to_string();
    assert_eq!(StrPtr::new(accented.as_str()).len, 3);
}

#[test]
fn string_views_describe_the_record_fields() {
    let g = WGFA::parse_gfa("S\tA\tACGT");
    let name = g.get_segment_name(0).unwrap();
    assert_eq!(name.len, 1);
    let seq = g.get_segment_seq(0).unwrap();
    assert_eq!(seq.len, 4);
    // The views point at the store's own bytes.
    let rec = g.segment_at(0).unwrap();
    assert_eq!(name.start, rec.name.as_ptr() as usize);
    assert_eq!(seq.start, rec.sequence.as_ptr() as usize);
}

#[test]
fn views_are_idempotent_without_append() {
    let g = WGFA::parse_gfa("S\tA\tACGT\nS\tB\tTTTT");
    assert_eq!(g.segments(), g.segments());
    assert_eq!(g.links(), g.links());
    assert_eq!(g.paths(), g.paths());
    assert_eq!(g.get_segment_name(1).unwrap(), g.get_segment_name(1).unwrap());
    assert_eq!(g.get_segment_seq(1).unwrap(), g.get_segment_seq(1).unwrap());
}

#[test]
fn out_of_range_indexes_fail() {
    let g = WGFA::parse_gfa("S\tA\tACGT");
    let n = g.segment_count();
    assert!(g.segment_at(n).is_none());
    assert!(g.get_segment_name(n).is_none());
    assert!(g.get_segment_seq(n).is_none());
    assert!(g.link_at(0).is_none());
    assert!(g.path_at(0).is_none());
    assert!(g.segment_at(usize::MAX).is_none());
}

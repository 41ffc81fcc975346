//! Tests of document ingestion and the graph store.

use gfa_views::JLine;
use gfa_views::JLink;
use gfa_views::JPath;
use gfa_views::JSegment;
use gfa_views::TransportError;
use gfa_views::WGFA;
use gfa_views::ingest_fetched;
use gfa_views::split_into_lines;

#[test]
fn end_to_end_small_document() {
    let g = WGFA::parse_gfa("S\tA\tACGT\nS\tB\tTTTT\nL\tA\t+\tB\t-\t4M\nP\tP1\tA+,B-\t4M");
    assert_eq!(g.segment_count(), 2);
    assert_eq!(g.link_count(), 1);
    assert_eq!(g.path_count(), 1);
    assert_eq!(
        g.segment_at(0).unwrap(),
        &JSegment { name: "A".to_string(), sequence: "ACGT".to_string() }
    );
    assert_eq!(
        g.segment_at(1).unwrap(),
        &JSegment { name: "B".to_string(), sequence: "TTTT".to_string() }
    );
    assert_eq!(
        g.link_at(0).unwrap(),
        &JLink {
            from_segment: "A".to_string(),
            from_orient: true,
            to_segment: "B".to_string(),
            to_orient: false,
            overlap: "4M".to_string(),
        }
    );
    assert_eq!(
        g.path_at(0).unwrap(),
        &JPath {
            path_name: "P1".to_string(),
            segment_names: vec![("A".to_string(), true), ("B".to_string(), false)],
            overlaps: vec!["4M".to_string()],
        }
    );
}

#[test]
fn header_only_document_yields_empty_store() {
    let g = WGFA::parse_gfa("H\tVN:Z:1.0");
    assert_eq!(g.segment_count(), 0);
    assert_eq!(g.link_count(), 0);
    assert_eq!(g.path_count(), 0);
}

#[test]
fn comment_only_document_yields_empty_store() {
    let g = WGFA::parse_gfa("# nothing but a comment");
    assert_eq!(g.segment_count(), 0);
    assert_eq!(g.link_count(), 0);
    assert_eq!(g.path_count(), 0);
}

#[test]
fn empty_document_yields_empty_store() {
    let g = WGFA::parse_gfa("");
    assert_eq!(g.segment_count() + g.link_count() + g.path_count(), 0);
}

#[test]
fn record_total_bounded_by_line_count() {
    // Three lines, one of which is not a record: strictly fewer records
    // than lines.
    let g = WGFA::parse_gfa("S\tA\tACGT\nnot a record line\nL\tA\t+\tB\t-\t4M");
    assert_eq!(g.segment_count() + g.link_count() + g.path_count(), 2);
}

#[test]
fn record_total_equals_line_count_when_all_lines_decode() {
    let g = WGFA::parse_gfa("S\tA\tACGT\nS\tB\tTT");
    assert_eq!(g.segment_count() + g.link_count() + g.path_count(), 2);
}

#[test]
fn insertion_order_is_kept() {
    let g = WGFA::parse_gfa("S\tZ\tAA\nL\tZ\t+\tQ\t-\t1M\nS\tQ\tCC\nS\tM\tGG");
    assert_eq!(g.segment_at(0).unwrap().name, "Z");
    assert_eq!(g.segment_at(1).unwrap().name, "Q");
    assert_eq!(g.segment_at(2).unwrap().name, "M");
}

#[test]
fn trailing_line_break_adds_no_record() {
    let g = WGFA::parse_gfa("S\tA\tACGT\n");
    assert_eq!(g.segment_count(), 1);
}

#[test]
fn carriage_returns_are_tolerated() {
    let g = WGFA::parse_gfa("S\tA\tACGT\r\nS\tB\tTT\r\n");
    assert_eq!(g.segment_count(), 2);
    assert_eq!(g.segment_at(0).unwrap().sequence, "ACGT");
}

#[test]
fn append_adds_to_matching_sequence() {
    let mut g = WGFA::new();
    g.append(JLine::Segment(JSegment { name: "A".to_string(), sequence: "C".to_string() }));
    g.append(JLine::Path(JPath {
        path_name: "p".to_string(),
        segment_names: vec![("A".to_string(), true)],
        overlaps: vec![],
    }));
    assert_eq!(g.segment_count(), 1);
    assert_eq!(g.link_count(), 0);
    assert_eq!(g.path_count(), 1);
}

#[test]
fn split_keeps_every_line() {
    let r = split_into_lines(b"a\nbb\n\nc");
    assert_eq!(r, vec![b"a".to_vec(), b"bb".to_vec(), b"".to_vec(), b"c".to_vec()]);
}

#[test]
fn split_of_empty_input_is_one_empty_line() {
    let r = split_into_lines(b"");
    assert_eq!(r, vec![b"".to_vec()]);
}

#[test]
fn pathological_lines_do_not_abort_ingestion() {
    let g = WGFA::parse_gfa(
        "S\tA\tACGT\nP\tp\tA+\t99999999999M\nH\tAB:B:\nH\tAAABB\nH\t1N:Z:1.0\nS\tB\tTT",
    );
    assert_eq!(g.segment_count(), 2);
    assert_eq!(g.path_count(), 0);
}

#[test]
fn transport_failure_yields_no_store() {
    let r = ingest_fetched(Err(TransportError { message: "connection refused".to_string() }));
    match r {
        Ok(_) => panic!("a transport failure must not yield a store"),
        Err(e) => assert_eq!(e.message, "connection refused"),
    }
}

#[test]
fn fetched_text_is_ingested_whole() {
    let r = ingest_fetched(Ok("S\tA\tACGT\nL\tA\t+\tA\t-\t0M".to_string()));
    let g = r.unwrap();
    assert_eq!(g.segment_count(), 1);
    assert_eq!(g.link_count(), 1);
}

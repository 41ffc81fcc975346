//! Tests of line decoding and record normalization.

use gfa_views::DecodedLine;
use gfa_views::JLine;
use gfa_views::JLink;
use gfa_views::JPath;
use gfa_views::JSegment;
use gfa_views::Orient;
use gfa_views::bool_orient;
use gfa_views::normalize;
use gfa_views::orient_bool;
use gfa_views::parse_line;

#[test]
fn segment_line_round_trips_fields() {
    let r = parse_line("S\tA\tACGT");
    assert_eq!(
        r,
        Some(JLine::Segment(JSegment { name: "A".to_string(), sequence: "ACGT".to_string() }))
    );
}

#[test]
fn link_line_round_trips_fields_and_maps_orientation() {
    let r = parse_line("L\tA\t+\tB\t-\t4M");
    assert_eq!(
        r,
        Some(JLine::Link(JLink {
            from_segment: "A".to_string(),
            from_orient: true,
            to_segment: "B".to_string(),
            to_orient: false,
            overlap: "4M".to_string(),
        }))
    );
}

#[test]
fn path_line_round_trips_fields() {
    let r = parse_line("P\tP1\tA+,B-\t4M");
    assert_eq!(
        r,
        Some(JLine::Path(JPath {
            path_name: "P1".to_string(),
            segment_names: vec![("A".to_string(), true), ("B".to_string(), false)],
            overlaps: vec!["4M".to_string()],
        }))
    );
}

#[test]
fn header_line_yields_no_record() {
    assert_eq!(parse_line("H\tVN:Z:1.0"), None);
}

#[test]
fn comment_line_yields_no_record() {
    assert_eq!(parse_line("# just a comment"), None);
}

#[test]
fn malformed_line_yields_no_record() {
    assert_eq!(parse_line("S\tonly-a-name"), None);
}

#[test]
fn pathological_lines_are_skipped_not_fatal() {
    // Lines on which the parser would abort instead of failing: header
    // fields of the byte-array kind with nothing after the mark, header
    // fields with a malformed tag, path overlap lengths too large for the
    // parser's length field, and a path step without an orientation sign.
    // Each is quietly dropped.
    assert_eq!(parse_line("H\tAB:B:"), None);
    assert_eq!(parse_line("H\tAAABB"), None);
    assert_eq!(parse_line("H\t1N:Z:1.0"), None);
    assert_eq!(parse_line("P\tp\tA+\t99999999999M"), None);
    assert_eq!(parse_line("P\tp\tA+\t4294967296M"), None);
    assert_eq!(parse_line("P\tp\tA\t*"), None);
}

#[test]
fn ten_digit_numbers_in_range_still_decode() {
    // A ten-digit run that fits the parser's overlap length field is not
    // screened out: a ten-digit path name decodes fine.
    let r = parse_line("P\t1234567890\tA+,B-\t*,*");
    match r {
        Some(JLine::Path(p)) => assert_eq!(p.path_name, "1234567890"),
        other => panic!("expected a path record, got {:?}", other),
    }
}

#[test]
fn orientation_encoding_round_trips() {
    assert!(orient_bool(Orient::Forward));
    assert!(!orient_bool(Orient::Backward));
    assert_eq!(bool_orient(true), Orient::Forward);
    assert_eq!(bool_orient(false), Orient::Backward);
    assert_eq!(bool_orient(orient_bool(Orient::Forward)), Orient::Forward);
    assert_eq!(bool_orient(orient_bool(Orient::Backward)), Orient::Backward);
}

#[test]
fn normalize_keeps_decoded_fields_verbatim() {
    let d = DecodedLine::Link {
        from_segment: "x".to_string(),
        from_orient: Orient::Backward,
        to_segment: "y".to_string(),
        to_orient: Orient::Forward,
        overlap: "12M".to_string(),
    };
    assert_eq!(
        normalize(d),
        Some(JLine::Link(JLink {
            from_segment: "x".to_string(),
            from_orient: false,
            to_segment: "y".to_string(),
            to_orient: true,
            overlap: "12M".to_string(),
        }))
    );
}

#[test]
fn normalize_keeps_unbalanced_overlap_list() {
    let d = DecodedLine::Path {
        path_name: "p".to_string(),
        steps: vec![("A".to_string(), Orient::Forward)],
        overlaps: vec!["4M".to_string(), "5M".to_string(), "6M".to_string()],
    };
    assert_eq!(
        normalize(d),
        Some(JLine::Path(JPath {
            path_name: "p".to_string(),
            segment_names: vec![("A".to_string(), true)],
            overlaps: vec!["4M".to_string(), "5M".to_string(), "6M".to_string()],
        }))
    );
}

#[test]
fn normalize_filters_other_lines() {
    assert_eq!(normalize(DecodedLine::Other), None);
}

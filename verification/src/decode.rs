//! The trusted boundary to the external line decoder.
//!
//! Decoding one line of the text format is delegated to the `gfa` parser
//! crate. What a given line decodes to is a pure function of its bytes; that
//! function is named `decoded_line` and left uninterpreted, so everything
//! downstream of the decoder is verified for every possible decoder output,
//! and tests exercise the real decoder.

use vstd::prelude::*;
use vstd::string::StringSliceAdditionalSpecFns;

use crate::records::DecodedLine;
use crate::records::JLine;
use crate::records::LineView;
use crate::records::Orient;
use crate::records::RecView;
use crate::records::norm_spec;
use crate::records::normalize;
use crate::records::opt_rec_view;

verus! {

#[verifier::external_type_specification]
#[verifier::external_body]
pub struct ExOrientation(gfa::gfa::Orientation);

#[verifier::external_type_specification]
#[verifier::external_body]
pub struct ExCigar(gfa::cigar::CIGAR);

/// What the external decoder makes of one line of text: a decoded record,
/// a recognized non-record line, or nothing for a line it rejects. The
/// result depends on the line's bytes alone; the function is not given a
/// definition here, so nothing is assumed about any particular line.
pub uninterp spec fn decoded_line(bytes: Seq<u8>) -> Option<LineView>;

/// An ASCII whitespace byte, as the parser's line trimming sees it.
pub open spec fn ws_byte(b: u8) -> bool {
    b == 9 || b == 10 || b == 12 || b == 13 || b == 32
}

/// An ASCII decimal digit byte.
pub open spec fn digit_byte(b: u8) -> bool {
    48 <= b && b <= 57
}

/// The line's first non-whitespace byte is `b`.
pub open spec fn leads_with(l: Seq<u8>, b: u8) -> bool {
    exists|h: int|
        0 <= h < l.len() && #[trigger] l[h] == b && (forall|j: int| 0 <= j < h ==> ws_byte(l[j]))
}

/// Ten decimal digits in a row, starting at position `p`.
pub open spec fn ten_digits_at(l: Seq<u8>, p: int) -> bool {
    &&& digit_byte(l[p])
    &&& digit_byte(l[p + 1])
    &&& digit_byte(l[p + 2])
    &&& digit_byte(l[p + 3])
    &&& digit_byte(l[p + 4])
    &&& digit_byte(l[p + 5])
    &&& digit_byte(l[p + 6])
    &&& digit_byte(l[p + 7])
    &&& digit_byte(l[p + 8])
    &&& digit_byte(l[p + 9])
}

/// The ten digits from position `p` on spell a number greater than
/// 4294967295, the largest value an overlap length can hold.
pub open spec fn gt_max_at(l: Seq<u8>, p: int) -> bool {
    if l[p] != 52 {
        l[p] > 52
    } else if l[p + 1] != 50 {
        l[p + 1] > 50
    } else if l[p + 2] != 57 {
        l[p + 2] > 57
    } else if l[p + 3] != 52 {
        l[p + 3] > 52
    } else if l[p + 4] != 57 {
        l[p + 4] > 57
    } else if l[p + 5] != 54 {
        l[p + 5] > 54
    } else if l[p + 6] != 55 {
        l[p + 6] > 55
    } else if l[p + 7] != 50 {
        l[p + 7] > 50
    } else if l[p + 8] != 57 {
        l[p + 8] > 57
    } else {
        l[p + 9] > 53
    }
}

/// The digit run starting at position `p` spells a number too large for an
/// overlap length: it is eleven or more digits long, or exactly ten digits
/// spelling more than 4294967295.
pub open spec fn run_overflows_at(l: Seq<u8>, p: int) -> bool {
    if l.len() - p < 10 {
        false
    } else if !ten_digits_at(l, p) {
        false
    } else if p + 10 < l.len() && digit_byte(l[p + 10]) {
        true
    } else {
        gt_max_at(l, p)
    }
}

/// Whether a digit run starting at position `i` or later, with `prev_digit`
/// saying if the byte before `i` is a digit, overflows an overlap length.
pub open spec fn odr_from(l: Seq<u8>, i: int, prev_digit: bool) -> bool
    decreases l.len() - i,
{
    if i < 0 || i >= l.len() {
        false
    } else {
        (!prev_digit && digit_byte(l[i]) && run_overflows_at(l, i)) || odr_from(
            l,
            i + 1,
            digit_byte(l[i]),
        )
    }
}

/// Somewhere in the line stands a digit run too large for an overlap
/// length.
pub open spec fn has_overflow_digit_run(l: Seq<u8>) -> bool {
    odr_from(l, 0, false)
}

/// Whether the external parser can be trusted to return on this line.
/// The parser aborts instead of failing in two places. On a header line it
/// always runs its optional-field parser over the first field, which
/// aborts on several malformed shapes (an empty byte-array value, a
/// malformed tag); a header never yields a record, so every header line is
/// left unrecognized rather than handed to it. On a path line it parses
/// each overlap length into a 32-bit number and aborts when the digits
/// exceed it; a path line holding such a digit run is left unrecognized.
/// The digit screen looks at the whole line, not just the overlap field,
/// so a path whose name holds an oversized digit run is rejected with it.
pub open spec fn tame_line_spec(l: Seq<u8>) -> bool {
    &&& !leads_with(l, 72)
    &&& !(leads_with(l, 80) && has_overflow_digit_run(l))
}

/// The view of an optional decoded line.
pub open spec fn opt_line_view(r: Option<DecodedLine>) -> Option<LineView> {
    match r {
        Some(l) => Some(l@),
        None => None,
    }
}

/// Whether a byte is ASCII whitespace.
fn is_ws_byte(b: u8) -> (r: bool)
    ensures
        r == ws_byte(b),
{
    b == 9 || b == 10 || b == 12 || b == 13 || b == 32
}

/// Whether a byte is an ASCII decimal digit.
fn is_digit_byte(b: u8) -> (r: bool)
    ensures
        r == digit_byte(b),
{
    48 <= b && b <= 57
}

proof fn lemma_leads_with_unique(l: Seq<u8>, h: int, b: u8)
    requires
        0 <= h < l.len(),
        !ws_byte(l[h]),
        forall|j: int| 0 <= j < h ==> ws_byte(l[j]),
        !ws_byte(b),
    ensures
        leads_with(l, b) <==> l[h] == b,
{
    if l[h] == b {
        assert(leads_with(l, b));
    }
    if leads_with(l, b) {
        let hh = choose|hh: int|
            0 <= hh < l.len() && #[trigger] l[hh] == b && (forall|j: int|
                0 <= j < hh ==> ws_byte(l[j]));
        if hh < h {
            assert(ws_byte(l[hh]));
            assert(false);
        }
        if hh > h {
            assert(ws_byte(l[h]));
            assert(false);
        }
    }
}

/// Decides whether the ten bytes from `q` on are all decimal digits.
fn window_all_digits(l: &[u8], q: usize) -> (r: bool)
    requires
        q + 10 <= l@.len(),
    ensures
        r == ten_digits_at(l@, q as int),
{
    let n = l.len();
    proof {
        assert(q + 10 <= n);
    }
    is_digit_byte(*vstd::slice::slice_index_get(l, q)) && is_digit_byte(
        *vstd::slice::slice_index_get(l, q + 1),
    ) && is_digit_byte(*vstd::slice::slice_index_get(l, q + 2)) && is_digit_byte(
        *vstd::slice::slice_index_get(l, q + 3),
    ) && is_digit_byte(*vstd::slice::slice_index_get(l, q + 4)) && is_digit_byte(
        *vstd::slice::slice_index_get(l, q + 5),
    ) && is_digit_byte(*vstd::slice::slice_index_get(l, q + 6)) && is_digit_byte(
        *vstd::slice::slice_index_get(l, q + 7),
    ) && is_digit_byte(*vstd::slice::slice_index_get(l, q + 8)) && is_digit_byte(
        *vstd::slice::slice_index_get(l, q + 9),
    )
}

/// Decides whether the ten digits from `p` on spell more than 4294967295.
fn gt_max_check(l: &[u8], p: usize) -> (r: bool)
    requires
        p + 10 <= l@.len(),
    ensures
        r == gt_max_at(l@, p as int),
{
    let n = l.len();
    proof {
        assert(p + 10 <= n);
    }
    let b0: u8 = *vstd::slice::slice_index_get(l, p);
    let b1: u8 = *vstd::slice::slice_index_get(l, p + 1);
    let b2: u8 = *vstd::slice::slice_index_get(l, p + 2);
    let b3: u8 = *vstd::slice::slice_index_get(l, p + 3);
    let b4: u8 = *vstd::slice::slice_index_get(l, p + 4);
    let b5: u8 = *vstd::slice::slice_index_get(l, p + 5);
    let b6: u8 = *vstd::slice::slice_index_get(l, p + 6);
    let b7: u8 = *vstd::slice::slice_index_get(l, p + 7);
    let b8: u8 = *vstd::slice::slice_index_get(l, p + 8);
    let b9: u8 = *vstd::slice::slice_index_get(l, p + 9);
    if b0 != 52 {
        b0 > 52
    } else if b1 != 50 {
        b1 > 50
    } else if b2 != 57 {
        b2 > 57
    } else if b3 != 52 {
        b3 > 52
    } else if b4 != 57 {
        b4 > 57
    } else if b5 != 54 {
        b5 > 54
    } else if b6 != 55 {
        b6 > 55
    } else if b7 != 50 {
        b7 > 50
    } else if b8 != 57 {
        b8 > 57
    } else {
        b9 > 53
    }
}

/// Decides whether the digit run starting at `p` overflows an overlap
/// length.
fn run_overflow_check(l: &[u8], p: usize) -> (r: bool)
    requires
        p < l@.len(),
    ensures
        r == run_overflows_at(l@, p as int),
{
    let n = l.len();
    if n - p < 10 {
        return false;
    }
    if !window_all_digits(l, p) {
        return false;
    }
    if p + 10 < n && is_digit_byte(*vstd::slice::slice_index_get(l, p + 10)) {
        return true;
    }
    gt_max_check(l, p)
}

/// Scans a line for a digit run too large for an overlap length.
fn has_overflow_run(l: &[u8]) -> (r: bool)
    ensures
        r == has_overflow_digit_run(l@),
{
    let n = l.len();
    let mut i: usize = 0;
    let mut prev: bool = false;
    let mut found: bool = false;
    while i < n
        invariant
            n == l@.len(),
            i <= n,
            has_overflow_digit_run(l@) == (found || odr_from(l@, i as int, prev)),
        decreases n - i,
    {
        let d = is_digit_byte(*vstd::slice::slice_index_get(l, i));
        if !prev && d {
            if run_overflow_check(l, i) {
                found = true;
            }
        }
        prev = d;
        i = i + 1;
    }
    found
}

/// Screens one line for the byte patterns on which the external parser
/// aborts; only screened lines are handed to it.
fn tame_line(l: &[u8]) -> (b: bool)
    ensures
        b == tame_line_spec(l@),
{
    let n = l.len();
    let mut h: usize = 0;
    while h < n && is_ws_byte(*vstd::slice::slice_index_get(l, h))
        invariant
            h <= n,
            n == l@.len(),
            forall|j: int| 0 <= j < h ==> ws_byte(l@[j]),
        decreases n - h,
    {
        h = h + 1;
    }
    if h == n {
        proof {
            if leads_with(l@, 72) {
                let hh = choose|hh: int|
                    0 <= hh < l@.len() && #[trigger] l@[hh] == 72 && (forall|j: int|
                        0 <= j < hh ==> ws_byte(l@[j]));
                assert(ws_byte(l@[hh]));
                assert(false);
            }
            if leads_with(l@, 80) {
                let hh = choose|hh: int|
                    0 <= hh < l@.len() && #[trigger] l@[hh] == 80 && (forall|j: int|
                        0 <= j < hh ==> ws_byte(l@[j]));
                assert(ws_byte(l@[hh]));
                assert(false);
            }
        }
        true
    } else {
        let first: u8 = *vstd::slice::slice_index_get(l, h);
        proof {
            lemma_leads_with_unique(l@, h as int, 72);
            lemma_leads_with_unique(l@, h as int, 80);
        }
        if first == 72 {
            false
        } else if first == 80 {
            !has_overflow_run(l)
        } else {
            true
        }
    }
}

/// Converts the decoder's orientation to the library's.
/// Only called from the decoder wrappers in this module.
#[verifier::external_body]
fn conv_orient(o: gfa::gfa::Orientation) -> Orient {
    match o {
        gfa::gfa::Orientation::Forward => Orient::Forward,
        gfa::gfa::Orientation::Backward => Orient::Backward,
    }
}

/// Converts raw text to an owned string.
/// Relies on `String::from_utf8_lossy`: the result is a function of the
/// bytes alone.
#[verifier::external_body]
fn lossy_string(bytes: &[u8]) -> String {
    String::from_utf8_lossy(bytes).into_owned()
}

/// Converts a decoded link's fields into owned plain values.
/// Only called from `decode_line`.
#[verifier::external_body]
fn conv_link(
    from_segment: Vec<u8>,
    from_orient: gfa::gfa::Orientation,
    to_segment: Vec<u8>,
    to_orient: gfa::gfa::Orientation,
    overlap: Vec<u8>,
) -> DecodedLine {
    DecodedLine::Link {
        from_segment: lossy_string(&from_segment),
        from_orient: conv_orient(from_orient),
        to_segment: lossy_string(&to_segment),
        to_orient: conv_orient(to_orient),
        overlap: lossy_string(&overlap),
    }
}

/// Converts a decoded path's fields into owned plain values.
/// Relies on `gfa`'s `Path::iter` to parse the raw step list into (name,
/// orientation) pairs, in order, and on `CIGAR`'s text form for the
/// overlaps (a missing overlap prints as the format's placeholder `*`).
/// A non-empty step without a trailing orientation sign would make the
/// step iterator abort, so such a path is rejected as unrecognized first.
/// Only called from `decode_line`.
#[verifier::external_body]
fn conv_path(
    path_name: Vec<u8>,
    segment_names: Vec<u8>,
    overlaps: Vec<Option<gfa::cigar::CIGAR>>,
) -> Option<DecodedLine> {
    let steps_signed = |s: &[u8]| s.is_empty() || matches!(s.last(), Some(b'+') | Some(b'-'));
    if !segment_names.split(|b| *b == b',').all(steps_signed) {
        return None;
    }
    let p = gfa::gfa::Path::<Vec<u8>, ()>::new(path_name, segment_names, overlaps, ());
    let steps = p.iter().map(|(n, o)| (n.to_string(), conv_orient(o))).collect();
    let overlaps = p.overlaps.iter().map(
        |c| c.as_ref().map_or("*".to_string(), |g| g.to_string()),
    ).collect();
    Some(DecodedLine::Path { path_name: lossy_string(&p.path_name), steps, overlaps })
}

/// Decodes one screened line of text.
/// Relies on `gfa`'s `GFAParser::parse_gfa_line`: it parses the given bytes
/// alone, deterministically, and either yields one typed line or fails;
/// header and containment lines are kept as `Other` so that filtering them
/// out stays a verified decision. The parser aborts on the byte patterns
/// `tame_line_spec` names, so only screened lines may reach this wrapper.
#[verifier::external_body]
fn decode_tame_line(bytes: &[u8]) -> (r: Option<DecodedLine>)
    requires
        tame_line_spec(bytes@),
    ensures
        opt_line_view(r) == decoded_line(bytes@),
{
    let parser: gfa::parser::GFAParser<Vec<u8>, ()> = gfa::parser::GFAParser::new();
    match parser.parse_gfa_line(bytes) {
        Ok(gfa::gfa::Line::Segment(s)) => Some(DecodedLine::Segment {
            name: lossy_string(&s.name),
            sequence: lossy_string(&s.sequence),
        }),
        Ok(gfa::gfa::Line::Link(k)) => Some(
            conv_link(k.from_segment, k.from_orient, k.to_segment, k.to_orient, k.overlap),
        ),
        Ok(gfa::gfa::Line::Path(p)) => conv_path(p.path_name, p.segment_names, p.overlaps),
        Ok(_) => Some(DecodedLine::Other),
        Err(_) => None,
    }
}

/// What one line of text decodes to: the decoder's output for a screened
/// line, and nothing for a line the screen rejects.
pub open spec fn line_decoding(bytes: Seq<u8>) -> Option<LineView> {
    if tame_line_spec(bytes) {
        decoded_line(bytes)
    } else {
        None
    }
}

/// Decodes one line of text, or yields nothing for a line the decoder
/// rejects or the screen refuses to hand to it.
pub fn decode_line(bytes: &[u8]) -> (r: Option<DecodedLine>)
    ensures
        opt_line_view(r) == line_decoding(bytes@),
{
    if tame_line(bytes) {
        decode_tame_line(bytes)
    } else {
        None
    }
}

/// What one line of text contributes to the graph: its decoded record after
/// normalization, or nothing.
pub open spec fn rec_of_line(bytes: Seq<u8>) -> Option<RecView> {
    match line_decoding(bytes) {
        Some(l) => norm_spec(l),
        None => None,
    }
}

/// Decodes and normalizes one line of text: the record it contributes to
/// the graph, or nothing for a line that is not a record.
pub fn parse_line(s: &str) -> (r: Option<JLine>)
    ensures
        opt_rec_view(r) == rec_of_line(s.spec_bytes()),
{
    match decode_line(s.as_bytes()) {
        Some(d) => normalize(d),
        None => None,
    }
}

} // verus!

//! Record types: what the line decoder yields, the normalized records the
//! graph store keeps, and the mathematical views of both.

use vstd::prelude::*;

verus! {

/// Strand orientation of a segment traversal, as the line decoder reports it.
#[derive(Clone, Copy, Debug, PartialEq, Eq, Structural)]
pub enum Orient {
    Forward,
    Backward,
}

/// A decoded line, as handed over by the external line decoder: either one
/// of the three record kinds, or `Other` for a recognized non-record line
/// (header, containment, and the like).
#[derive(Clone, Debug, PartialEq, Eq)]
pub enum DecodedLine {
    Segment { name: String, sequence: String },
    Link {
        from_segment: String,
        from_orient: Orient,
        to_segment: String,
        to_orient: Orient,
        overlap: String,
    },
    Path { path_name: String, steps: Vec<(String, Orient)>, overlaps: Vec<String> },
    Other,
}

/// A normalized segment record: a name and its sequence text.
#[derive(Clone, Debug, PartialEq, Eq)]
pub struct JSegment {
    pub name: String,
    pub sequence: String,
}

/// A normalized link record; orientation is encoded as a boolean,
/// `true` for forward.
#[derive(Clone, Debug, PartialEq, Eq)]
pub struct JLink {
    pub from_segment: String,
    pub from_orient: bool,
    pub to_segment: String,
    pub to_orient: bool,
    pub overlap: String,
}

/// A normalized path record: the traversed segment names with their
/// orientations, in path order, and the overlap list as decoded (its length
/// is deliberately not checked against the step count).
#[derive(Clone, Debug, PartialEq, Eq)]
pub struct JPath {
    pub path_name: String,
    pub segment_names: Vec<(String, bool)>,
    pub overlaps: Vec<String>,
}

/// A normalized record of any of the three kinds.
#[derive(Clone, Debug, PartialEq, Eq)]
pub enum JLine {
    Segment(JSegment),
    Link(JLink),
    Path(JPath),
}

/// Mathematical view of a segment record.
pub struct SegView {
    pub name: Seq<char>,
    pub sequence: Seq<char>,
}

/// Mathematical view of a link record.
pub struct LinkView {
    pub from_segment: Seq<char>,
    pub from_orient: bool,
    pub to_segment: Seq<char>,
    pub to_orient: bool,
    pub overlap: Seq<char>,
}

/// Mathematical view of a path record.
pub struct PathView {
    pub path_name: Seq<char>,
    pub segment_names: Seq<(Seq<char>, bool)>,
    pub overlaps: Seq<Seq<char>>,
}

/// Mathematical view of a normalized record.
pub enum RecView {
    Segment(SegView),
    Link(LinkView),
    Path(PathView),
}

/// Mathematical view of a decoded line.
pub enum LineView {
    Segment { name: Seq<char>, sequence: Seq<char> },
    Link {
        from_segment: Seq<char>,
        from_orient: Orient,
        to_segment: Seq<char>,
        to_orient: Orient,
        overlap: Seq<char>,
    },
    Path {
        path_name: Seq<char>,
        steps: Seq<(Seq<char>, Orient)>,
        overlaps: Seq<Seq<char>>,
    },
    Other,
}

impl View for JSegment {
    type V = SegView;

    open spec fn view(&self) -> SegView {
        SegView { name: self.name@, sequence: self.sequence@ }
    }
}

impl View for JLink {
    type V = LinkView;

    open spec fn view(&self) -> LinkView {
        LinkView {
            from_segment: self.from_segment@,
            from_orient: self.from_orient,
            to_segment: self.to_segment@,
            to_orient: self.to_orient,
            overlap: self.overlap@,
        }
    }
}

impl View for JPath {
    type V = PathView;

    open spec fn view(&self) -> PathView {
        PathView {
            path_name: self.path_name@,
            segment_names: self.segment_names@.map_values(|p: (String, bool)| (p.0@, p.1)),
            overlaps: self.overlaps@.map_values(|s: String| s@),
        }
    }
}

impl View for JLine {
    type V = RecView;

    open spec fn view(&self) -> RecView {
        match self {
            JLine::Segment(s) => RecView::Segment(s@),
            JLine::Link(l) => RecView::Link(l@),
            JLine::Path(p) => RecView::Path(p@),
        }
    }
}

impl View for DecodedLine {
    type V = LineView;

    open spec fn view(&self) -> LineView {
        match self {
            DecodedLine::Segment { name, sequence } => LineView::Segment {
                name: name@,
                sequence: sequence@,
            },
            DecodedLine::Link { from_segment, from_orient, to_segment, to_orient, overlap } => {
                LineView::Link {
                    from_segment: from_segment@,
                    from_orient: *from_orient,
                    to_segment: to_segment@,
                    to_orient: *to_orient,
                    overlap: overlap@,
                }
            },
            DecodedLine::Path { path_name, steps, overlaps } => LineView::Path {
                path_name: path_name@,
                steps: steps@.map_values(|q: (String, Orient)| (q.0@, q.1)),
                overlaps: overlaps@.map_values(|s: String| s@),
            },
            DecodedLine::Other => LineView::Other,
        }
    }
}

/// The boolean encoding of an orientation: forward is `true`.
pub open spec fn forward_bool(o: Orient) -> bool {
    o == Orient::Forward
}

/// The orientation a boolean encodes: `true` is forward.
pub open spec fn spec_bool_orient(b: bool) -> Orient {
    if b {
        Orient::Forward
    } else {
        Orient::Backward
    }
}

/// Maps an orientation to its boolean encoding.
pub fn orient_bool(o: Orient) -> (b: bool)
    ensures
        b == forward_bool(o),
{
    match o {
        Orient::Forward => true,
        Orient::Backward => false,
    }
}

/// Maps a boolean encoding back to the orientation it stands for.
pub fn bool_orient(b: bool) -> (o: Orient)
    ensures
        o == spec_bool_orient(b),
{
    if b {
        Orient::Forward
    } else {
        Orient::Backward
    }
}

/// Law: the boolean encoding of orientation is a bijection — mapping an
/// orientation to its boolean and back yields the orientation, and mapping a
/// boolean to its orientation and back yields the boolean.
pub proof fn lemma_orientation_round_trip(o: Orient, b: bool)
    ensures
        spec_bool_orient(forward_bool(o)) == o,
        forward_bool(spec_bool_orient(b)) == b,
{
}

/// What normalization makes of a decoded line: the record kinds keep every
/// field verbatim, orientations turn into their boolean encoding, and any
/// other line yields no record.
pub open spec fn norm_spec(l: LineView) -> Option<RecView> {
    match l {
        LineView::Segment { name, sequence } => Some(
            RecView::Segment(SegView { name, sequence }),
        ),
        LineView::Link { from_segment, from_orient, to_segment, to_orient, overlap } => Some(
            RecView::Link(
                LinkView {
                    from_segment,
                    from_orient: forward_bool(from_orient),
                    to_segment,
                    to_orient: forward_bool(to_orient),
                    overlap,
                },
            ),
        ),
        LineView::Path { path_name, steps, overlaps } => Some(
            RecView::Path(
                PathView {
                    path_name,
                    segment_names: steps.map_values(|q: (Seq<char>, Orient)| (q.0, forward_bool(q.1))),
                    overlaps,
                },
            ),
        ),
        LineView::Other => None,
    }
}

/// The decoded line a normalized record stands for: every field read back
/// verbatim, boolean orientations mapped back to orientations.
pub open spec fn denorm_spec(r: RecView) -> LineView {
    match r {
        RecView::Segment(s) => LineView::Segment { name: s.name, sequence: s.sequence },
        RecView::Link(k) => LineView::Link {
            from_segment: k.from_segment,
            from_orient: spec_bool_orient(k.from_orient),
            to_segment: k.to_segment,
            to_orient: spec_bool_orient(k.to_orient),
            overlap: k.overlap,
        },
        RecView::Path(p) => LineView::Path {
            path_name: p.path_name,
            steps: p.segment_names.map_values(|q: (Seq<char>, bool)| (q.0, spec_bool_orient(q.1))),
            overlaps: p.overlaps,
        },
    }
}

/// Law (round trip): every decoded record line normalizes to a record, and
/// mapping that record's boolean orientations back recovers the decoded
/// line exactly — normalization carries every field verbatim and loses
/// nothing.
pub proof fn lemma_normalize_round_trip(l: LineView)
    requires
        !(l is Other),
    ensures
        norm_spec(l) is Some,
        denorm_spec(norm_spec(l)->Some_0) == l,
{
    match l {
        LineView::Path { path_name, steps, overlaps } => {
            assert(steps.map_values(|q: (Seq<char>, Orient)| (q.0, forward_bool(q.1))).map_values(
                |q: (Seq<char>, bool)| (q.0, spec_bool_orient(q.1)),
            ) =~= steps);
        },
        _ => {},
    }
}

/// The view of an optional normalized record.
pub open spec fn opt_rec_view(r: Option<JLine>) -> Option<RecView> {
    match r {
        Some(l) => Some(l@),
        None => None,
    }
}

/// Normalizes a decoded line into an owned record, or into nothing for a
/// non-record line. Every field is carried over verbatim; orientations are
/// mapped to their boolean encoding.
pub fn normalize(line: DecodedLine) -> (r: Option<JLine>)
    ensures
        opt_rec_view(r) == norm_spec(line@),
{
    match line {
        DecodedLine::Segment { name, sequence } => Some(
            JLine::Segment(JSegment { name, sequence }),
        ),
        DecodedLine::Link { from_segment, from_orient, to_segment, to_orient, overlap } => Some(
            JLine::Link(
                JLink {
                    from_segment,
                    from_orient: orient_bool(from_orient),
                    to_segment,
                    to_orient: orient_bool(to_orient),
                    overlap,
                },
            ),
        ),
        DecodedLine::Path { path_name, steps, overlaps } => {
            let mut segment_names: Vec<(String, bool)> = Vec::new();
            let mut i: usize = 0;
            while i < steps.len()
                invariant
                    i <= steps@.len(),
                    segment_names@.len() == i,
                    forall|k: int|
                        0 <= k < i ==> (#[trigger] segment_names@[k]).0@ == steps@[k].0@
                            && segment_names@[k].1 == forward_bool(steps@[k].1),
                decreases steps@.len() - i,
            {
                let step_name: String = steps[i].0.clone();
                let step_orient: Orient = steps[i].1;
                segment_names.push((step_name, orient_bool(step_orient)));
                i = i + 1;
            }
            proof {
                assert(segment_names@.map_values(|p: (String, bool)| (p.0@, p.1))
                    =~= steps@.map_values(|q: (String, Orient)| (q.0@, q.1)).map_values(
                    |q: (Seq<char>, Orient)| (q.0, forward_bool(q.1)),
                ));
            }
            Some(JLine::Path(JPath { path_name, segment_names, overlaps }))
        },
        DecodedLine::Other => None,
    }
}

} // verus!

//! The graph store: an owned, append-only collection of normalized records,
//! and the ingestion pass that builds one from a whole document.
//!
//! A document's meaning is fixed by `store_of_text`: split the bytes on line
//! breaks, decode and normalize each line, and append every record in input
//! order, silently skipping every line that yields none.

use vstd::prelude::*;
use vstd::slice::slice_subrange;
use vstd::slice::slice_to_vec;
use vstd::string::StringSliceAdditionalSpecFns;
use vstd::utf8::encode_utf8;

use crate::decode::decode_line;
use crate::decode::rec_of_line;
use crate::records::JLine;
use crate::records::JLink;
use crate::records::JPath;
use crate::records::JSegment;
use crate::records::LinkView;
use crate::records::PathView;
use crate::records::RecView;
use crate::records::SegView;
use crate::records::normalize;
use crate::views::JSlice;
use crate::views::StrPtr;

verus! {

/// Mathematical view of the graph store: the three record sequences, in
/// insertion order.
#[verifier::ext_equal]
pub struct StoreView {
    pub segments: Seq<SegView>,
    pub links: Seq<LinkView>,
    pub paths: Seq<PathView>,
}

/// The store with nothing in it.
pub open spec fn empty_store() -> StoreView {
    StoreView { segments: Seq::empty(), links: Seq::empty(), paths: Seq::empty() }
}

/// Appending one record to the store: it goes to the end of the sequence of
/// its own kind, and the other two sequences are untouched.
pub open spec fn push_rec(st: StoreView, r: RecView) -> StoreView {
    match r {
        RecView::Segment(s) => StoreView { segments: st.segments.push(s), ..st },
        RecView::Link(l) => StoreView { links: st.links.push(l), ..st },
        RecView::Path(p) => StoreView { paths: st.paths.push(p), ..st },
    }
}

/// The position of the first line break in a byte sequence, or its length
/// if it has none.
pub open spec fn first_break(t: Seq<u8>) -> nat
    decreases t.len(),
{
    if t.len() == 0 {
        0
    } else if t[0] == 10 {
        0
    } else {
        1 + first_break(t.drop_first())
    }
}

/// A document split at its line breaks. An empty document is one empty
/// line; a trailing break yields an empty last line.
pub open spec fn split_lines(t: Seq<u8>) -> Seq<Seq<u8>>
    decreases t.len(),
{
    let b = first_break(t) as int;
    if b >= t.len() {
        seq![t]
    } else {
        seq![t.take(b)] + split_lines(t.skip(b + 1))
    }
}

/// The store a line list builds: each line's record, if it has one,
/// appended in order.
pub open spec fn store_of_lines(ls: Seq<Seq<u8>>) -> StoreView
    decreases ls.len(),
{
    if ls.len() == 0 {
        empty_store()
    } else {
        let prev = store_of_lines(ls.drop_last());
        match rec_of_line(ls.last()) {
            Some(r) => push_rec(prev, r),
            None => prev,
        }
    }
}

/// The store a whole document builds.
pub open spec fn store_of_text(t: Seq<u8>) -> StoreView {
    store_of_lines(split_lines(t))
}

/// The store a document given as text builds.
pub open spec fn store_of_string(s: Seq<char>) -> StoreView {
    store_of_text(encode_utf8(s))
}

proof fn lemma_first_break_at(t: Seq<u8>, k: int)
    requires
        0 <= k <= t.len(),
        forall|j: int| 0 <= j < k ==> t[j] != 10,
        k < t.len() ==> t[k] == 10,
    ensures
        first_break(t) == k,
    decreases t.len(),
{
    if t.len() == 0 {
    } else if t[0] == 10 {
    } else {
        assert(t.drop_first().len() == t.len() - 1);
        assert forall|j: int| 0 <= j < k - 1 implies t.drop_first()[j] != 10 by {
            assert(t.drop_first()[j] == t[j + 1]);
        }
        if k - 1 < t.len() - 1 {
            assert(t.drop_first()[k - 1] == t[k]);
        }
        lemma_first_break_at(t.drop_first(), k - 1);
    }
}

/// Unfolds `split_lines` at a known first line break.
proof fn lemma_split_lines_step(t: Seq<u8>, k: int)
    requires
        0 <= k < t.len(),
        t[k] == 10,
        forall|j: int| 0 <= j < k ==> t[j] != 10,
    ensures
        split_lines(t) == seq![t.take(k)] + split_lines(t.skip(k + 1)),
{
    lemma_first_break_at(t, k);
}

/// `split_lines` of a break-free byte sequence is that one line.
proof fn lemma_split_lines_whole(t: Seq<u8>)
    requires
        forall|j: int| 0 <= j < t.len() ==> t[j] != 10,
    ensures
        split_lines(t) == seq![t],
{
    lemma_first_break_at(t, t.len() as int);
}

/// Splits a document's bytes at its line breaks.
pub fn split_into_lines(t: &[u8]) -> (r: Vec<Vec<u8>>)
    ensures
        r@.map_values(|l: Vec<u8>| l@) == split_lines(t@),
{
    let mut out: Vec<Vec<u8>> = Vec::new();
    let mut start: usize = 0;
    let mut i: usize = 0;
    proof {
        assert(t@.skip(0) =~= t@);
        assert(out@.map_values(|l: Vec<u8>| l@) + split_lines(t@) =~= split_lines(t@));
    }
    while i < t.len()
        invariant
            start <= i <= t@.len(),
            forall|k: int| start <= k < i ==> t@[k] != 10,
            split_lines(t@) == out@.map_values(|l: Vec<u8>| l@) + split_lines(
                t@.skip(start as int),
            ),
        decreases t@.len() - i,
    {
        let c: u8 = *vstd::slice::slice_index_get(t, i);
        if c == 10 {
            let line: Vec<u8> = slice_to_vec(slice_subrange(t, start, i));
            proof {
                let rest = t@.skip(start as int);
                assert forall|j: int| 0 <= j < i - start implies rest[j] != 10 by {
                    assert(rest[j] == t@[start + j]);
                }
                assert(rest[i - start] == t@[i as int]);
                lemma_split_lines_step(rest, i - start);
                assert(rest.take(i - start) =~= t@.subrange(start as int, i as int));
                assert(rest.skip(i - start + 1) =~= t@.skip(i + 1));
                assert(out@.push(line).map_values(|l: Vec<u8>| l@) =~= out@.map_values(
                    |l: Vec<u8>| l@,
                ).push(line@));
                assert(out@.map_values(|l: Vec<u8>| l@).push(line@) =~= out@.map_values(
                    |l: Vec<u8>| l@,
                ) + seq![line@]);
                assert((out@.map_values(|l: Vec<u8>| l@) + seq![line@]) + split_lines(t@.skip(i + 1))
                    =~= out@.map_values(|l: Vec<u8>| l@) + (seq![line@] + split_lines(
                    t@.skip(i + 1),
                )));
            }
            out.push(line);
            start = i + 1;
        }
        i = i + 1;
    }
    let last: Vec<u8> = slice_to_vec(slice_subrange(t, start, t.len()));
    proof {
        let rest = t@.skip(start as int);
        assert forall|j: int| 0 <= j < rest.len() implies rest[j] != 10 by {
            assert(rest[j] == t@[start + j]);
        }
        lemma_split_lines_whole(rest);
        assert(rest =~= t@.subrange(start as int, t@.len() as int));
        assert(out@.push(last).map_values(|l: Vec<u8>| l@) =~= out@.map_values(
            |l: Vec<u8>| l@,
        ) + seq![last@]);
    }
    out.push(last);
    out
}

/// The graph store: three independent record sequences, addressed by index
/// in insertion order. Build-once, read-many: records are only ever
/// appended.
#[derive(Clone, Debug, PartialEq, Eq)]
pub struct WGFA {
    segments: Vec<JSegment>,
    links: Vec<JLink>,
    paths: Vec<JPath>,
}

impl View for WGFA {
    type V = StoreView;

    closed spec fn view(&self) -> StoreView {
        StoreView {
            segments: self.segments@.map_values(|s: JSegment| s@),
            links: self.links@.map_values(|l: JLink| l@),
            paths: self.paths@.map_values(|p: JPath| p@),
        }
    }
}

impl Default for WGFA {
    /// An empty store.
    fn default() -> (g: WGFA)
        ensures
            g@ == empty_store(),
    {
        WGFA::new()
    }
}

impl WGFA {
    /// Creates an empty store.
    pub fn new() -> (g: WGFA)
        ensures
            g@ == empty_store(),
    {
        let g = WGFA { segments: Vec::new(), links: Vec::new(), paths: Vec::new() };
        proof {
            assert(g@ =~= empty_store());
        }
        g
    }

    /// Appends one normalized record to the sequence of its kind. Amortized
    /// constant time; a reallocation here is what invalidates previously
    /// issued boundary views.
    pub fn append(&mut self, rec: JLine)
        ensures
            final(self)@ == push_rec(old(self)@, rec@),
    {
        let ghost rv = rec@;
        match rec {
            JLine::Segment(s) => {
                let ghost sv = s@;
                self.segments.push(s);
                proof {
                    assert(self@.segments =~= old(self)@.segments.push(sv));
                    assert(self@ =~= push_rec(old(self)@, rv));
                }
            },
            JLine::Link(l) => {
                let ghost lv = l@;
                self.links.push(l);
                proof {
                    assert(self@.links =~= old(self)@.links.push(lv));
                    assert(self@ =~= push_rec(old(self)@, rv));
                }
            },
            JLine::Path(p) => {
                let ghost pv = p@;
                self.paths.push(p);
                proof {
                    assert(self@.paths =~= old(self)@.paths.push(pv));
                    assert(self@ =~= push_rec(old(self)@, rv));
                }
            },
        }
    }

    /// Exact number of segment records.
    pub fn segment_count(&self) -> (n: usize)
        ensures
            n == self@.segments.len(),
    {
        self.segments.len()
    }

    /// Exact number of link records.
    pub fn link_count(&self) -> (n: usize)
        ensures
            n == self@.links.len(),
    {
        self.links.len()
    }

    /// Exact number of path records.
    pub fn path_count(&self) -> (n: usize)
        ensures
            n == self@.paths.len(),
    {
        self.paths.len()
    }

    /// The segment record at an index, or nothing exactly when the index is
    /// out of range.
    pub fn segment_at(&self, i: usize) -> (r: Option<&JSegment>)
        ensures
            r is Some <==> i < self@.segments.len(),
            r is Some ==> r->Some_0@ == self@.segments[i as int],
    {
        if i < self.segments.len() {
            Some(&self.segments[i])
        } else {
            None
        }
    }

    /// The link record at an index, or nothing exactly when the index is
    /// out of range.
    pub fn link_at(&self, i: usize) -> (r: Option<&JLink>)
        ensures
            r is Some <==> i < self@.links.len(),
            r is Some ==> r->Some_0@ == self@.links[i as int],
    {
        if i < self.links.len() {
            Some(&self.links[i])
        } else {
            None
        }
    }

    /// The path record at an index, or nothing exactly when the index is
    /// out of range.
    pub fn path_at(&self, i: usize) -> (r: Option<&JPath>)
        ensures
            r is Some <==> i < self@.paths.len(),
            r is Some ==> r->Some_0@ == self@.paths[i as int],
    {
        if i < self.paths.len() {
            Some(&self.paths[i])
        } else {
            None
        }
    }

    /// Collection view of the segment array: base address, record count
    /// and record stride, for zero-copy external reads. Valid only until
    /// the next append.
    pub fn segments(&self) -> (r: JSlice)
        ensures
            r.len == self@.segments.len(),
            r.stride == vstd::layout::size_of::<JSegment>(),
    {
        JSlice::from_slice(self.segments.as_slice())
    }

    /// Collection view of the link array. Valid only until the next append.
    pub fn links(&self) -> (r: JSlice)
        ensures
            r.len == self@.links.len(),
            r.stride == vstd::layout::size_of::<JLink>(),
    {
        JSlice::from_slice(self.links.as_slice())
    }

    /// Collection view of the path array. Valid only until the next append.
    pub fn paths(&self) -> (r: JSlice)
        ensures
            r.len == self@.paths.len(),
            r.stride == vstd::layout::size_of::<JPath>(),
    {
        JSlice::from_slice(self.paths.as_slice())
    }

    /// String view of one segment's name, or nothing exactly when the
    /// index is out of range; the length is the name's exact byte length.
    /// Valid only until the next append.
    pub fn get_segment_name(&self, ix: usize) -> (r: Option<StrPtr>)
        ensures
            r is Some <==> ix < self@.segments.len(),
            r is Some ==> r->Some_0.len == encode_utf8(self@.segments[ix as int].name).len(),
    {
        if ix < self.segments.len() {
            Some(StrPtr::new(self.segments[ix].name.as_str()))
        } else {
            None
        }
    }

    /// String view of one segment's sequence, or nothing exactly when the
    /// index is out of range; the length is the sequence's exact byte
    /// length. Valid only until the next append.
    pub fn get_segment_seq(&self, ix: usize) -> (r: Option<StrPtr>)
        ensures
            r is Some <==> ix < self@.segments.len(),
            r is Some ==> r->Some_0.len == encode_utf8(self@.segments[ix as int].sequence).len(),
    {
        if ix < self.segments.len() {
            Some(StrPtr::new(self.segments[ix].sequence.as_str()))
        } else {
            None
        }
    }

    /// Ingests a whole document: splits it into lines, decodes and
    /// normalizes each, and appends every record in input order. A line
    /// that decodes to nothing is silently skipped, never an error.
    pub fn parse_gfa(gfa_string: &str) -> (g: WGFA)
        ensures
            g@ == store_of_text(gfa_string.spec_bytes()),
    {
        let bytes: &[u8] = gfa_string.as_bytes();
        let lines: Vec<Vec<u8>> = split_into_lines(bytes);
        let ghost lviews: Seq<Seq<u8>> = lines@.map_values(|l: Vec<u8>| l@);
        let mut g = WGFA::new();
        let mut i: usize = 0;
        while i < lines.len()
            invariant
                i <= lines@.len(),
                lines@.map_values(|l: Vec<u8>| l@) == lviews,
                g@ == store_of_lines(lviews.take(i as int)),
            decreases lines@.len() - i,
        {
            proof {
                assert(lviews[i as int] == lines@[i as int]@);
            }
            match decode_line((&lines[i]).as_slice()) {
                Some(d) => {
                    match normalize(d) {
                        Some(r) => g.append(r),
                        None => (),
                    }
                },
                None => (),
            }
            proof {
                assert(lviews.take(i + 1).drop_last() =~= lviews.take(i as int));
                assert(lviews.take(i + 1).last() == lviews[i as int]);
            }
            i = i + 1;
        }
        proof {
            assert(lviews.take(lines@.len() as int) =~= lviews);
        }
        g
    }
}

/// A failure to retrieve a remote document: nothing was ingested.
#[derive(Clone, Debug, PartialEq, Eq)]
pub struct TransportError {
    pub message: String,
}

/// Turns the outcome of fetching a document into the outcome of ingesting
/// it: retrieved text is ingested whole, and a transport failure is
/// terminal — it yields the error and no store at all, never a partial or
/// empty one.
pub fn ingest_fetched(fetched: Result<String, TransportError>) -> (r: Result<
    WGFA,
    TransportError,
>)
    ensures
        fetched is Ok ==> r is Ok && r->Ok_0@ == store_of_string(fetched->Ok_0@),
        fetched is Err ==> r is Err && r->Err_0 == fetched->Err_0,
{
    match fetched {
        Ok(text) => Ok(WGFA::parse_gfa(text.as_str())),
        Err(e) => Err(e),
    }
}

} // verus!


//! Laws of the ingestion pass: how many records a document can yield, and
//! that records of one kind keep the order of the lines they came from.

use vstd::prelude::*;

use crate::decode::rec_of_line;
use crate::records::LinkView;
use crate::records::PathView;
use crate::records::RecView;
use crate::records::SegView;
use crate::store::StoreView;
use crate::store::push_rec;
use crate::store::split_lines;
use crate::store::store_of_lines;
use crate::store::store_of_text;

verus! {

/// The total number of records a store holds, over all three kinds.
pub open spec fn record_total(st: StoreView) -> nat {
    st.segments.len() + st.links.len() + st.paths.len()
}

/// Law: a line list never yields more records than it has lines, and
/// exactly as many only when every line yields a record.
pub proof fn lemma_record_total_bounded(ls: Seq<Seq<u8>>)
    ensures
        record_total(store_of_lines(ls)) <= ls.len(),
        record_total(store_of_lines(ls)) == ls.len() <==> (forall|i: int|
            0 <= i < ls.len() ==> rec_of_line(ls[i]) is Some),
    decreases ls.len(),
{
    if ls.len() == 0 {
    } else {
        let prefix = ls.drop_last();
        lemma_record_total_bounded(prefix);
        assert(forall|i: int| 0 <= i < prefix.len() ==> prefix[i] == ls[i]);
        if record_total(store_of_lines(ls)) == ls.len() {
            assert(rec_of_line(ls.last()) is Some);
            assert(record_total(store_of_lines(prefix)) == prefix.len());
            assert forall|i: int| 0 <= i < ls.len() implies rec_of_line(ls[i]) is Some by {
                if i < ls.len() - 1 {
                    assert(rec_of_line(prefix[i]) is Some);
                } else {
                    assert(ls[i] == ls.last());
                }
            }
        }
        if forall|i: int| 0 <= i < ls.len() ==> rec_of_line(ls[i]) is Some {
            assert forall|i: int| 0 <= i < prefix.len() implies rec_of_line(prefix[i]) is Some by {
                assert(rec_of_line(ls[i]) is Some);
            }
            assert(rec_of_line(ls.last()) is Some);
            assert(record_total(store_of_lines(ls)) == ls.len());
        }
    }
}

/// Law: a whole document never yields more records than it has lines, and
/// exactly as many only when every line yields a record.
pub proof fn lemma_document_record_bound(t: Seq<u8>)
    ensures
        record_total(store_of_text(t)) <= split_lines(t).len(),
        record_total(store_of_text(t)) == split_lines(t).len() <==> (forall|i: int|
            0 <= i < split_lines(t).len() ==> rec_of_line(split_lines(t)[i]) is Some),
{
    lemma_record_total_bounded(split_lines(t));
}

/// The three record kinds.
pub enum RecKind {
    Segment,
    Link,
    Path,
}

/// The kind of a record.
pub open spec fn kind_of(r: RecView) -> RecKind {
    match r {
        RecView::Segment(_) => RecKind::Segment,
        RecView::Link(_) => RecKind::Link,
        RecView::Path(_) => RecKind::Path,
    }
}

/// The records of one kind a store holds, in insertion order.
pub open spec fn recs_of(st: StoreView, k: RecKind) -> Seq<RecView> {
    match k {
        RecKind::Segment => st.segments.map_values(|s: SegView| RecView::Segment(s)),
        RecKind::Link => st.links.map_values(|l: LinkView| RecView::Link(l)),
        RecKind::Path => st.paths.map_values(|p: PathView| RecView::Path(p)),
    }
}

/// Whether a line yields a record of the given kind.
pub open spec fn is_kind(line: Seq<u8>, k: RecKind) -> bool {
    match rec_of_line(line) {
        Some(r) => kind_of(r) == k,
        None => false,
    }
}

/// How many of the first `n` lines yield a record of the given kind.
pub open spec fn kind_count(ls: Seq<Seq<u8>>, k: RecKind, n: int) -> nat
    decreases n,
{
    if n <= 0 {
        0
    } else {
        kind_count(ls, k, n - 1) + if is_kind(ls[n - 1], k) {
            1nat
        } else {
            0nat
        }
    }
}

proof fn lemma_push_rec_recs(st: StoreView, r: RecView, k: RecKind)
    ensures
        kind_of(r) == k ==> recs_of(push_rec(st, r), k) == recs_of(st, k).push(r),
        kind_of(r) != k ==> recs_of(push_rec(st, r), k) == recs_of(st, k),
{
    match r {
        RecView::Segment(s) => {
            assert(recs_of(push_rec(st, r), RecKind::Segment) =~= recs_of(
                st,
                RecKind::Segment,
            ).push(r));
        },
        RecView::Link(l) => {
            assert(recs_of(push_rec(st, r), RecKind::Link) =~= recs_of(st, RecKind::Link).push(r));
        },
        RecView::Path(p) => {
            assert(recs_of(push_rec(st, r), RecKind::Path) =~= recs_of(st, RecKind::Path).push(r));
        },
    }
}

proof fn lemma_kind_count_prefix(ls: Seq<Seq<u8>>, k: RecKind, n: int)
    requires
        0 <= n <= ls.len() - 1,
    ensures
        kind_count(ls.drop_last(), k, n) == kind_count(ls, k, n),
    decreases n,
{
    if n > 0 {
        lemma_kind_count_prefix(ls, k, n - 1);
        assert(ls.drop_last()[n - 1] == ls[n - 1]);
    }
}

proof fn lemma_recs_len(ls: Seq<Seq<u8>>, k: RecKind)
    ensures
        recs_of(store_of_lines(ls), k).len() == kind_count(ls, k, ls.len() as int),
    decreases ls.len(),
{
    if ls.len() == 0 {
    } else {
        let prefix = ls.drop_last();
        lemma_recs_len(prefix, k);
        lemma_kind_count_prefix(ls, k, ls.len() - 1);
        assert(ls.last() == ls[ls.len() - 1]);
        match rec_of_line(ls.last()) {
            Some(r) => {
                lemma_push_rec_recs(store_of_lines(prefix), r, k);
            },
            None => {},
        }
    }
}

proof fn lemma_rec_position(ls: Seq<Seq<u8>>, k: RecKind, i: int)
    requires
        0 <= i < ls.len(),
        is_kind(ls[i], k),
    ensures
        kind_count(ls, k, i) < recs_of(store_of_lines(ls), k).len(),
        recs_of(store_of_lines(ls), k)[kind_count(ls, k, i) as int] == rec_of_line(ls[i])->Some_0,
    decreases ls.len(),
{
    let prefix = ls.drop_last();
    assert(ls.last() == ls[ls.len() - 1]);
    if i == ls.len() - 1 {
        lemma_recs_len(prefix, k);
        lemma_kind_count_prefix(ls, k, i);
        let r = rec_of_line(ls[i])->Some_0;
        lemma_push_rec_recs(store_of_lines(prefix), r, k);
    } else {
        assert(prefix[i] == ls[i]);
        lemma_rec_position(prefix, k, i);
        lemma_kind_count_prefix(ls, k, i);
        match rec_of_line(ls.last()) {
            Some(r) => {
                lemma_push_rec_recs(store_of_lines(prefix), r, k);
            },
            None => {},
        }
    }
}

proof fn lemma_kind_count_mono(ls: Seq<Seq<u8>>, k: RecKind, i: int, j: int)
    requires
        0 <= i <= j,
    ensures
        kind_count(ls, k, i) <= kind_count(ls, k, j),
    decreases j - i,
{
    if i < j {
        lemma_kind_count_mono(ls, k, i, j - 1);
    }
}

/// Law (insertion order): among the lines that yield records of one kind,
/// an earlier line's record stands earlier in that kind's sequence — line
/// `i`'s record is at position `kind_count(ls, k, i)`, and these positions
/// grow strictly with the line index.
pub proof fn lemma_insertion_order(ls: Seq<Seq<u8>>, k: RecKind, i: int, j: int)
    requires
        0 <= i < j < ls.len(),
        is_kind(ls[i], k),
        is_kind(ls[j], k),
    ensures
        kind_count(ls, k, i) < kind_count(ls, k, j),
        kind_count(ls, k, j) < recs_of(store_of_lines(ls), k).len(),
        recs_of(store_of_lines(ls), k)[kind_count(ls, k, i) as int] == rec_of_line(ls[i])->Some_0,
        recs_of(store_of_lines(ls), k)[kind_count(ls, k, j) as int] == rec_of_line(ls[j])->Some_0,
{
    lemma_rec_position(ls, k, i);
    lemma_rec_position(ls, k, j);
    assert(kind_count(ls, k, i + 1) == kind_count(ls, k, i) + 1);
    lemma_kind_count_mono(ls, k, i + 1, j);
}

/// Law (insertion order, documents): the same, stated over a whole
/// document's store and the lines it was split into.
pub proof fn lemma_document_insertion_order(t: Seq<u8>, k: RecKind, i: int, j: int)
    requires
        0 <= i < j < split_lines(t).len(),
        is_kind(split_lines(t)[i], k),
        is_kind(split_lines(t)[j], k),
    ensures
        kind_count(split_lines(t), k, i) < kind_count(split_lines(t), k, j),
        kind_count(split_lines(t), k, j) < recs_of(store_of_text(t), k).len(),
        recs_of(store_of_text(t), k)[kind_count(split_lines(t), k, i) as int] == rec_of_line(
            split_lines(t)[i],
        )->Some_0,
        recs_of(store_of_text(t), k)[kind_count(split_lines(t), k, j) as int] == rec_of_line(
            split_lines(t)[j],
        )->Some_0,
{
    lemma_insertion_order(split_lines(t), k, i, j);
}

} // verus!

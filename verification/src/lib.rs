//! An in-memory model of a graph-assembly text format (segments, links and
//! paths with strand orientation), together with a boundary layer that
//! exposes the parsed records to a host runtime through pointer/length
//! descriptors instead of copies.
//!
//! Line decoding is delegated to the `gfa` parser crate behind a small
//! trusted boundary; everything that normalizes, stores and exposes the
//! records is verified.

mod decode;
mod laws;
mod records;
mod store;
mod views;

pub use laws::RecKind;
pub use laws::is_kind;
pub use laws::kind_count;
pub use laws::kind_of;
pub use laws::lemma_document_record_bound;
pub use laws::lemma_document_insertion_order;
pub use laws::lemma_insertion_order;
pub use laws::lemma_record_total_bounded;
pub use laws::record_total;
pub use laws::recs_of;

pub use store::StoreView;
pub use store::TransportError;
pub use store::WGFA;
pub use store::empty_store;
pub use store::first_break;
pub use store::ingest_fetched;
pub use store::push_rec;
pub use store::split_into_lines;
pub use store::split_lines;
pub use store::store_of_lines;
pub use store::store_of_string;
pub use store::store_of_text;
pub use views::JSlice;
pub use views::StrPtr;
pub use views::seg_size;
pub use views::string_size;

pub use decode::decode_line;
pub use decode::decoded_line;
pub use decode::digit_byte;
pub use decode::gt_max_at;
pub use decode::has_overflow_digit_run;
pub use decode::leads_with;
pub use decode::line_decoding;
pub use decode::odr_from;
pub use decode::opt_line_view;
pub use decode::parse_line;
pub use decode::rec_of_line;
pub use decode::run_overflows_at;
pub use decode::tame_line_spec;
pub use decode::ten_digits_at;
pub use decode::ws_byte;

pub use records::DecodedLine;
pub use records::JLine;
pub use records::JLink;
pub use records::JPath;
pub use records::JSegment;
pub use records::LineView;
pub use records::LinkView;
pub use records::Orient;
pub use records::PathView;
pub use records::RecView;
pub use records::SegView;
pub use records::bool_orient;
pub use records::denorm_spec;
pub use records::forward_bool;
pub use records::lemma_normalize_round_trip;
pub use records::lemma_orientation_round_trip;
pub use records::norm_spec;
pub use records::normalize;
pub use records::opt_rec_view;
pub use records::orient_bool;
pub use records::spec_bool_orient;

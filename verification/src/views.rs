//! Boundary view descriptors: pointer/length/stride triples that let a host
//! runtime read the store's contiguous storage without any copying.
//!
//! A view is valid only as long as the owning store is alive and no append
//! has happened since it was made: a reallocating append moves the storage
//! and silently invalidates every previously issued view. That pinning
//! requirement is a documented contract with the caller, deliberately not
//! tracked at run time; callers unwilling to accept it should use the safe
//! serialization fallback instead.

use vstd::prelude::*;
use vstd::string::StringSliceAdditionalSpecFns;

use crate::records::JSegment;

verus! {

/// Relies on `<[T]>::as_ptr`: the base address of the slice's buffer.
/// Nothing is assumed of the address value itself.
#[verifier::external_body]
fn slice_addr<T>(slice: &[T]) -> usize {
    slice.as_ptr() as usize
}

/// Relies on `str::as_ptr`: the base address of the string's bytes.
/// Nothing is assumed of the address value itself.
#[verifier::external_body]
fn str_addr(s: &str) -> usize {
    s.as_ptr() as usize
}

/// A read-only descriptor of a contiguous record array: base address,
/// element count and element stride, for an external reader that indexes
/// the array by `start + i * stride`.
#[derive(Clone, Copy, Debug, PartialEq, Eq, Structural)]
pub struct JSlice {
    pub start: usize,
    pub len: usize,
    pub stride: usize,
}

impl JSlice {
    /// A descriptor with the given fields.
    pub fn new(start: usize, len: usize, stride: usize) -> (r: JSlice)
        ensures
            r.start == start,
            r.len == len,
            r.stride == stride,
    {
        JSlice { start, len, stride }
    }

    /// The descriptor of a whole slice: its element count and the exact
    /// in-memory size of one element as the stride.
    pub fn from_slice<T>(slice: &[T]) -> (r: JSlice)
        ensures
            r.len == slice@.len(),
            r.stride == vstd::layout::size_of::<T>(),
    {
        JSlice { start: slice_addr(slice), len: slice.len(), stride: core::mem::size_of::<T>() }
    }
}

/// A read-only descriptor of one string's raw bytes: base address and exact
/// byte length.
#[derive(Clone, Copy, Debug, PartialEq, Eq, Structural)]
pub struct StrPtr {
    pub start: usize,
    pub len: usize,
}

impl StrPtr {
    /// The descriptor of a string's bytes; `len` is its exact byte length.
    pub fn new(s: &str) -> (r: StrPtr)
        ensures
            r.len == s.spec_bytes().len(),
    {
        let bytes: &[u8] = s.as_bytes();
        StrPtr { start: str_addr(s), len: bytes.len() }
    }
}

/// The in-memory size of one segment record: the stride an external reader
/// must use to walk the segment array, matching `JSlice::stride`.
pub fn seg_size() -> (n: usize)
    ensures
        n == vstd::layout::size_of::<JSegment>(),
{
    core::mem::size_of::<JSegment>()
}

/// The in-memory size of one owned string: the stride an external reader
/// must use to walk a record's string fields.
pub fn string_size() -> (n: usize)
    ensures
        n == vstd::layout::size_of::<String>(),
{
    core::mem::size_of::<String>()
}

} // verus!

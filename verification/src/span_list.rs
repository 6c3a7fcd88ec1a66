//! The inline span storage of a line, kept in a `smallvec::SmallVec`.

use vstd::prelude::*;

use smallvec::SmallVec;

use crate::style::Span;

verus! {

/// Spans kept inline for up to six of them (a `SmallVec<[Span; 6]>`).
#[verifier::external_body]
#[derive(Debug, PartialEq, Eq)]
pub struct SpanList {
    inner: SmallVec<[Span; 6]>,
}

/// The spans a list holds, in order.
pub uninterp spec fn span_list_contents(list: SpanList) -> Seq<Span>;

impl SpanList {
    /// Collects the spans of a vector into a list (`SmallVec::from_iter`),
    /// keeping their order.
    #[verifier::external_body]
    pub(crate) fn from_spans(spans: Vec<Span>) -> (r: SpanList)
        ensures
            span_list_contents(r) == spans@,
    {
        SpanList { inner: SmallVec::from_iter(spans) }
    }

    /// The number of spans held (`SmallVec::len`).
    #[verifier::external_body]
    pub(crate) fn len(&self) -> (r: usize)
        ensures
            r == span_list_contents(*self).len(),
    {
        self.inner.len()
    }

    /// The span at a position (`SmallVec` indexing).
    #[verifier::external_body]
    pub(crate) fn get(&self, i: usize) -> (r: &Span)
        requires
            i < span_list_contents(*self).len(),
        ensures
            *r == span_list_contents(*self)[i as int],
    {
        &self.inner[i]
    }

    /// The spans held, moved out into a vector (`SmallVec::into_vec`).
    #[verifier::external_body]
    pub(crate) fn into_vec(self) -> (r: Vec<Span>)
        ensures
            r@ == span_list_contents(self),
    {
        self.inner.into_vec()
    }

    /// Whether the spans have moved to heap storage (`SmallVec::spilled`):
    /// exactly when there are more than six of them.  Every list here is
    /// made by `from_spans` and never changed after: collecting reserves
    /// room for the iterator's exact length up front, which stays in the six
    /// inline places when it fits and otherwise moves to a heap buffer of the
    /// next power of two; `spilled` reports whether that buffer is larger
    /// than the inline six.
    #[verifier::external_body]
    pub(crate) fn spilled(&self) -> (r: bool)
        ensures
            r == (span_list_contents(*self).len() > 6),
    {
        self.inner.spilled()
    }
}

} // verus!

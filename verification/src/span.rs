//! The span record, and batches of spans drawn at random.

use crate::datetime::DateTime;
use crate::random::gen_range_inclusive;
use crate::trace_id::{bytes_before, TraceId};
use core::cmp::Ordering;
use rand::rngs::ThreadRng;
use vstd::prelude::*;
use vstd::std_specs::cmp::PartialEqSpecImpl;

verus! {

/// The smallest number of spans in a batch drawn at random.
pub const MIN_BATCH_LEN: usize = 1;

/// The largest number of spans in a batch drawn at random.
pub const MAX_BATCH_LEN: usize = 10000;

/// What a span is to the contracts: the bytes of its trace identifier and its
/// nanosecond count.
pub type SpanModel = (Seq<u8>, int);

/// A span: the trace it belongs to and the instant it carries.
#[derive(Debug, Clone, Eq, Ord, Hash)]
pub struct Span {
    pub trace_id: TraceId,
    pub span_timestamp: DateTime,
}

impl View for Span {
    type V = SpanModel;

    /// The bytes of the trace identifier and the nanosecond count.
    open spec fn view(&self) -> SpanModel {
        (self.trace_id@, self.span_timestamp@)
    }
}

impl PartialEq for Span {
    /// Two spans are equal where both their fields are.
    fn eq(&self, other: &Self) -> (equal: bool) {
        self.trace_id == other.trace_id && self.span_timestamp.into_timestamp_nanos()
            == other.span_timestamp.into_timestamp_nanos()
    }
}

impl PartialEqSpecImpl for Span {
    open spec fn obeys_eq_spec() -> bool {
        true
    }

    open spec fn eq_spec(&self, other: &Self) -> bool {
        self@ == other@
    }
}

impl PartialOrd for Span {
    /// Spans are ordered by their trace identifiers, and by their instants
    /// where those are equal.
    fn partial_cmp(&self, other: &Self) -> (order: Option<Ordering>) {
        match self.trace_id.partial_cmp(&other.trace_id) {
            Some(Ordering::Equal) => self.span_timestamp.partial_cmp(&other.span_timestamp),
            order => order,
        }
    }
}

impl vstd::std_specs::cmp::PartialOrdSpecImpl for Span {
    open spec fn obeys_partial_cmp_spec() -> bool {
        true
    }

    open spec fn partial_cmp_spec(&self, other: &Self) -> Option<Ordering> {
        if self.trace_id@ != other.trace_id@ {
            if bytes_before(self.trace_id@, other.trace_id@) {
                Some(Ordering::Less)
            } else {
                Some(Ordering::Greater)
            }
        } else if self.span_timestamp@ < other.span_timestamp@ {
            Some(Ordering::Less)
        } else if self.span_timestamp@ == other.span_timestamp@ {
            Some(Ordering::Equal)
        } else {
            Some(Ordering::Greater)
        }
    }
}

/// The spans of a batch, each by its view, in order.
pub open spec fn batch_view(spans: Seq<Span>) -> Seq<SpanModel> {
    spans.map_values(|span: Span| span@)
}

impl Span {
    /// A span with a random trace identifier and an instant drawn from the
    /// epoch onwards: the generator draws no instant before the epoch, though
    /// the type holds them.
    pub fn random(rng: &mut ThreadRng) -> (span: Self)
        ensures
            span.trace_id@.len() == 16,
            0 <= span.span_timestamp@ <= i64::MAX,
    {
        let trace_id = TraceId::random(rng);
        let nanoseconds = gen_range_inclusive(rng, 0, i64::MAX);
        Span { trace_id, span_timestamp: DateTime::from_timestamp_nanos(nanoseconds) }
    }
}

/// A batch of exactly `len` spans, each drawn by [`Span::random`]. Nothing
/// keeps two of them from being equal.
pub fn random_spans_of_len(rng: &mut ThreadRng, len: usize) -> (spans: Vec<Span>)
    ensures
        spans@.len() == len,
        forall|i: int| 0 <= i < len ==> 0 <= (#[trigger] spans@[i]).span_timestamp@,
{
    let mut spans: Vec<Span> = Vec::new();
    let mut drawn: usize = 0;
    while drawn < len
        invariant
            drawn <= len,
            spans@.len() == drawn,
            forall|i: int| 0 <= i < drawn ==> 0 <= (#[trigger] spans@[i]).span_timestamp@,
        decreases len - drawn,
    {
        let span = Span::random(rng);
        spans.push(span);
        drawn = drawn + 1;
    }
    spans
}

/// A batch of spans whose length is drawn from 1 to 10000, both included.
pub fn random_spans(rng: &mut ThreadRng) -> (spans: Vec<Span>)
    ensures
        MIN_BATCH_LEN <= spans@.len() <= MAX_BATCH_LEN,
        forall|i: int| 0 <= i < spans@.len() ==> 0 <= (#[trigger] spans@[i]).span_timestamp@,
{
    let length = gen_range_inclusive(rng, MIN_BATCH_LEN as i64, MAX_BATCH_LEN as i64);
    random_spans_of_len(rng, length as usize)
}

} // verus!

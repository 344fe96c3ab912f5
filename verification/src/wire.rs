//! The binary form of a batch of spans: the wire format of the `postcard`
//! crate for a sequence of pairs, each a trace identifier as sixteen raw bytes
//! and an instant as a signed 64-bit integer.

use crate::datetime::DateTime;
use crate::span::{batch_view, Span, SpanModel};
use crate::trace_id::TraceId;
use vstd::prelude::*;

verus! {

/// The error type of the `postcard` crate. Nothing is known of a value of it.
#[verifier::external_type_specification]
#[verifier::external_body]
pub struct ExPostcardError(postcard::Error);

/// The encoder produced no bytes.
#[derive(Debug, PartialEq, Eq)]
pub struct EncodeFailure {
    /// What the encoder reported.
    pub cause: postcard::Error,
}

/// The decoder found no batch in the bytes.
#[derive(Debug, PartialEq, Eq)]
pub struct DecodeFailure {
    /// What the decoder reported.
    pub cause: postcard::Error,
}

/// A span as the encoder takes it and the decoder gives it: the sixteen bytes
/// of the identifier and the nanosecond count.
pub type Record = ([u8; 16], i64);

/// The pairs that are handed to the encoder and taken from the decoder, each
/// by its view.
pub open spec fn records_view(records: Seq<Record>) -> Seq<SpanModel> {
    records.map_values(|record: Record| (record.0@, record.1 as int))
}

/// A number in little-endian groups of seven bits, each byte but the last with
/// its top bit set.
pub open spec fn varint(n: nat) -> Seq<u8>
    decreases n,
{
    if n < 128 {
        seq![n as u8]
    } else {
        seq![(128 + n % 128) as u8] + varint(n / 128)
    }
}

/// The zigzag fold of a signed number: 0, -1, 1, -2, 2, ... become 0, 1, 2, 3,
/// 4, ...
pub open spec fn zigzag(v: int) -> nat {
    if v >= 0 {
        (2 * v) as nat
    } else {
        (-2 * v - 1) as nat
    }
}

/// The bytes of one span: the sixteen bytes of its identifier, then its
/// nanosecond count, folded and in groups of seven bits.
pub open spec fn span_encoding(span: SpanModel) -> Seq<u8> {
    span.0 + varint(zigzag(span.1))
}

/// The bytes of the spans of a batch, one after the other.
pub open spec fn spans_encoding(batch: Seq<SpanModel>) -> Seq<u8>
    decreases batch.len(),
{
    if batch.len() == 0 {
        seq![]
    } else {
        span_encoding(batch[0]) + spans_encoding(batch.drop_first())
    }
}

/// The bytes of a batch: the number of its spans, then the spans.
pub open spec fn batch_encoding(batch: Seq<SpanModel>) -> Seq<u8> {
    varint(batch.len()) + spans_encoding(batch)
}

/// A batch that spans can hold: every identifier has sixteen bytes and every
/// nanosecond count fits in 64 bits.
pub open spec fn valid_batch(batch: Seq<SpanModel>) -> bool {
    forall|i: int|
        0 <= i < batch.len() ==> (#[trigger] batch[i]).0.len() == 16 && i64::MIN <= batch[i].1
            <= i64::MAX
}

/// `bytes` begin with the bytes of `batch`, which spans can hold: they are
/// its bytes, with or without more bytes behind them.
pub open spec fn begins_with(bytes: Seq<u8>, batch: Seq<SpanModel>) -> bool {
    valid_batch(batch) && batch_encoding(batch).is_prefix_of(bytes)
}

/// `bytes` are the bytes of `batch`, which spans can hold, with the end cut
/// off.
pub open spec fn cut_from(bytes: Seq<u8>, batch: Seq<SpanModel>) -> bool {
    valid_batch(batch) && bytes.is_prefix_of(batch_encoding(batch)) && bytes.len()
        < batch_encoding(batch).len()
}

/// The batch that `bytes` begin with, if there is one.
pub open spec fn batch_decoding(bytes: Seq<u8>) -> Option<Seq<SpanModel>> {
    if exists|batch: Seq<SpanModel>| begins_with(bytes, batch) {
        Some(choose|batch: Seq<SpanModel>| begins_with(bytes, batch))
    } else {
        None
    }
}

/// `bytes` are the bytes of some batch with the end cut off.
pub open spec fn cut_short(bytes: Seq<u8>) -> bool {
    exists|batch: Seq<SpanModel>| cut_from(bytes, batch)
}

/// A number in groups of seven bits ends where its own bytes say: what
/// follows it cannot be taken for a part of it.
pub proof fn lemma_varint_prefix(n: nat, m: nat, after_n: Seq<u8>, after_m: Seq<u8>)
    requires
        varint(n) + after_n == varint(m) + after_m,
    ensures
        n == m,
        after_n == after_m,
    decreases n,
{
    let left = varint(n) + after_n;
    let right = varint(m) + after_m;
    assert(left[0] == right[0]);
    assert(left[0] == varint(n)[0]);
    assert(right[0] == varint(m)[0]);
    if n < 128 {
        assert(m < 128);
        assert(after_n =~= left.skip(1));
        assert(after_m =~= right.skip(1));
    } else {
        assert(m >= 128);
        assert(varint(n / 128) + after_n =~= left.skip(1));
        assert(varint(m / 128) + after_m =~= right.skip(1));
        lemma_varint_prefix(n / 128, m / 128, after_n, after_m);
    }
}

/// One span ends where its own bytes say.
pub proof fn lemma_span_prefix(
    a: SpanModel,
    b: SpanModel,
    after_a: Seq<u8>,
    after_b: Seq<u8>,
)
    requires
        a.0.len() == 16,
        b.0.len() == 16,
        span_encoding(a) + after_a == span_encoding(b) + after_b,
    ensures
        a == b,
        after_a == after_b,
{
    let left = span_encoding(a) + after_a;
    let right = span_encoding(b) + after_b;
    assert(a.0 =~= left.take(16));
    assert(b.0 =~= right.take(16));
    assert(varint(zigzag(a.1)) + after_a =~= left.skip(16));
    assert(varint(zigzag(b.1)) + after_b =~= right.skip(16));
    lemma_varint_prefix(zigzag(a.1), zigzag(b.1), after_a, after_b);
}

/// A batch that spans can hold is still one without its first span.
pub proof fn lemma_valid_without_first(batch: Seq<SpanModel>)
    requires
        valid_batch(batch),
        batch.len() > 0,
    ensures
        valid_batch(batch.drop_first()),
{
    let rest = batch.drop_first();
    assert forall|i: int| 0 <= i < rest.len() implies (#[trigger] rest[i]).0.len() == 16
        && i64::MIN <= rest[i].1 <= i64::MAX by {
        assert(rest[i] == batch[i + 1]);
    }
}

/// The spans of a batch end where their own bytes say: two batches of the
/// same length whose bytes, with whatever follows, are the same, are the same
/// batch, and what follows is the same.
pub proof fn lemma_spans_prefix(
    a: Seq<SpanModel>,
    b: Seq<SpanModel>,
    after_a: Seq<u8>,
    after_b: Seq<u8>,
)
    requires
        valid_batch(a),
        valid_batch(b),
        a.len() == b.len(),
        spans_encoding(a) + after_a == spans_encoding(b) + after_b,
    ensures
        a == b,
        after_a == after_b,
    decreases a.len(),
{
    if a.len() == 0 {
        assert(a =~= b);
        assert(after_a =~= spans_encoding(a) + after_a);
        assert(after_b =~= spans_encoding(b) + after_b);
    } else {
        let rest_a = a.drop_first();
        let rest_b = b.drop_first();
        assert(a[0].0.len() == 16 && b[0].0.len() == 16);
        assert(span_encoding(a[0]) + (spans_encoding(rest_a) + after_a) =~= spans_encoding(a)
            + after_a);
        assert(span_encoding(b[0]) + (spans_encoding(rest_b) + after_b) =~= spans_encoding(b)
            + after_b);
        lemma_span_prefix(
            a[0],
            b[0],
            spans_encoding(rest_a) + after_a,
            spans_encoding(rest_b) + after_b,
        );
        lemma_valid_without_first(a);
        lemma_valid_without_first(b);
        lemma_spans_prefix(rest_a, rest_b, after_a, after_b);
        assert(a =~= seq![a[0]] + rest_a);
        assert(b =~= seq![b[0]] + rest_b);
    }
}

/// A batch ends where its own bytes say: two batches whose bytes, with
/// whatever follows, are the same, are the same batch, and what follows is the
/// same.
pub proof fn lemma_batch_prefix(
    a: Seq<SpanModel>,
    b: Seq<SpanModel>,
    after_a: Seq<u8>,
    after_b: Seq<u8>,
)
    requires
        valid_batch(a),
        valid_batch(b),
        batch_encoding(a) + after_a == batch_encoding(b) + after_b,
    ensures
        a == b,
        after_a == after_b,
{
    assert(varint(a.len()) + (spans_encoding(a) + after_a) =~= batch_encoding(a) + after_a);
    assert(varint(b.len()) + (spans_encoding(b) + after_b) =~= batch_encoding(b) + after_b);
    lemma_varint_prefix(
        a.len(),
        b.len(),
        spans_encoding(a) + after_a,
        spans_encoding(b) + after_b,
    );
    lemma_spans_prefix(a, b, after_a, after_b);
}

/// The bytes of a batch determine the batch: nothing is lost, cut short or
/// put in another order.
pub proof fn lemma_batch_encoding_injective(a: Seq<SpanModel>, b: Seq<SpanModel>)
    requires
        valid_batch(a),
        valid_batch(b),
        batch_encoding(a) == batch_encoding(b),
    ensures
        a == b,
{
    lemma_batch_prefix(a, b, Seq::empty(), Seq::empty());
}

/// Bytes begin with the bytes of one batch at most.
pub proof fn lemma_one_batch_begins(a: Seq<SpanModel>, b: Seq<SpanModel>, bytes: Seq<u8>)
    requires
        begins_with(bytes, a),
        begins_with(bytes, b),
    ensures
        a == b,
{
    let after_a = bytes.skip(batch_encoding(a).len() as int);
    let after_b = bytes.skip(batch_encoding(b).len() as int);
    assert(batch_encoding(a) + after_a =~= bytes);
    assert(batch_encoding(b) + after_b =~= bytes);
    lemma_batch_prefix(a, b, after_a, after_b);
}

/// Decoding the bytes of a batch gives the batch back, whatever its length,
/// the empty batch included, and whatever follows the bytes.
pub proof fn lemma_batch_round_trip(batch: Seq<SpanModel>, after: Seq<u8>)
    requires
        valid_batch(batch),
    ensures
        batch_decoding(batch_encoding(batch)) == Some(batch),
        batch_decoding(batch_encoding(batch) + after) == Some(batch),
{
    let bytes = batch_encoding(batch);
    assert(begins_with(bytes, batch));
    assert(begins_with(bytes + after, batch));
    lemma_one_batch_begins(batch_decoding(bytes).unwrap(), batch, bytes);
    lemma_one_batch_begins(batch_decoding(bytes + after).unwrap(), batch, bytes + after);
}

/// Bytes of a batch with the end cut off begin with the bytes of no batch.
pub proof fn lemma_cut_short_decodes_to_nothing(bytes: Seq<u8>)
    requires
        cut_short(bytes),
    ensures
        batch_decoding(bytes) is None,
{
    let whole = choose|batch: Seq<SpanModel>| cut_from(bytes, batch);
    assert forall|batch: Seq<SpanModel>| !begins_with(bytes, batch) by {
        if begins_with(bytes, batch) {
            assert(begins_with(batch_encoding(whole), batch));
            assert(begins_with(batch_encoding(whole), whole));
            lemma_one_batch_begins(batch, whole, batch_encoding(whole));
        }
    }
}

/// `postcard::to_allocvec`, on a vector of pairs of a sixteen-byte array and
/// an `i64`. Trusted: it succeeds, and the bytes it returns are the wire
/// format of the crate for that value, which [`batch_encoding`] writes out:
/// the length as a varint, then for each pair the sixteen bytes as they are
/// and the integer, zigzag folded, as a varint. It writes into a vector that
/// grows, which refuses nothing, and the length of the vector it is given is
/// known, so no step of it has an error to report.
#[verifier::external_body]
pub(crate) fn to_allocvec(records: &Vec<Record>) -> (result: Result<
    Vec<u8>,
    postcard::Error,
>)
    ensures
        result is Ok,
        result matches Ok(bytes) ==> bytes@ == batch_encoding(records_view(records@)),
{
    postcard::to_allocvec(records)
}

/// `postcard::from_bytes`, for a vector of pairs of a sixteen-byte array and an
/// `i64`. Trusted: where the input begins with the wire format of such a
/// vector, that vector is returned, and what follows is left unread; where
/// the input is such a wire format with the end cut off, it is refused. Of any
/// other input nothing is claimed: the decoder takes some numbers written in
/// more bytes than they need, and how many it takes depends on the width of
/// `usize`.
#[verifier::external_body]
pub(crate) fn from_bytes(bytes: &[u8]) -> (result: Result<Vec<Record>, postcard::Error>)
    ensures
        match result {
            Ok(records) => forall|batch: Seq<SpanModel>|
                begins_with(bytes@, batch) ==> records_view(records@) == batch,
            Err(_) => forall|batch: Seq<SpanModel>| !begins_with(bytes@, batch),
        },
        cut_short(bytes@) ==> result is Err,
{
    postcard::from_bytes(bytes)
}

/// The pairs that stand for `spans`, in order.
pub fn records_of(spans: &Vec<Span>) -> (records: Vec<Record>)
    ensures
        records_view(records@) == batch_view(spans@),
{
    let mut records: Vec<Record> = Vec::new();
    let mut at: usize = 0;
    while at < spans.len()
        invariant
            at <= spans@.len(),
            records@.len() == at,
            forall|i: int|
                0 <= i < at ==> (#[trigger] records@[i]).0@ == spans@[i].trace_id@ && records@[i].1
                    == spans@[i].span_timestamp@,
        decreases spans@.len() - at,
    {
        let span = &spans[at];
        records.push((span.trace_id.to_array(), span.span_timestamp.into_timestamp_nanos()));
        at = at + 1;
    }
    assert(records_view(records@) =~= batch_view(spans@));
    records
}

/// The spans that `records` stand for, in order.
pub fn spans_of(records: &Vec<Record>) -> (spans: Vec<Span>)
    ensures
        batch_view(spans@) == records_view(records@),
{
    let mut spans: Vec<Span> = Vec::new();
    let mut at: usize = 0;
    while at < records.len()
        invariant
            at <= records@.len(),
            spans@.len() == at,
            forall|i: int|
                0 <= i < at ==> (#[trigger] spans@[i]).trace_id@ == records@[i].0@
                    && spans@[i].span_timestamp@ == records@[i].1,
        decreases records@.len() - at,
    {
        let record = &records[at];
        spans.push(
            Span {
                trace_id: TraceId::new(record.0),
                span_timestamp: DateTime::from_timestamp_nanos(record.1),
            },
        );
        at = at + 1;
    }
    assert(batch_view(spans@) =~= records_view(records@));
    spans
}

/// Every batch of spans is one that the wire format can carry.
pub proof fn lemma_spans_are_valid(spans: Seq<Span>)
    ensures
        valid_batch(batch_view(spans)),
{
    assert forall|i: int| 0 <= i < batch_view(spans).len() implies (#[trigger] batch_view(
        spans,
    )[i]).0.len() == 16 && i64::MIN <= batch_view(spans)[i].1 <= i64::MAX by {
        spans[i].trace_id.lemma_len();
        spans[i].span_timestamp.lemma_range();
    }
}

/// What encoding comes to, given what the encoder returned: its bytes as they
/// are, or a failure that carries its error.
pub fn encoded_or_failure(returned: Result<Vec<u8>, postcard::Error>) -> (result: Result<
    Vec<u8>,
    EncodeFailure,
>)
    ensures
        match returned {
            Ok(bytes) => result matches Ok(kept) && kept == bytes,
            Err(cause) => result matches Err(failure) && failure.cause == cause,
        },
{
    match returned {
        Ok(bytes) => Ok(bytes),
        Err(cause) => Err(EncodeFailure { cause }),
    }
}

/// What decoding comes to, given what the decoder returned: the spans that its
/// pairs stand for, in order, or a failure that carries its error.
pub fn decoded_or_failure(returned: Result<Vec<Record>, postcard::Error>) -> (result: Result<
    Vec<Span>,
    DecodeFailure,
>)
    ensures
        match returned {
            Ok(records) => result matches Ok(spans) && batch_view(spans@) == records_view(
                records@,
            ),
            Err(cause) => result matches Err(failure) && failure.cause == cause,
        },
{
    match returned {
        Ok(records) => Ok(spans_of(&records)),
        Err(cause) => Err(DecodeFailure { cause }),
    }
}

/// The binary form of `spans`. A batch of any length is taken, the empty one
/// too. The encoder is handed the pairs that stand for the spans; it always
/// gives bytes, and they are the wire format of the batch.
pub fn encode_batch(spans: &Vec<Span>) -> (result: Result<Vec<u8>, EncodeFailure>)
    ensures
        result matches Ok(bytes) && bytes@ == batch_encoding(batch_view(spans@)),
{
    let records = records_of(spans);
    encoded_or_failure(to_allocvec(&records))
}

/// Reads a batch back from its binary form. Bytes that begin with the wire
/// format of a batch always give that batch, element for element and in
/// order; bytes that are such a wire format with the end cut off are always
/// refused.
pub fn decode_batch(bytes: &[u8]) -> (result: Result<Vec<Span>, DecodeFailure>)
    ensures
        batch_decoding(bytes@) matches Some(batch) ==> (result matches Ok(spans) && batch_view(
            spans@,
        ) == batch),
        cut_short(bytes@) ==> result is Err,
{
    decoded_or_failure(from_bytes(bytes))
}

} // verus!

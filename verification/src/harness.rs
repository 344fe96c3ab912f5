//! The round-trip check: a batch is encoded, decoded and held against what it
//! was, and the first failure halts the run for good.

use crate::span::{batch_view, random_spans, Span, SpanModel};
use crate::wire::{
    batch_decoding, batch_encoding, cut_short, decode_batch, encode_batch, lemma_batch_round_trip,
    lemma_spans_are_valid, DecodeFailure, EncodeFailure,
};
use rand::rngs::ThreadRng;
use vstd::prelude::*;

verus! {

/// Why a run halted.
#[derive(Debug, PartialEq, Eq)]
pub enum HaltReason {
    /// The encoder produced no bytes for the batch.
    EncodeFailure { cause: postcard::Error },
    /// The decoder found no batch in the bytes of the encoder.
    DecodeFailure { cause: postcard::Error },
    /// The decoded batch is well formed and is not the batch that was
    /// encoded: `index` is the first place where the two part.
    MismatchFailure { index: usize },
}

/// The state of a run. A halted run stays halted.
#[derive(Debug, PartialEq, Eq)]
pub enum HarnessState {
    Running,
    Halted(HaltReason),
}

/// `index` is the first place where `expected` and `decoded` part: they agree
/// before it, and there one of them ends while the other goes on, or they hold
/// different spans.
pub open spec fn parts_at(expected: Seq<SpanModel>, decoded: Seq<SpanModel>, index: int) -> bool {
    &&& 0 <= index <= expected.len()
    &&& index <= decoded.len()
    &&& forall|i: int| 0 <= i < index ==> expected[i] == decoded[i]
    &&& if index < expected.len() && index < decoded.len() {
        expected[index] != decoded[index]
    } else {
        expected.len() != decoded.len()
    }
}

/// The state that follows `state` when an iteration ends in `outcome`.
pub open spec fn next_state(state: HarnessState, outcome: Result<(), HaltReason>) -> HarnessState {
    match state {
        HarnessState::Halted(reason) => HarnessState::Halted(reason),
        HarnessState::Running => match outcome {
            Ok(_) => HarnessState::Running,
            Err(reason) => HarnessState::Halted(reason),
        },
    }
}

/// Holds a decoded batch against the one that was encoded, element for
/// element and in order. They pass where they are the same sequence;
/// otherwise the failure names the first place where they part.
pub fn compare_batches(expected: &Vec<Span>, decoded: &Vec<Span>) -> (outcome: Result<
    (),
    HaltReason,
>)
    ensures
        match outcome {
            Ok(_) => batch_view(expected@) == batch_view(decoded@),
            Err(reason) => reason matches HaltReason::MismatchFailure { index } && parts_at(
                batch_view(expected@),
                batch_view(decoded@),
                index as int,
            ),
        },
{
    let mut at: usize = 0;
    while at < expected.len() && at < decoded.len()
        invariant
            at <= expected@.len(),
            at <= decoded@.len(),
            forall|i: int| 0 <= i < at ==> expected@[i]@ == decoded@[i]@,
        decreases expected@.len() - at,
    {
        if expected[at] != decoded[at] {
            return Err(HaltReason::MismatchFailure { index: at });
        }
        at = at + 1;
    }
    if expected.len() != decoded.len() {
        return Err(HaltReason::MismatchFailure { index: at });
    }
    assert(batch_view(expected@) =~= batch_view(decoded@));
    Ok(())
}

/// What an iteration comes to once the decoder has answered: its failure halts
/// the run, and a batch that it gives is held against the one that was
/// encoded.
pub fn judge_decoded(
    expected: &Vec<Span>,
    decoded: Result<Vec<Span>, DecodeFailure>,
) -> (outcome: Result<(), HaltReason>)
    ensures
        match decoded {
            Err(failure) => outcome matches Err(HaltReason::DecodeFailure { cause }) && cause
                == failure.cause,
            Ok(batch) => match outcome {
                Ok(_) => batch_view(expected@) == batch_view(batch@),
                Err(reason) => reason matches HaltReason::MismatchFailure { index } && parts_at(
                    batch_view(expected@),
                    batch_view(batch@),
                    index as int,
                ),
            },
        },
{
    match decoded {
        Ok(batch) => compare_batches(expected, &batch),
        Err(failure) => Err(HaltReason::DecodeFailure { cause: failure.cause }),
    }
}

/// What an iteration comes to once the encoder has answered. Its failure halts
/// the run. Bytes that it gives are decoded and judged. Where they are the
/// wire format of the batch, the iteration passes. Where they begin with the
/// wire format of any batch, that batch is held against the one that was to
/// be encoded. Where they are a wire format with the end cut off, the
/// iteration ends in a failure of the decoder. Whatever they are, it does not
/// end in a failure of the encoder.
pub fn judge_encoded(
    expected: &Vec<Span>,
    encoded: Result<Vec<u8>, EncodeFailure>,
) -> (outcome: Result<(), HaltReason>)
    ensures
        match encoded {
            Err(failure) => outcome matches Err(HaltReason::EncodeFailure { cause }) && cause
                == failure.cause,
            Ok(bytes) => {
                &&& bytes@ == batch_encoding(batch_view(expected@)) ==> outcome is Ok
                &&& outcome matches Err(reason) ==> !(reason is EncodeFailure)
                &&& batch_decoding(bytes@) matches Some(batch) ==> match outcome {
                    Ok(_) => batch == batch_view(expected@),
                    Err(reason) => reason matches HaltReason::MismatchFailure { index }
                        && parts_at(batch_view(expected@), batch, index as int),
                }
                &&& cut_short(bytes@) ==> (outcome matches Err(reason) && reason is DecodeFailure)
            },
        },
{
    match encoded {
        Ok(bytes) => {
            proof {
                lemma_spans_are_valid(expected@);
                lemma_batch_round_trip(batch_view(expected@), Seq::empty());
            }
            judge_decoded(expected, decode_batch(bytes.as_slice()))
        },
        Err(failure) => Err(HaltReason::EncodeFailure { cause: failure.cause }),
    }
}

/// One iteration on a given batch: encode it, decode the bytes, compare. The
/// batch may have any length, none included. Every batch passes: the encoder
/// gives its bytes, and the batch comes back from them as it was.
pub fn check_round_trip(batch: &Vec<Span>) -> (outcome: Result<(), HaltReason>)
    ensures
        outcome is Ok,
{
    judge_encoded(batch, encode_batch(batch))
}

impl HarnessState {
    /// The state after an iteration that ended in `outcome`. A running
    /// harness goes on after a pass and halts on a failure, with its reason; a
    /// halted one never leaves its state.
    pub fn step(self, outcome: Result<(), HaltReason>) -> (next: Self)
        ensures
            next == next_state(self, outcome),
    {
        match self {
            HarnessState::Halted(reason) => HarnessState::Halted(reason),
            HarnessState::Running => match outcome {
                Ok(_) => HarnessState::Running,
                Err(reason) => HarnessState::Halted(reason),
            },
        }
    }

    /// Whether the run has halted.
    pub fn is_halted(&self) -> (halted: bool)
        ensures
            halted == (*self is Halted),
    {
        match self {
            HarnessState::Halted(_) => true,
            HarnessState::Running => false,
        }
    }
}

/// Runs up to `iterations` iterations, each on a fresh batch drawn from `rng`,
/// and stops at the first failure. Every batch passes, so the harness is
/// still running at the end.
pub fn run(rng: &mut ThreadRng, iterations: u64) -> (state: HarnessState)
    ensures
        state is Running,
{
    let mut state = HarnessState::Running;
    let mut done: u64 = 0;
    while done < iterations && !state.is_halted()
        invariant
            done <= iterations,
            state is Running,
        decreases iterations - done,
    {
        let batch = random_spans(rng);
        let outcome = check_round_trip(&batch);
        state = state.step(outcome);
        done = done + 1;
    }
    state
}

} // verus!

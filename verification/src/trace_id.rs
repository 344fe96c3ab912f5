//! The 128-bit identifier of a trace, and its base64 text form.

use crate::base64_text::{
    codes, decode_standard, encode_standard, encoding, is_symbol, lemma_encoding_of_sixteen,
    lemma_symbols_of_sixteen, lemma_text_injective, lemma_text_is_ascii, refusal, text,
    DecodeReason, PAD,
};
use crate::random::fill_bytes;
use rand::rngs::ThreadRng;
use core::cmp::Ordering;
use vstd::prelude::*;
use vstd::slice::slice_to_vec;
use vstd::std_specs::cmp::{PartialEqSpecImpl, PartialOrdSpecImpl};
use vstd::string::*;
use vstd::utf8::is_ascii_chars;

verus! {

/// An opaque identifier of sixteen bytes.
#[derive(Clone, Copy, Debug, Eq, Ord, Hash)]
pub struct TraceId([u8; 16]);

impl View for TraceId {
    type V = Seq<u8>;

    /// The sixteen bytes, in order.
    closed spec fn view(&self) -> Seq<u8> {
        self.0@
    }
}

impl PartialEq for TraceId {
    /// Two identifiers are equal where their sixteen bytes are.
    fn eq(&self, other: &Self) -> (equal: bool) {
        let mut at: usize = 0;
        while at < 16
            invariant
                at <= 16,
                forall|i: int| 0 <= i < at ==> self.0@[i] == other.0@[i],
            decreases 16 - at,
        {
            if self.0[at] != other.0[at] {
                return false;
            }
            at = at + 1;
        }
        assert(self.0@ =~= other.0@);
        true
    }
}

impl PartialEqSpecImpl for TraceId {
    open spec fn obeys_eq_spec() -> bool {
        true
    }

    open spec fn eq_spec(&self, other: &Self) -> bool {
        self@ == other@
    }
}

/// `index` is the first place where `left` and `right` hold different bytes.
pub open spec fn first_difference(left: Seq<u8>, right: Seq<u8>, index: int) -> bool {
    &&& 0 <= index < left.len()
    &&& index < right.len()
    &&& left[index] != right[index]
    &&& forall|i: int| 0 <= i < index ==> left[i] == right[i]
}

/// `left` comes before `right` byte by byte: at the first place where they
/// differ, `left` holds the smaller byte.
pub open spec fn bytes_before(left: Seq<u8>, right: Seq<u8>) -> bool {
    exists|index: int| #[trigger] first_difference(left, right, index) && left[index] < right[index]
}

impl PartialOrd for TraceId {
    /// Identifiers are ordered byte by byte, the first byte counting most.
    fn partial_cmp(&self, other: &Self) -> (order: Option<Ordering>) {
        let mut at: usize = 0;
        let ghost mut place: int = 0;
        while at < 16
            invariant
                at <= 16,
                place == at,
                forall|i: int| 0 <= i < place ==> self.0@[i] == other.0@[i],
            decreases 16 - at,
        {
            if self.0[at] < other.0[at] {
                assert(first_difference(self@, other@, place));
                return Some(Ordering::Less);
            }
            if self.0[at] > other.0[at] {
                assert(first_difference(self@, other@, place));
                assert(!bytes_before(self@, other@)) by {
                    assert forall|index: int| #[trigger]
                        first_difference(self@, other@, index) implies !(self@[index]
                        < other@[index]) by {
                        assert(index == place);
                    }
                }
                return Some(Ordering::Greater);
            }
            at = at + 1;
            proof {
                place = place + 1;
            }
        }
        assert(self.0@ =~= other.0@);
        Some(Ordering::Equal)
    }
}

impl PartialOrdSpecImpl for TraceId {
    open spec fn obeys_partial_cmp_spec() -> bool {
        true
    }

    open spec fn partial_cmp_spec(&self, other: &Self) -> Option<Ordering> {
        if self@ == other@ {
            Some(Ordering::Equal)
        } else if bytes_before(self@, other@) {
            Some(Ordering::Less)
        } else {
            Some(Ordering::Greater)
        }
    }
}

/// Why a text is not the text form of an identifier.
#[derive(Clone, Copy, Debug, PartialEq, Eq, Structural)]
pub enum TraceIdError {
    /// The text does not have the length of a text form.
    LengthMismatch { expected: usize, actual: usize },
    /// The text has the right length and is not the base64 of sixteen bytes.
    DecodeError { reason: DecodeReason },
}

/// The sixteen bytes whose text form is `encoded`, if there are any.
pub open spec fn decoding(encoded: Seq<char>) -> Option<Seq<u8>> {
    if exists|bytes: Seq<u8>| bytes.len() == 16 && #[trigger] text(bytes) == encoded {
        Some(choose|bytes: Seq<u8>| bytes.len() == 16 && #[trigger] text(bytes) == encoded)
    } else {
        None
    }
}

/// The text form of sixteen bytes has exactly 24 characters.
pub proof fn lemma_text_length(bytes: Seq<u8>)
    requires
        bytes.len() == 16,
    ensures
        text(bytes).len() == 24,
{
    lemma_text_is_ascii(bytes);
    lemma_encoding_of_sixteen(bytes);
}

impl TraceId {
    /// The number of characters of the text form.
    pub const BASE64_LENGTH: usize = 24;

    /// The identifier made of `bytes`.
    pub fn new(bytes: [u8; 16]) -> (id: Self)
        ensures
            id@ == bytes@,
    {
        Self(bytes)
    }

    /// The sixteen bytes, as the array that holds them.
    pub(crate) fn to_array(&self) -> (bytes: [u8; 16])
        ensures
            bytes@ == self@,
    {
        self.0
    }

    /// The sixteen bytes.
    pub fn as_bytes(&self) -> (bytes: &[u8])
        ensures
            bytes@ == self@,
    {
        self.0.as_slice()
    }

    /// A copy of the sixteen bytes.
    pub fn to_vec(&self) -> (bytes: Vec<u8>)
        ensures
            bytes@ == self@,
    {
        slice_to_vec(self.0.as_slice())
    }

    /// An identifier whose sixteen bytes are all drawn from `rng`.
    pub fn random(rng: &mut ThreadRng) -> (id: Self)
        ensures
            id@.len() == 16,
    {
        let mut id = [0u8; 16];
        fill_bytes(rng, &mut id);
        Self::new(id)
    }

    /// Every identifier has sixteen bytes.
    pub proof fn lemma_len(self)
        ensures
            self@.len() == 16,
    {
    }

    /// The text form: standard base64 with padding, made when it is asked for.
    /// It always has 24 characters.
    pub fn encode_text(&self) -> (encoded: String)
        ensures
            encoded@ == text(self@),
            encoded@.len() == 24,
    {
        proof {
            lemma_text_length(self@);
        }
        encode_standard(&self.0)
    }

    /// Reads a text form back. The text must have exactly 24 characters and be
    /// the standard base64, with its padding, of sixteen bytes; anything else
    /// is refused, with the reason. A text of another length is never cut or
    /// filled up: it is a length mismatch, with the number of characters it
    /// has. A text of 24 characters that is no text form is refused for a
    /// character outside ASCII, else for the missing padding, else for the
    /// first character that is no symbol of the alphabet, else for the last
    /// symbol, which then carries stray bits. The bytes go into a destination
    /// of exactly sixteen, so a text of 24 characters that stands for more is
    /// turned away before the decoder sees it.
    pub fn decode_text(encoded: &str) -> (result: Result<Self, TraceIdError>)
        ensures
            encoded@.len() != 24 ==> result == Err::<Self, TraceIdError>(
                TraceIdError::LengthMismatch { expected: 24, actual: encoded@.len() as usize },
            ),
            encoded@.len() == 24 ==> match decoding(encoded@) {
                Some(bytes) => result matches Ok(id) && id@ == bytes,
                None => {
                    &&& result matches Err(TraceIdError::DecodeError { reason })
                    &&& if !is_ascii_chars(encoded@) {
                        reason == DecodeReason::NotAscii
                    } else if !(encoded@[22] == '=' && encoded@[23] == '=') {
                        reason == DecodeReason::MissingPadding
                    } else {
                        refusal(codes(encoded@), reason)
                    }
                },
            },
    {
        let length = encoded.unicode_len();
        if length != Self::BASE64_LENGTH {
            return Err(
                TraceIdError::LengthMismatch { expected: Self::BASE64_LENGTH, actual: length },
            );
        }
        proof {
            assert forall|bytes: Seq<u8>| bytes.len() == 16 && #[trigger] text(bytes)
                == encoded@ implies is_ascii(encoded) && encoded.spec_bytes()[22] == PAD
                && encoded.spec_bytes()[23] == PAD && encoded.spec_bytes() == encoding(bytes) by {
                lemma_text_is_ascii(bytes);
                lemma_encoding_of_sixteen(bytes);
                is_ascii_spec_bytes(encoded);
                assert(encoded.spec_bytes() =~= encoding(bytes));
            }
        }
        if !encoded.is_ascii() {
            return Err(TraceIdError::DecodeError { reason: DecodeReason::NotAscii });
        }
        let input = encoded.as_bytes();
        proof {
            is_ascii_spec_bytes(encoded);
            assert(input@ =~= codes(encoded@));
        }
        if input[22] != PAD || input[23] != PAD {
            return Err(TraceIdError::DecodeError { reason: DecodeReason::MissingPadding });
        }
        let mut bytes = [0u8; 16];
        match decode_standard(input, &mut bytes) {
            Ok(_) => {
                proof {
                    lemma_text_is_ascii(bytes@);
                    assert(text(bytes@) =~= encoded@);
                    let chosen = decoding(encoded@).unwrap();
                    lemma_text_injective(chosen, bytes@);
                }
                Ok(Self(bytes))
            },
            Err(reason) => Err(TraceIdError::DecodeError { reason }),
        }
    }

    /// The text form, for display.
    pub fn base64_display(&self) -> (encoded: String)
        ensures
            encoded@ == text(self@),
            encoded@.len() == 24,
    {
        self.encode_text()
    }
}

/// A text is the text form of nothing where it holds a character outside
/// ASCII, or does not end in two pad characters, or holds among its first 22
/// characters one that is no symbol of the alphabet.
pub proof fn lemma_not_a_text_form(encoded: Seq<char>)
    requires
        encoded.len() == 24,
        !is_ascii_chars(encoded) || encoded[22] != '=' || encoded[23] != '=' || exists|i: int|
            0 <= i < 22 && !is_symbol(#[trigger] codes(encoded)[i]),
    ensures
        decoding(encoded) is None,
{
    assert forall|bytes: Seq<u8>| bytes.len() == 16 implies #[trigger] text(bytes) != encoded by {
        lemma_text_is_ascii(bytes);
        lemma_encoding_of_sixteen(bytes);
        lemma_symbols_of_sixteen(bytes);
        if text(bytes) == encoded {
            assert(encoded[22] as u8 == encoding(bytes)[22]);
            assert(encoded[23] as u8 == encoding(bytes)[23]);
            assert forall|i: int| 0 <= i < 22 implies is_symbol(
                #[trigger] codes(encoded)[i],
            ) by {
                assert(encoded[i] as u8 == encoding(bytes)[i]);
            }
        }
    }
}

/// Decoding the text form of sixteen bytes gives those bytes back.
pub proof fn lemma_text_round_trip(bytes: Seq<u8>)
    requires
        bytes.len() == 16,
    ensures
        decoding(text(bytes)) == Some(bytes),
{
    let chosen = decoding(text(bytes)).unwrap();
    lemma_text_injective(chosen, bytes);
}

} // verus!

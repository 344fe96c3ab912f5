//! Standard base64 with padding, as a mathematical function on bytes, and the
//! calls into the `base64` crate that compute it.

use base64::prelude::BASE64_STANDARD;
use base64::{DecodeError, Engine};
use vstd::prelude::*;

verus! {

/// Why the base64 decoder refused a text.
#[derive(Clone, Copy, Debug, PartialEq, Eq, Structural)]
pub enum DecodeReason {
    /// The text holds a character outside ASCII, which no alphabet has.
    NotAscii,
    /// The text does not end in the two pad characters that sixteen bytes
    /// leave behind.
    MissingPadding,
    /// A byte that is no symbol of the alphabet, or a pad character in the
    /// wrong place, with its offset in the text.
    InvalidByte { offset: usize, byte: u8 },
    /// The number of symbols cannot stand for whole bytes.
    InvalidLength,
    /// The last symbol carries bits that no byte would take up, with its
    /// offset in the text.
    InvalidLastSymbol { offset: usize, byte: u8 },
    /// The padding is not the canonical one.
    InvalidPadding,
}

/// The pad character that closes a group of fewer than three bytes.
pub const PAD: u8 = 0x3d;

/// The character of the standard alphabet that stands for the six-bit value
/// `v`: `A`-`Z`, `a`-`z`, `0`-`9`, `+`, `/`.
pub open spec fn symbol(v: int) -> u8 {
    if v < 26 {
        (0x41 + v) as u8
    } else if v < 52 {
        (0x61 + (v - 26)) as u8
    } else if v < 62 {
        (0x30 + (v - 52)) as u8
    } else if v == 62 {
        0x2b
    } else {
        0x2f
    }
}

/// The standard base64 encoding of `bytes`, as ASCII codes: every three bytes
/// give four symbols, and a last group of one or two bytes is closed with pad
/// characters.
pub open spec fn encoding(bytes: Seq<u8>) -> Seq<u8>
    decreases bytes.len(),
{
    if bytes.len() == 0 {
        seq![]
    } else if bytes.len() == 1 {
        let a = bytes[0] as int;
        seq![symbol(a / 4), symbol((a % 4) * 16), PAD, PAD]
    } else if bytes.len() == 2 {
        let a = bytes[0] as int;
        let b = bytes[1] as int;
        seq![symbol(a / 4), symbol((a % 4) * 16 + b / 16), symbol((b % 16) * 4), PAD]
    } else {
        let a = bytes[0] as int;
        let b = bytes[1] as int;
        let c = bytes[2] as int;
        seq![
            symbol(a / 4),
            symbol((a % 4) * 16 + b / 16),
            symbol((b % 16) * 4 + c / 64),
            symbol(c % 64),
        ] + encoding(bytes.skip(3))
    }
}

/// Whether `code` is the code of a symbol of the standard alphabet.
pub open spec fn is_symbol(code: u8) -> bool {
    ||| 0x41 <= code <= 0x5a
    ||| 0x61 <= code <= 0x7a
    ||| 0x30 <= code <= 0x39
    ||| code == 0x2b
    ||| code == 0x2f
}

/// The ASCII codes of a text, character by character.
pub open spec fn codes(encoded: Seq<char>) -> Seq<u8> {
    encoded.map_values(|c: char| c as u8)
}

/// `reason` is what the decoder says of `input`, 24 codes that end in two pad
/// characters and are the encoding of no sixteen bytes. Where one of the
/// first 22 is no symbol, the first such is named, with its place. Where all
/// of them are symbols, the last one carries bits that no byte takes up, and
/// it is named.
pub open spec fn refusal(input: Seq<u8>, reason: DecodeReason) -> bool {
    match reason {
        DecodeReason::InvalidByte { offset, byte } => {
            &&& offset < 22
            &&& byte == input[offset as int]
            &&& !is_symbol(byte)
            &&& forall|i: int| 0 <= i < offset ==> is_symbol(#[trigger] input[i])
        },
        DecodeReason::InvalidLastSymbol { offset, byte } => {
            &&& offset == 21
            &&& byte == input[21]
            &&& forall|i: int| 0 <= i < 22 ==> is_symbol(#[trigger] input[i])
        },
        _ => false,
    }
}

/// The encoding as text.
pub open spec fn text(bytes: Seq<u8>) -> Seq<char> {
    encoding(bytes).map_values(|b: u8| b as char)
}

/// The encoding of `n` bytes has `4 * ceil(n / 3)` symbols.
pub proof fn lemma_encoding_len(bytes: Seq<u8>)
    ensures
        encoding(bytes).len() == 4 * ((bytes.len() + 2) / 3),
    decreases bytes.len(),
{
    if bytes.len() >= 3 {
        lemma_encoding_len(bytes.skip(3));
    }
}

/// Distinct six-bit values have distinct symbols, and none of them is the pad
/// character.
pub proof fn lemma_symbol_injective(v: int, w: int)
    requires
        0 <= v < 64,
        0 <= w < 64,
    ensures
        symbol(v) != PAD,
        symbol(v) < 128,
        symbol(v) == symbol(w) ==> v == w,
{
}

/// Two byte strings with the same encoding are the same string.
pub proof fn lemma_encoding_injective(x: Seq<u8>, y: Seq<u8>)
    requires
        encoding(x) == encoding(y),
    ensures
        x == y,
    decreases x.len(),
{
    lemma_encoding_len(x);
    lemma_encoding_len(y);
    let ex = encoding(x);
    let ey = encoding(y);
    if x.len() == 0 || y.len() == 0 {
        assert(x =~= y);
    } else {
        let a = x[0] as int;
        let p = y[0] as int;
        let b = if x.len() > 1 { x[1] as int } else { 0 };
        let q = if y.len() > 1 { y[1] as int } else { 0 };
        let c = if x.len() > 2 { x[2] as int } else { 0 };
        let r = if y.len() > 2 { y[2] as int } else { 0 };
        lemma_symbol_injective(a / 4, p / 4);
        lemma_symbol_injective((a % 4) * 16 + b / 16, (p % 4) * 16 + q / 16);
        lemma_symbol_injective((b % 16) * 4 + c / 64, (q % 16) * 4 + r / 64);
        lemma_symbol_injective(c % 64, r % 64);
        lemma_encoding_len(x.skip(3));
        lemma_encoding_len(y.skip(3));
        assert(ex[0] == ey[0]);
        assert(ex[1] == ey[1]);
        assert(ex[2] == ey[2]);
        assert(ex[3] == ey[3]);
        if x.len() >= 3 && y.len() >= 3 {
            assert(encoding(x.skip(3)) =~= ex.skip(4));
            assert(encoding(y.skip(3)) =~= ey.skip(4));
            lemma_encoding_injective(x.skip(3), y.skip(3));
            assert(x[0] == y[0] && x[1] == y[1] && x[2] == y[2]);
            assert forall|i: int| 0 <= i < x.len() implies x[i] == y[i] by {
                if i >= 3 {
                    assert(x.skip(3)[i - 3] == y.skip(3)[i - 3]);
                }
            }
            assert(x.len() == y.len()) by {
                assert(x.skip(3).len() == y.skip(3).len());
            }
            assert(x =~= y);
        } else {
            assert(x.len() == y.len());
            assert(x =~= y);
        }
    }
}

/// Every element of an encoding is an ASCII code.
pub proof fn lemma_encoding_ascii(bytes: Seq<u8>)
    ensures
        forall|i: int| 0 <= i < encoding(bytes).len() ==> #[trigger] encoding(bytes)[i] < 128,
    decreases bytes.len(),
{
    if bytes.len() > 0 {
        let a = bytes[0] as int;
        let b = if bytes.len() > 1 { bytes[1] as int } else { 0 };
        let c = if bytes.len() > 2 { bytes[2] as int } else { 0 };
        lemma_symbol_injective(a / 4, 0);
        lemma_symbol_injective((a % 4) * 16 + b / 16, 0);
        lemma_symbol_injective((b % 16) * 4 + c / 64, 0);
        lemma_symbol_injective(c % 64, 0);
        if bytes.len() >= 3 {
            lemma_encoding_ascii(bytes.skip(3));
            let rest = encoding(bytes.skip(3));
            assert forall|i: int| 0 <= i < encoding(bytes).len() implies #[trigger] encoding(
                bytes,
            )[i] < 128 by {
                if i >= 4 {
                    assert(encoding(bytes)[i] == rest[i - 4]);
                }
            }
        }
    }
}

/// The text of an encoding is ASCII, and its characters are the codes of the
/// encoding.
pub proof fn lemma_text_is_ascii(bytes: Seq<u8>)
    ensures
        text(bytes).len() == encoding(bytes).len(),
        vstd::utf8::is_ascii_chars(text(bytes)),
        forall|i: int|
            0 <= i < text(bytes).len() ==> #[trigger] text(bytes)[i] as u8 == encoding(bytes)[i],
{
    lemma_encoding_ascii(bytes);
    assert forall|i: int| 0 <= i < text(bytes).len() implies '\0' <= #[trigger] text(bytes)[i]
        <= '\u{7f}' && text(bytes)[i] as u8 == encoding(bytes)[i] by {
        let code = encoding(bytes)[i];
        assert(code < 128);
        assert(text(bytes)[i] == code as char);
    }
}

/// Two byte strings with the same text are the same string.
pub proof fn lemma_text_injective(x: Seq<u8>, y: Seq<u8>)
    requires
        text(x) == text(y),
    ensures
        x == y,
{
    lemma_text_is_ascii(x);
    lemma_text_is_ascii(y);
    assert(encoding(x) =~= encoding(y)) by {
        assert forall|i: int| 0 <= i < encoding(x).len() implies encoding(x)[i] == encoding(
            y,
        )[i] by {
            assert(text(x)[i] as u8 == encoding(x)[i]);
            assert(text(y)[i] as u8 == encoding(y)[i]);
        }
    }
    lemma_encoding_injective(x, y);
}

/// Sixteen bytes give 24 characters, the last two of them pad characters.
pub proof fn lemma_encoding_of_sixteen(bytes: Seq<u8>)
    requires
        bytes.len() == 16,
    ensures
        encoding(bytes).len() == 24,
        encoding(bytes)[22] == PAD,
        encoding(bytes)[23] == PAD,
{
    lemma_encoding_len(bytes);
    let r1 = bytes.skip(3);
    let r2 = r1.skip(3);
    let r3 = r2.skip(3);
    let r4 = r3.skip(3);
    let r5 = r4.skip(3);
    lemma_encoding_len(r1);
    lemma_encoding_len(r2);
    lemma_encoding_len(r3);
    lemma_encoding_len(r4);
    lemma_encoding_len(r5);
    assert(encoding(r5)[2] == PAD && encoding(r5)[3] == PAD);
    assert(encoding(r4)[6] == encoding(r5)[2] && encoding(r4)[7] == encoding(r5)[3]);
    assert(encoding(r3)[10] == encoding(r4)[6] && encoding(r3)[11] == encoding(r4)[7]);
    assert(encoding(r2)[14] == encoding(r3)[10] && encoding(r2)[15] == encoding(r3)[11]);
    assert(encoding(r1)[18] == encoding(r2)[14] && encoding(r1)[19] == encoding(r2)[15]);
    assert(encoding(bytes)[22] == encoding(r1)[18] && encoding(bytes)[23] == encoding(r1)[19]);
}

/// Every six-bit value has a symbol of the alphabet.
pub proof fn lemma_symbol_is_symbol(v: int)
    requires
        0 <= v < 64,
    ensures
        is_symbol(symbol(v)),
{
}

/// The first 22 characters of the encoding of sixteen bytes are symbols of
/// the alphabet.
pub proof fn lemma_symbols_of_sixteen(bytes: Seq<u8>)
    requires
        bytes.len() == 16,
    ensures
        forall|i: int| 0 <= i < 22 ==> is_symbol(#[trigger] encoding(bytes)[i]),
{
    lemma_encoding_of_sixteen(bytes);
    assert forall|i: int| 0 <= i < 22 implies is_symbol(#[trigger] encoding(bytes)[i]) by {
        let group = i / 4;
        let rest = bytes.skip(3 * group);
        lemma_encoding_skips(bytes, group);
        assert(encoding(bytes)[i] == encoding(rest)[i % 4]);
        let a = rest[0] as int;
        let b = if rest.len() > 1 { rest[1] as int } else { 0 };
        let c = if rest.len() > 2 { rest[2] as int } else { 0 };
        lemma_symbol_is_symbol(a / 4);
        lemma_symbol_is_symbol((a % 4) * 16 + b / 16);
        lemma_symbol_is_symbol((b % 16) * 4 + c / 64);
        lemma_symbol_is_symbol(c % 64);
        lemma_symbol_is_symbol((a % 4) * 16);
    }
}

/// The encoding of what is left after `groups` groups of three bytes is what
/// is left of the encoding after as many groups of four characters.
pub proof fn lemma_encoding_skips(bytes: Seq<u8>, groups: int)
    requires
        0 <= groups,
        3 * groups <= bytes.len(),
    ensures
        encoding(bytes.skip(3 * groups)) == encoding(bytes).skip(4 * groups),
    decreases groups,
{
    if groups == 0 {
        assert(bytes.skip(0) =~= bytes);
        assert(encoding(bytes).skip(0) =~= encoding(bytes));
    } else {
        lemma_encoding_skips(bytes.skip(3), groups - 1);
        lemma_encoding_len(bytes);
        lemma_encoding_len(bytes.skip(3));
        assert(bytes.skip(3).skip(3 * (groups - 1)) =~= bytes.skip(3 * groups));
        assert(encoding(bytes.skip(3)) =~= encoding(bytes).skip(4));
        assert(encoding(bytes).skip(4).skip(4 * (groups - 1)) =~= encoding(bytes).skip(4 * groups));
    }
}

/// `Engine::encode` of the `base64` crate, on its standard engine with
/// padding. Trusted: the text it returns is the standard encoding of the
/// sixteen bytes, as [`text`] defines it.
#[verifier::external_body]
pub(crate) fn encode_standard(bytes: &[u8; 16]) -> (encoded: String)
    ensures
        encoded@ == text(bytes@),
{
    BASE64_STANDARD.encode(bytes)
}

/// `Engine::decode_slice_unchecked` of the `base64` crate, on its standard
/// engine, which asks for canonical padding and refuses stray bits in the last
/// symbol. The call panics where the decoded bytes outgrow `output`; an input
/// of 24 bytes that ends in two pad characters decodes to at most sixteen.
/// Trusted: on success sixteen bytes were written and the input is their
/// encoding; on failure the input is the encoding of no sixteen bytes, and the
/// reason is the one that [`refusal`] describes: the decoder reads from the
/// front and names the first byte that is no symbol, and where it finds none,
/// the last symbol, whose spare bits are then not all zero.
#[verifier::external_body]
pub(crate) fn decode_standard(input: &[u8], output: &mut [u8; 16]) -> (result: Result<
    usize,
    DecodeReason,
>)
    requires
        input@.len() == 24,
        input@[22] == PAD,
        input@[23] == PAD,
    ensures
        match result {
            Ok(written) => written == 16 && input@ == encoding(final(output)@),
            Err(reason) => {
                &&& refusal(input@, reason)
                &&& forall|bytes: Seq<u8>|
                    bytes.len() == 16 ==> #[trigger] encoding(bytes) != input@
            },
        },
{
    match BASE64_STANDARD.decode_slice_unchecked(input, output) {
        Ok(written) => Ok(written),
        Err(DecodeError::InvalidByte(offset, byte)) => Err(
            DecodeReason::InvalidByte { offset, byte },
        ),
        Err(DecodeError::InvalidLength) => Err(DecodeReason::InvalidLength),
        Err(DecodeError::InvalidLastSymbol(offset, byte)) => Err(
            DecodeReason::InvalidLastSymbol { offset, byte },
        ),
        Err(DecodeError::InvalidPadding) => Err(DecodeReason::InvalidPadding),
    }
}

} // verus!

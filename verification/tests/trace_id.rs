use span_codec::base64_text::DecodeReason;
use span_codec::trace_id::TraceIdError;
use span_codec::TraceId;

fn counting() -> [u8; 16] {
    [1, 2, 3, 4, 5, 6, 7, 8, 9, 10, 11, 12, 13, 14, 15, 16]
}

#[test]
fn new_keeps_the_bytes() {
    let id = TraceId::new(counting());
    assert_eq!(id.as_bytes(), &counting()[..]);
    assert_eq!(id.to_vec(), counting().to_vec());
    assert_eq!(id.as_bytes().len(), 16);
}

#[test]
fn base64_length_is_24() {
    assert_eq!(TraceId::BASE64_LENGTH, 24);
}

#[test]
fn zero_id_text_form() {
    let id = TraceId::new([0u8; 16]);
    let text = id.encode_text();
    assert_eq!(text, "AAAAAAAAAAAAAAAAAAAAAA==");
    assert_eq!(text.len(), 24);
    let back = TraceId::decode_text(&text).unwrap();
    assert_eq!(back.as_bytes(), &[0u8; 16][..]);
    assert_eq!(back, id);
}

#[test]
fn text_form_of_known_ids() {
    assert_eq!(TraceId::new(counting()).encode_text(), "AQIDBAUGBwgJCgsMDQ4PEA==");
    assert_eq!(TraceId::new([255u8; 16]).encode_text(), "/////////////////////w==");
    let mixed = [
        0xde, 0xad, 0xbe, 0xef, 0xde, 0xad, 0xbe, 0xef, 0xde, 0xad, 0xbe, 0xef, 0xde, 0xad, 0xbe,
        0xef,
    ];
    assert_eq!(TraceId::new(mixed).encode_text(), "3q2+796tvu/erb7v3q2+7w==");
}

#[test]
fn base64_display_is_the_text_form() {
    let id = TraceId::new(counting());
    assert_eq!(id.base64_display(), "AQIDBAUGBwgJCgsMDQ4PEA==");
    assert_eq!(id.base64_display(), id.encode_text());
}

#[test]
fn decode_known_text() {
    let id = TraceId::decode_text("AQIDBAUGBwgJCgsMDQ4PEA==").unwrap();
    assert_eq!(id, TraceId::new(counting()));
    let id = TraceId::decode_text("/////////////////////w==").unwrap();
    assert_eq!(id.to_vec(), vec![255u8; 16]);
}

#[test]
fn text_round_trip_on_many_ids() {
    let mut bytes = [0u8; 16];
    let mut seed: u32 = 0x2545_f491;
    for _ in 0..2000 {
        for byte in bytes.iter_mut() {
            seed = seed.wrapping_mul(1_664_525).wrapping_add(1_013_904_223);
            *byte = (seed >> 24) as u8;
        }
        let id = TraceId::new(bytes);
        let text = id.encode_text();
        assert_eq!(text.len(), 24);
        assert_eq!(TraceId::decode_text(&text), Ok(id));
    }
}

#[test]
fn every_single_byte_value_round_trips() {
    for position in 0..16 {
        for value in 0..=255u8 {
            let mut bytes = [0u8; 16];
            bytes[position] = value;
            let id = TraceId::new(bytes);
            let text = id.encode_text();
            assert_eq!(text.len(), 24);
            assert!(text.ends_with("=="));
            assert_eq!(TraceId::decode_text(&text).unwrap().as_bytes(), &bytes[..]);
        }
    }
}

#[test]
fn short_text_is_a_length_mismatch() {
    let text = "AAAAAAAAAAAAAAAAAAAAAA=";
    assert_eq!(text.len(), 23);
    assert_eq!(
        TraceId::decode_text(text),
        Err(TraceIdError::LengthMismatch { expected: 24, actual: 23 })
    );
}

#[test]
fn long_text_is_a_length_mismatch() {
    let text = "AAAAAAAAAAAAAAAAAAAAAAA==";
    assert_eq!(text.len(), 25);
    assert_eq!(
        TraceId::decode_text(text),
        Err(TraceIdError::LengthMismatch { expected: 24, actual: 25 })
    );
}

#[test]
fn empty_text_is_a_length_mismatch() {
    assert_eq!(
        TraceId::decode_text(""),
        Err(TraceIdError::LengthMismatch { expected: 24, actual: 0 })
    );
}

#[test]
fn longer_valid_base64_is_a_length_mismatch() {
    // The base64 of eighteen bytes of zero, padded to 28 characters by four more.
    let text = "AAAAAAAAAAAAAAAAAAAAAAAAAAAA";
    assert_eq!(
        TraceId::decode_text(text),
        Err(TraceIdError::LengthMismatch { expected: 24, actual: 28 })
    );
}

#[test]
fn length_is_counted_in_characters() {
    // Twelve characters in 24 bytes.
    let twelve = "éééééééééééé";
    assert_eq!(twelve.len(), 24);
    assert_eq!(
        TraceId::decode_text(twelve),
        Err(TraceIdError::LengthMismatch { expected: 24, actual: 12 })
    );
}

#[test]
fn non_ascii_text_of_24_characters_is_refused() {
    let text = "AAAAAAAAAAAAAAAAAAAAAé==";
    assert_eq!(text.chars().count(), 24);
    assert_eq!(
        TraceId::decode_text(text),
        Err(TraceIdError::DecodeError { reason: DecodeReason::NotAscii })
    );
}

#[test]
fn unpadded_text_is_refused_without_panic() {
    // 24 symbols stand for eighteen bytes, two more than an identifier has.
    assert_eq!(
        TraceId::decode_text("AAAAAAAAAAAAAAAAAAAAAAAA"),
        Err(TraceIdError::DecodeError { reason: DecodeReason::MissingPadding })
    );
    // 23 symbols and one pad character stand for seventeen.
    assert_eq!(
        TraceId::decode_text("AAAAAAAAAAAAAAAAAAAAAAA="),
        Err(TraceIdError::DecodeError { reason: DecodeReason::MissingPadding })
    );
}

#[test]
fn symbol_outside_the_alphabet_is_refused() {
    assert_eq!(
        TraceId::decode_text("!AAAAAAAAAAAAAAAAAAAAA=="),
        Err(TraceIdError::DecodeError {
            reason: DecodeReason::InvalidByte { offset: 0, byte: b'!' }
        })
    );
    assert_eq!(
        TraceId::decode_text("AAAAAAAAAAAAAAAAAAAA-A=="),
        Err(TraceIdError::DecodeError {
            reason: DecodeReason::InvalidByte { offset: 20, byte: b'-' }
        })
    );
    assert_eq!(
        TraceId::decode_text("AAAAAAAAAA AAAAAAAAAAA=="),
        Err(TraceIdError::DecodeError {
            reason: DecodeReason::InvalidByte { offset: 10, byte: b' ' }
        })
    );
}

#[test]
fn pad_character_in_the_middle_is_refused() {
    assert_eq!(
        TraceId::decode_text("AAAA=AAAAAAAAAAAAAAAAA=="),
        Err(TraceIdError::DecodeError {
            reason: DecodeReason::InvalidByte { offset: 4, byte: b'=' }
        })
    );
    let result = TraceId::decode_text("AAAAAAAAAAAAAAAAAAAAA===");
    assert!(matches!(
        result,
        Err(TraceIdError::DecodeError { reason: DecodeReason::InvalidByte { .. } })
    ));
}

#[test]
fn stray_bits_in_the_last_symbol_are_refused() {
    // `B` carries a bit below the two that the sixteenth byte takes up.
    assert_eq!(
        TraceId::decode_text("AAAAAAAAAAAAAAAAAAAAAB=="),
        Err(TraceIdError::DecodeError {
            reason: DecodeReason::InvalidLastSymbol { offset: 21, byte: b'B' }
        })
    );
}

#[test]
fn equal_ids_are_equal() {
    let a = TraceId::new(counting());
    let b = TraceId::new(counting());
    let mut other = counting();
    other[15] = 0;
    assert!(a == b);
    assert!(a != TraceId::new(other));
    other = counting();
    other[0] = 0;
    assert!(a != TraceId::new(other));
}

#[test]
fn ids_are_ordered_by_their_bytes() {
    let low = TraceId::new([0u8; 16]);
    let mut bytes = [0u8; 16];
    bytes[15] = 1;
    let mid = TraceId::new(bytes);
    bytes = [0u8; 16];
    bytes[0] = 1;
    let high = TraceId::new(bytes);
    assert!(low < mid);
    assert!(mid < high);
    assert!(low < high);
}

#[test]
fn random_ids_have_sixteen_bytes_and_differ() {
    let mut rng = rand::thread_rng();
    let a = TraceId::random(&mut rng);
    let b = TraceId::random(&mut rng);
    assert_eq!(a.as_bytes().len(), 16);
    assert_eq!(b.to_vec().len(), 16);
    assert_ne!(a, b);
    assert_ne!(a.as_bytes(), &[0u8; 16][..]);
}

#[test]
fn ordering_agrees_with_the_byte_arrays() {
    let mut seed: u32 = 7;
    let mut draw = || {
        let mut bytes = [0u8; 16];
        for byte in bytes.iter_mut() {
            seed = seed.wrapping_mul(1_664_525).wrapping_add(1_013_904_223);
            *byte = (seed >> 30) as u8;
        }
        bytes
    };
    for _ in 0..2000 {
        let left = draw();
        let right = draw();
        let expected = left.cmp(&right);
        assert_eq!(TraceId::new(left).partial_cmp(&TraceId::new(right)), Some(expected));
        assert_eq!(TraceId::new(left).cmp(&TraceId::new(right)), expected);
        assert_eq!(TraceId::new(left) == TraceId::new(right), left == right);
    }
}

#[test]
fn the_first_stranger_is_named() {
    let text = format!("{}*==", "A".repeat(21));
    assert_eq!(text.len(), 24);
    assert_eq!(
        TraceId::decode_text(&text),
        Err(TraceIdError::DecodeError {
            reason: DecodeReason::InvalidByte { offset: 21, byte: b'*' }
        })
    );
    assert_eq!(
        TraceId::decode_text("AAA#AAAAAAAA$AAAAAAAA%=="),
        Err(TraceIdError::DecodeError {
            reason: DecodeReason::InvalidByte { offset: 3, byte: b'#' }
        })
    );
    assert_eq!(
        TraceId::decode_text("AAAAAAAAAAAAAAAAAA==AA=="),
        Err(TraceIdError::DecodeError {
            reason: DecodeReason::InvalidByte { offset: 18, byte: b'=' }
        })
    );
    assert_eq!(
        TraceId::decode_text("AAAAAAAAAAAAAAAAAAA=#A=="),
        Err(TraceIdError::DecodeError {
            reason: DecodeReason::InvalidByte { offset: 19, byte: b'=' }
        })
    );
}

#[test]
fn each_place_names_its_stranger() {
    for place in 0..22 {
        let mut text = String::from("AAAAAAAAAAAAAAAAAAAAAA==").into_bytes();
        text[place] = b'!';
        let text = String::from_utf8(text).unwrap();
        assert_eq!(
            TraceId::decode_text(&text),
            Err(TraceIdError::DecodeError {
                reason: DecodeReason::InvalidByte { offset: place, byte: b'!' }
            })
        );
    }
}

#[test]
fn stray_bits_name_the_last_symbol() {
    for symbol in ["B", "P", "f", "/", "9"] {
        let text = format!("{}{}==", "A".repeat(21), symbol);
        assert_eq!(
            TraceId::decode_text(&text),
            Err(TraceIdError::DecodeError {
                reason: DecodeReason::InvalidLastSymbol { offset: 21, byte: symbol.as_bytes()[0] }
            })
        );
    }
    for symbol in ["A", "Q", "g", "w"] {
        let text = format!("{}{}==", "A".repeat(21), symbol);
        assert!(TraceId::decode_text(&text).is_ok());
    }
}

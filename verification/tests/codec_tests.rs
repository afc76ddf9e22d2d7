use sleigh::codec::{alphanumeric_to_num, decode_cursor, encode_cursor, num_to_alphanumeric};

#[test]
fn encode_zero_is_one_digit() {
    assert_eq!(num_to_alphanumeric(0), "1");
}

#[test]
fn encode_band_boundaries() {
    assert_eq!(num_to_alphanumeric(1), "2");
    assert_eq!(num_to_alphanumeric(8), "9");
    assert_eq!(num_to_alphanumeric(9), "A");
    assert_eq!(num_to_alphanumeric(34), "Z");
    assert_eq!(num_to_alphanumeric(35), "a");
    assert_eq!(num_to_alphanumeric(60), "z");
    assert_eq!(num_to_alphanumeric(61), "21");
    assert_eq!(num_to_alphanumeric(100), "2e");
}

#[test]
fn encoding_never_contains_zero_character() {
    let samples: [u64; 8] = [0, 1, 60, 61, 3721, 1_734_000_000_000, u64::MAX - 1, u64::MAX];
    for n in samples {
        let s = num_to_alphanumeric(n);
        assert!(!s.contains('0'), "encoding of {} contains '0': {}", n, s);
        assert!(s.len() >= 1 && s.len() <= 11);
    }
}

#[test]
fn decode_inverts_encode() {
    let samples: [u64; 7] = [0, 1, 9, 61, 62, 1_734_000_000_000, u64::MAX];
    for n in samples {
        let s = num_to_alphanumeric(n);
        assert_eq!(alphanumeric_to_num(&s), Some(n));
    }
}

#[test]
fn decode_empty_is_zero() {
    assert_eq!(alphanumeric_to_num(""), Some(0));
}

#[test]
fn decode_rejects_foreign_characters() {
    assert_eq!(alphanumeric_to_num("0"), None);
    assert_eq!(alphanumeric_to_num("A-B"), None);
    assert_eq!(alphanumeric_to_num("a b"), None);
    assert_eq!(alphanumeric_to_num("Ab#"), None);
}

#[test]
fn decode_rejects_overflow() {
    // Eleven 'z' digits name a number larger than any u64.
    assert_eq!(alphanumeric_to_num("zzzzzzzzzzz"), None);
}

#[test]
fn cursor_is_sixteen_characters() {
    let ts: u64 = 1_734_000_000_000;
    let c = encode_cursor(2, ts).unwrap();
    assert_eq!(c.chars().count(), 16);
    assert!(c.contains('0'));
}

#[test]
fn cursor_round_trip() {
    let cases: [(u64, u64); 5] = [
        (1, 0),
        (2, 1_734_000_000_000),
        (999, 42),
        (1, u64::MAX),
        (u64::MAX, 7),
    ];
    for (page, ts) in cases {
        match encode_cursor(page, ts) {
            Some(c) => {
                assert_eq!(c.chars().count(), 16);
                assert_eq!(decode_cursor(&c), Some((page, ts)));
            }
            None => panic!("both parts fit for ({}, {})", page, ts),
        }
    }
}

#[test]
fn cursor_refused_when_parts_fill_the_width() {
    // Two eleven-digit parts cannot share sixteen characters.
    assert_eq!(encode_cursor(u64::MAX, u64::MAX), None);
}

#[test]
fn decode_cursor_rejects_malformed() {
    // Empty page part: the string begins with the delimiter.
    assert_eq!(decode_cursor("0000000000000000"), None);
    assert_eq!(decode_cursor("0abc"), None);
    // Empty watermark part: no delimiter at all, or nothing after it.
    assert_eq!(decode_cursor("abc"), None);
    assert_eq!(decode_cursor("abc0"), None);
    assert_eq!(decode_cursor(""), None);
    // A part longer than eleven characters.
    assert_eq!(decode_cursor("AAAAAAAAAAAA0BBB"), None);
    assert_eq!(decode_cursor("BBB0AAAAAAAAAAAA"), None);
    // A character outside the alphabet.
    assert_eq!(decode_cursor("a!c05"), None);
    assert_eq!(decode_cursor("ac05-"), None);
}

#[test]
fn decode_cursor_splits_at_first_zero_run() {
    // Page part before the first '0', watermark after the run of '0's.
    assert_eq!(decode_cursor("2001"), Some((1, 0)));
    assert_eq!(decode_cursor("200002"), Some((1, 1)));
}

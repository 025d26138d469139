use steam_totp::codec::DecodeError;
use steam_totp::totp::{generate, generate_at, generate_for_counter};

const ALPHABET: &str = "23456789BCDFGHJKMNPQRTVWXY";
const SECRET: &str = "zvIayp3JPvtvX/QGHqsmvwYuqpc=";

#[test]
fn known_vector() {
    // Counter for the fixed timestamp 1500000000: one 30-second window.
    let code = generate_for_counter(SECRET, 1500000000 / 30).expect("valid secret");
    assert_eq!(code, "559VY");
}

#[test]
fn deterministic_for_fixed_counter() {
    let first = generate_for_counter(SECRET, 50000000).expect("valid secret");
    let second = generate_for_counter(SECRET, 50000000).expect("valid secret");
    assert_eq!(first, second);
}

#[test]
fn codes_stay_in_alphabet() {
    for counter in [0u64, 1, 12345, 50000000, u64::MAX] {
        let code = generate_for_counter(SECRET, counter).expect("valid secret");
        assert_eq!(code.len(), 5);
        assert!(code.chars().all(|c| ALPHABET.contains(c)));
    }
}

#[test]
fn window_stability() {
    // 1500000000 is the first second of its window; 29 seconds later the
    // window, and with it the code, is unchanged.
    let early = generate_at(SECRET, 1500000000).expect("valid secret");
    let late = generate_at(SECRET, 1500000029).expect("valid secret");
    assert_eq!(early, late);
}

#[test]
fn foreign_character_is_rejected() {
    assert_eq!(generate_for_counter("not base64!!", 1), Err(DecodeError::InvalidBase64));
    assert_eq!(generate_at("m?re junk", 1500000000), Err(DecodeError::InvalidBase64));
    assert_eq!(generate("????"), Err(DecodeError::InvalidBase64));
}

#[test]
fn empty_secret_gives_degenerate_code() {
    // An empty secret decodes to the empty key, which HMAC accepts: the
    // engine computes a (meaningless but deterministic) code.
    let code = generate_for_counter("", 50000000).expect("empty secret is valid base64");
    assert_eq!(code.len(), 5);
    assert!(code.chars().all(|c| ALPHABET.contains(c)));
    assert_eq!(code, generate_for_counter("", 50000000).unwrap());
}

#[test]
fn generate_now_is_well_formed() {
    let code = generate(SECRET).expect("valid secret");
    assert_eq!(code.len(), 5);
    assert!(code.chars().all(|c| ALPHABET.contains(c)));
}

#[test]
fn agrees_with_reference_implementation() {
    // Both read the clock; retry in case the two reads straddle a window
    // boundary.
    let mut agreed = false;
    for _ in 0..3 {
        let ours = generate(SECRET).expect("valid secret");
        let reference = simple_steam_totp::generate(SECRET).expect("valid secret");
        if ours == reference {
            agreed = true;
            break;
        }
    }
    assert!(agreed);
}

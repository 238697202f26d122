use dbgen::seed::{meta_seed, seed_from_str, seed_to_string, DecodeError, DecodeKind};

fn sample_seed() -> [u8; 32] {
    let mut seed = [0u8; 32];
    for i in 0..32 {
        seed[i] = (i * 7 + 3) as u8;
    }
    seed
}

#[test]
fn seed_reads_back() {
    let seed = sample_seed();
    let text = seed_to_string(&seed);
    assert_eq!(text.len(), 64);
    assert_eq!(seed_from_str(&text), Ok(seed));
    assert_eq!(seed_from_str(&seed_to_string(&[0u8; 32])), Ok([0u8; 32]));
    assert_eq!(seed_from_str(&seed_to_string(&[255u8; 32])), Ok([255u8; 32]));
}

#[test]
fn seed_is_shown_in_lower_case_digits() {
    let text = seed_to_string(&sample_seed());
    assert_eq!(
        text,
        "030a11181f262d343b424950575e656c737a81888f969da4abb2b9c0c7ced5dc"
    );
}

#[test]
fn seed_takes_upper_case_digits() {
    let text = "030A11181F262D343B424950575E656C737A81888F969DA4ABB2B9C0C7CED5DC";
    assert_eq!(seed_from_str(text), Ok(sample_seed()));
}

#[test]
fn texts_of_one_seed_agree_up_to_case() {
    let lower = "ab".repeat(32);
    let mixed = "aB".repeat(32);
    let other = "ba".repeat(32);
    assert_eq!(seed_from_str(&lower), Ok([0xab; 32]));
    assert_eq!(seed_from_str(&mixed), Ok([0xab; 32]));
    assert_ne!(seed_from_str(&lower), seed_from_str(&other));
}

#[test]
fn seed_of_odd_length_is_refused() {
    let error = |position| {
        Err(DecodeError {
            position,
            kind: DecodeKind::Length,
        })
    };
    assert_eq!(seed_from_str("abc"), error(2));
    assert_eq!(seed_from_str(&"0".repeat(65)), error(64));
    assert_eq!(seed_from_str(&"0".repeat(63)), error(62));
    assert_eq!(seed_from_str("z"), error(0));
}

#[test]
fn seed_of_another_even_length_is_refused() {
    let error = |position| {
        Err(DecodeError {
            position,
            kind: DecodeKind::Length,
        })
    };
    assert_eq!(seed_from_str(""), error(0));
    assert_eq!(seed_from_str("abcd"), error(4));
    assert_eq!(seed_from_str(&"0".repeat(62)), error(62));
    assert_eq!(seed_from_str(&"0".repeat(66)), error(66));
}

#[test]
fn seed_with_another_character_is_refused() {
    let mut text = "0".repeat(64);
    text.replace_range(17..18, "g");
    text.replace_range(40..41, "-");
    assert_eq!(
        seed_from_str(&text),
        Err(DecodeError {
            position: 17,
            kind: DecodeKind::Symbol,
        })
    );
    let wide = format!("{}é", "0".repeat(62));
    assert_eq!(
        seed_from_str(&wide),
        Err(DecodeError {
            position: 62,
            kind: DecodeKind::Symbol,
        })
    );
}

#[test]
fn requested_seed_is_used() {
    assert_eq!(meta_seed(Some(sample_seed())), sample_seed());
}

#[test]
fn fresh_seeds_differ() {
    assert_ne!(meta_seed(None), meta_seed(None));
}

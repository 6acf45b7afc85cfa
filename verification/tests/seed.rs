use rspotd::seed::{pad_seed, validate_seed};
use rspotd::text::same_text;
use rspotd::vals::DEFAULT_SEED;
use rspotd::PotdError;

#[test]
fn pad_seed_repeats_from_the_start() {
    assert_eq!(pad_seed("ASDF"), "ASDFASDFAS");
    assert_eq!(pad_seed("ABCDE"), "ABCDEABCDE");
    assert_eq!(pad_seed("ABCDEF"), "ABCDEFABCD");
    assert_eq!(pad_seed("ABCDEFG"), "ABCDEFGABC");
    assert_eq!(pad_seed("1122AABB"), "1122AABB11");
}

#[test]
fn pad_seed_of_other_lengths() {
    assert_eq!(pad_seed("A"), "AAAAAAAAAA");
    assert_eq!(pad_seed("ABC"), "ABCABCABCA");
    assert_eq!(pad_seed("ABCDEFGHI"), "ABCDEFGHIA");
    assert_eq!(pad_seed("ABCDEFGHIJ"), "ABCDEFGHIJ");
    assert_eq!(pad_seed("ABCDEFGHIJKL"), "ABCDEFGHIJ");
    assert_eq!(pad_seed("éß"), "éßéßéßéßéß");
}

#[test]
fn padding_a_padded_seed_changes_nothing() {
    for seed in ["ASDF", "ABCDE", "ABCDEF", "ABCDEFG", "1122AABB", DEFAULT_SEED] {
        let padded = validate_seed(seed).unwrap();
        assert_eq!(padded.chars().count(), 10);
        assert_eq!(pad_seed(&padded), padded);
    }
}

#[test]
fn default_seed_is_returned_unchanged() {
    assert_eq!(DEFAULT_SEED, "MPSJKMDHAI");
    assert_eq!(validate_seed(DEFAULT_SEED), Ok(DEFAULT_SEED.to_string()));
}

#[test]
fn seed_length_bounds() {
    assert_eq!(validate_seed("ABC"), Err(PotdError::InvalidSeedLength));
    assert_eq!(validate_seed("ABCDEFGHI"), Err(PotdError::InvalidSeedLength));
    assert_eq!(validate_seed("ABCD"), Ok("ABCDABCDAB".to_string()));
    assert_eq!(validate_seed("ABCDEFGH"), Ok("ABCDEFGHAB".to_string()));
}

#[test]
fn seed_of_other_lengths_is_refused() {
    assert_eq!(validate_seed(""), Err(PotdError::InvalidSeedLength));
    assert_eq!(validate_seed("A"), Err(PotdError::InvalidSeedLength));
    assert_eq!(validate_seed("ABCDEFGHIJ"), Err(PotdError::InvalidSeedLength));
    assert_eq!(validate_seed("MPSJKMDHAJ"), Err(PotdError::InvalidSeedLength));
    assert_eq!(validate_seed("MPSJKMDHAIX"), Err(PotdError::InvalidSeedLength));
}

#[test]
fn seed_length_is_counted_in_bytes() {
    // Two characters of two bytes each.
    assert_eq!(validate_seed("éé"), Ok("éééééééééé".to_string()));
    // Five characters of two bytes each.
    assert_eq!(validate_seed("ééééé"), Err(PotdError::InvalidSeedLength));
}

#[test]
fn same_text_compares_characters() {
    assert!(same_text("", ""));
    assert!(same_text("MPSJKMDHAI", DEFAULT_SEED));
    assert!(!same_text("MPSJKMDHA", DEFAULT_SEED));
    assert!(!same_text("MPSJKMDHAJ", DEFAULT_SEED));
    assert!(!same_text("mpsjkmdhai", DEFAULT_SEED));
    assert!(same_text("éß", "éß"));
}

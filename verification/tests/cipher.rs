use rspotd::cipher::{format_des_token, seed_to_des, zero_padded_block};
use rspotd::vals::{DEFAULT_DES, DES_IV, DES_KEY};
use rspotd::PotdError;

#[test]
fn key_and_vector() {
    assert_eq!(DES_KEY, [20, 157, 64, 213, 193, 46, 85, 2]);
    assert_eq!(DES_IV, [0; 8]);
    assert_eq!(DEFAULT_DES, "DB.B5.CB.D6.11.17.D6.EB");
}

#[test]
fn block_is_filled_with_zeros() {
    assert_eq!(zero_padded_block(b"ABCD"), [65, 66, 67, 68, 0, 0, 0, 0]);
    assert_eq!(zero_padded_block(b"ABCDEFGH"), [65, 66, 67, 68, 69, 70, 71, 72]);
    assert_eq!(zero_padded_block(b""), [0; 8]);
    assert_eq!(zero_padded_block(&[255, 1]), [255, 1, 0, 0, 0, 0, 0, 0]);
}

#[test]
fn token_has_two_symbols_for_each_byte() {
    assert_eq!(
        format_des_token(&[0x3F, 0x94, 0xE2, 0xAA, 0x46, 0x63, 0xAA, 0x78]),
        "3F.94.E2.AA.46.63.AA.78"
    );
    assert_eq!(format_des_token(&[0, 1, 10, 15, 16, 255, 9, 0]), "00.01.0A.0F.10.FF.09.00");
    assert_eq!(format_des_token(&[7, 7, 7, 7, 7, 7, 7, 7]), "07.07.07.07.07.07.07.07");
}

#[test]
fn token_of_other_lengths() {
    assert_eq!(format_des_token(&[]), "");
    assert_eq!(format_des_token(&[0xAB]), "AB");
    assert_eq!(format_des_token(&[0xAB, 0x0C]), "AB.0C");
}

#[test]
fn token_length() {
    let token = seed_to_des("ARRIS").unwrap();
    assert_eq!(token.len(), 23);
    assert!(token.chars().enumerate().all(|(i, c)| {
        if i % 3 == 2 {
            c == '.'
        } else {
            c.is_ascii_digit() || ('A'..='F').contains(&c)
        }
    }));
}

#[test]
fn seeds_of_each_length() {
    assert_eq!(seed_to_des("asdf").unwrap(), "15.89.7E.8E.F2.D4.7C.BA");
    assert_eq!(seed_to_des("ARRIS").unwrap(), "EB.A5.1C.26.11.0F.84.0D");
    assert_eq!(seed_to_des("seed1").unwrap(), "06.18.D4.CE.3F.CB.CF.84");
    assert_eq!(seed_to_des("SEED001").unwrap(), "0C.DB.5D.E4.B5.17.B8.28");
    assert_eq!(seed_to_des("ABCDEFGH").unwrap(), "E4.2D.DD.C5.7B.01.8E.2E");
    assert_eq!(seed_to_des("1122AABB").unwrap(), "E9.84.A1.9E.3E.C5.CA.64");
}

#[test]
fn token_with_a_byte_that_equals_the_last() {
    assert_eq!(seed_to_des("SEED004").unwrap(), "04.9E.77.80.E4.51.B6.51");
}

#[test]
fn seed_of_two_byte_characters() {
    assert_eq!(seed_to_des("éé").unwrap(), "28.C3.90.B3.C7.25.38.E8");
}

#[test]
fn des_seed_bounds() {
    assert_eq!(seed_to_des(""), Err(PotdError::InvalidSeedLength));
    assert_eq!(seed_to_des("ABC"), Err(PotdError::InvalidSeedLength));
    assert_eq!(seed_to_des("ABCDEFGHI"), Err(PotdError::InvalidSeedLength));
    assert_eq!(seed_to_des("ééééé"), Err(PotdError::InvalidSeedLength));
    assert!(seed_to_des("ABCD").is_ok());
    assert!(seed_to_des("ABCDEFGH").is_ok());
}

#[test]
fn des_is_the_same_on_every_call() {
    assert_eq!(seed_to_des("ABCD"), seed_to_des("ABCD"));
    assert_ne!(seed_to_des("ABCD"), seed_to_des("ABCE"));
}

use rspotd::date_text::validate_date;
use rspotd::potd::{check_span, validate_range, PotD};
use rspotd::vals::DEFAULT_SEED;
use rspotd::{generate, generate_multiple, PotdError};

#[test]
fn same_inputs_same_password() {
    for (date, seed) in [("2021-12-25", DEFAULT_SEED), ("2024-02-29", "ABCDE"), ("1999-12-31", "ABCDEFG")] {
        assert_eq!(generate(date, seed), generate(date, seed));
    }
    assert_eq!(generate("2021-12-25", "ABC"), generate("2021-12-25", "ABC"));
}

#[test]
fn passwords_of_other_dates_and_seeds() {
    assert_eq!(generate("2024-02-29", "ABCDE").unwrap(), "JNBCJCJL6O");
    assert_eq!(generate("2000-02-29", "ABCDEF").unwrap(), "LGF046V0NN");
    assert_eq!(generate("1999-12-31", "ABCDEFG").unwrap(), "0H0WEOS0OV");
    assert_eq!(generate("0123-05-06", "seed").unwrap(), "4APW7I8MSS");
    assert_eq!(generate("0000-01-01", "zzzzzzzz").unwrap(), "JMFFQW98TS");
    assert_eq!(generate("9999-12-31", DEFAULT_SEED).unwrap(), "5CCRWOSNE2");
    assert_eq!(generate("2022-01-31", "ABCD").unwrap(), "GDR0A3I49J");
}

#[test]
fn passwords_have_ten_symbols() {
    let table = generate_multiple("2023-03-01", "2024-02-29", "Seed-#1").unwrap();
    assert_eq!(table.len(), 366);
    for (_, password) in table.iter() {
        assert_eq!(password.len(), 10);
        assert!(password.chars().all(|c| c.is_ascii_digit() || c.is_ascii_uppercase()));
    }
}

#[test]
fn range_has_one_entry_for_each_day() {
    let table = generate_multiple("2021-12-27", "2022-01-03", "ARRIS").unwrap();
    let expected = [
        ("2021-12-27", "DQZQS19VZD"),
        ("2021-12-28", "6B05WHPGYW"),
        ("2021-12-29", "SZWHXZ4YZP"),
        ("2021-12-30", "ZE42RUT8OO"),
        ("2021-12-31", "5U65FWMHNZ"),
        ("2022-01-01", "UFY22HZ0V7"),
        ("2022-01-02", "O56QA0YSZD"),
        ("2022-01-03", "88U5AI4IM7"),
    ];
    assert_eq!(table.len(), expected.len());
    for (entry, (date, password)) in table.iter().zip(expected.iter()) {
        assert_eq!(entry.0, *date);
        assert_eq!(entry.1, *password);
    }
}

#[test]
fn range_agrees_with_single_dates() {
    let begin = validate_date("2019-06-15").unwrap();
    let end = validate_date("2020-06-14").unwrap();
    let table = generate_multiple("2019-06-15", "2020-06-14", "ABCDEF").unwrap();
    assert_eq!(table.len() as i64, begin.days_until(&end) + 1);
    assert_eq!(table[0].0, "2019-06-15");
    assert_eq!(table[table.len() - 1].0, "2020-06-14");
    for (date, password) in table.iter() {
        assert_eq!(generate(date, "ABCDEF").as_ref(), Ok(password));
    }
    for pair in table.windows(2) {
        assert!(pair[0].0 < pair[1].0);
    }
}

#[test]
fn range_must_end_after_it_begins() {
    assert_eq!(
        generate_multiple("2021-12-25", "2021-12-25", DEFAULT_SEED),
        Err(PotdError::InvalidDateRange)
    );
    assert_eq!(
        generate_multiple("2021-12-26", "2021-12-25", DEFAULT_SEED),
        Err(PotdError::InvalidDateRange)
    );
    assert_eq!(
        generate_multiple("2022-12-25", "2021-12-25", DEFAULT_SEED),
        Err(PotdError::InvalidDateRange)
    );
}

#[test]
fn range_of_365_days_is_the_longest() {
    assert_eq!(generate_multiple("2021-12-25", "2022-12-25", DEFAULT_SEED).unwrap().len(), 366);
    assert_eq!(
        generate_multiple("2021-12-25", "2022-12-26", DEFAULT_SEED),
        Err(PotdError::InvalidDateRange)
    );
    // A leap day lies between: one year is 366 days.
    assert_eq!(
        generate_multiple("2019-12-25", "2020-12-25", DEFAULT_SEED),
        Err(PotdError::InvalidDateRange)
    );
    assert_eq!(generate_multiple("2019-12-25", "2020-12-24", DEFAULT_SEED).unwrap().len(), 366);
}

#[test]
fn range_up_to_the_last_day() {
    let table = generate_multiple("9999-12-30", "9999-12-31", DEFAULT_SEED).unwrap();
    assert_eq!(table.len(), 2);
    assert_eq!(table[1], ("9999-12-31".to_string(), "5CCRWOSNE2".to_string()));
}

#[test]
fn range_errors_in_order() {
    assert_eq!(
        generate_multiple("2022-14-12", "nonsense", "ABC"),
        Err(PotdError::InvalidDateValue)
    );
    assert_eq!(
        generate_multiple("2022-12-12", "nonsense", "ABC"),
        Err(PotdError::InvalidDateFormat)
    );
    assert_eq!(
        generate_multiple("2022-12-12", "2022-12-12", "ABC"),
        Err(PotdError::InvalidDateRange)
    );
    assert_eq!(
        generate_multiple("2022-12-12", "2022-12-13", "ABC"),
        Err(PotdError::InvalidSeedLength)
    );
}

#[test]
fn validate_range_checks_dates_and_span() {
    assert_eq!(validate_range("2021-12-25", "2021-12-26"), Ok(true));
    assert_eq!(validate_range("2021-12-25", "2022-12-25"), Ok(true));
    assert_eq!(validate_range("2021-12-25", "2022-12-26"), Err(PotdError::InvalidDateRange));
    assert_eq!(validate_range("2021-12-25", "2021-12-25"), Err(PotdError::InvalidDateRange));
    assert_eq!(validate_range("2021-12-25", "2021-12-24"), Err(PotdError::InvalidDateRange));
    assert_eq!(validate_range("2021-12-2", "2021-12-24"), Err(PotdError::InvalidDateFormat));
    assert_eq!(validate_range("2021-12-25", "2021-13-24"), Err(PotdError::InvalidDateValue));
}

#[test]
fn check_span_counts_days() {
    let first = validate_date("2021-12-25").unwrap();
    assert!(check_span(&first, &validate_date("2021-12-26").unwrap()));
    assert!(check_span(&first, &validate_date("2022-12-25").unwrap()));
    assert!(!check_span(&first, &validate_date("2022-12-26").unwrap()));
    assert!(!check_span(&first, &first));
    assert!(!check_span(&first, &validate_date("2021-12-24").unwrap()));
}

#[test]
fn generate_seed_bounds() {
    assert_eq!(generate("1960-10-22", "ABC"), Err(PotdError::InvalidSeedLength));
    assert_eq!(generate("1960-10-22", "ABCABCABC"), Err(PotdError::InvalidSeedLength));
    assert!(generate("1960-10-22", "ABCD").is_ok());
    assert!(generate("1960-10-22", "ABCDABCD").is_ok());
}

#[test]
fn generate_checks_the_date_first() {
    assert_eq!(generate("Phoenix dactylifera", "ABC"), Err(PotdError::InvalidDateFormat));
    assert_eq!(generate("1999-10-40", "ABC"), Err(PotdError::InvalidDateValue));
    assert_eq!(generate("Phoenix dactylifera", DEFAULT_SEED), Err(PotdError::InvalidDateFormat));
    assert_eq!(generate("1999-10-40", DEFAULT_SEED), Err(PotdError::InvalidDateValue));
}

#[test]
fn potd_record_holds_its_inputs() {
    let record = PotD::new("2021-12-25", "1122AABB").unwrap();
    assert_eq!(record.valid_date, "2021-12-25");
    assert_eq!(record.given_seed, "1122AABB");
    assert_eq!(record.padded_seed, "1122AABB11");
    assert_eq!(record.potd, "FEWNX8OS0O");
}

#[test]
fn potd_record_checks_the_seed_first() {
    assert_eq!(PotD::new("nonsense", "ABC").unwrap_err(), PotdError::InvalidSeedLength);
    assert_eq!(PotD::new("nonsense", "ABCD").unwrap_err(), PotdError::InvalidDateFormat);
    assert_eq!(PotD::new("2021-02-30", "ABCD").unwrap_err(), PotdError::InvalidDateValue);
}

#[test]
fn messages() {
    assert_eq!(
        PotdError::InvalidDateFormat.message(),
        "Invalid date format, must be YYYY-MM-DD"
    );
    assert_eq!(
        PotdError::InvalidSeedLength.message(),
        "Seed should be >= 4 and <= 8 characters long."
    );
    assert!(PotdError::InvalidDateValue.message().starts_with("Invalid date"));
    assert!(PotdError::InvalidDateRange.message().starts_with("Invalid date range"));
}

#[test]
fn seed_of_other_characters() {
    // Two characters in four bytes: the ten-character form repeats the two.
    let password = generate("2021-12-25", "éß").unwrap();
    assert_eq!(password.len(), 10);
    assert_eq!(Ok(password), generate("2021-12-25", "éßéß"));
}

use isbn_core::ParseError;
use isbn_core::isbn10::Isbn10;
use isbn_core::isbn13::Isbn13;
use isbn_core::convert::convert;
use isbn_core::resolve::{process_record, resolve, RecordOutcome};

#[test]
fn isbn10_with_separators_converts() {
    let v = Isbn10::parse("3-598-21508-8").unwrap();
    assert_eq!(v.to_string(), "3598215088");
    let w = v.to_isbn13();
    assert_eq!(w.to_string(), "9783598215087");
}

#[test]
fn isbn13_parses_directly() {
    let v = Isbn13::parse("978-3-16-148410-0").unwrap();
    assert_eq!(v.to_string(), "9783161484100");
    // the same string is no ten-symbol ISBN
    assert_eq!(Isbn10::parse("978-3-16-148410-0"), Err(ParseError::LengthError));
    let r = resolve("978-3-16-148410-0").unwrap();
    assert_eq!(r.to_string(), "9783161484100");
}

#[test]
fn letter_check_symbol() {
    let v = Isbn10::parse("0-9752298-0-X").unwrap();
    assert_eq!(v.to_string(), "097522980X");
    assert_eq!(v.to_isbn13().to_string(), "9780975229804");
}

#[test]
fn lower_case_check_symbol_is_accepted_and_canonicalized() {
    let v = Isbn10::parse("097522980x").unwrap();
    assert_eq!(v.to_string(), "097522980X");
    assert_eq!(v, Isbn10::parse("0-9752298-0-X").unwrap());
}

#[test]
fn missing_field_is_missing_not_invalid() {
    assert_eq!(process_record(7, None), RecordOutcome::Missing { index: 7 });
    assert_eq!(process_record(8, Some("")), RecordOutcome::Missing { index: 8 });
}

#[test]
fn wrong_checksum_then_wrong_length() {
    assert_eq!(Isbn10::parse("1234567890"), Err(ParseError::ChecksumError));
    assert_eq!(Isbn13::parse("1234567890"), Err(ParseError::LengthError));
    let inv = resolve("1234567890").unwrap_err();
    assert_eq!(inv.raw, "1234567890");
    assert_eq!(inv.isbn10_error, ParseError::ChecksumError);
    assert_eq!(inv.isbn13_error, ParseError::LengthError);
}

#[test]
fn round_trip_isbn10() {
    let v = Isbn10::parse("3598215088").unwrap();
    assert_eq!(Isbn10::parse(&v.to_string()).unwrap(), v);
}

#[test]
fn round_trip_isbn13() {
    let v = Isbn13::parse("9783161484100").unwrap();
    assert_eq!(Isbn13::parse(&v.to_string()).unwrap(), v);
}

#[test]
fn separators_anywhere_do_not_change_the_parse() {
    let plain = Isbn10::parse("3598215088").unwrap();
    assert_eq!(Isbn10::parse("3 5-9-8 2150 8-8").unwrap(), plain);
    assert_eq!(Isbn10::parse("-3598215088 ").unwrap(), plain);
    let plain13 = Isbn13::parse("9783161484100").unwrap();
    assert_eq!(Isbn13::parse("978 3 16 148410 0").unwrap(), plain13);
}

#[test]
fn length_errors() {
    assert_eq!(Isbn10::parse(""), Err(ParseError::LengthError));
    assert_eq!(Isbn10::parse("123"), Err(ParseError::LengthError));
    assert_eq!(Isbn10::parse("35982150888"), Err(ParseError::LengthError));
    assert_eq!(Isbn13::parse("97831614841000"), Err(ParseError::LengthError));
    assert_eq!(Isbn13::parse(""), Err(ParseError::LengthError));
}

#[test]
fn character_errors() {
    // a letter where a digit is required
    assert_eq!(Isbn10::parse("35a8215088"), Err(ParseError::CharacterError));
    // X is only allowed as the last symbol
    assert_eq!(Isbn10::parse("X598215088"), Err(ParseError::CharacterError));
    // a check symbol that is neither digit nor X
    assert_eq!(Isbn10::parse("359821508Y"), Err(ParseError::CharacterError));
    // no letter check symbol exists in the thirteen-digit form
    assert_eq!(Isbn13::parse("978316148410X"), Err(ParseError::CharacterError));
}

#[test]
fn prefix_error() {
    assert_eq!(Isbn13::parse("9773161484100"), Err(ParseError::PrefixError));
    assert_eq!(Isbn13::parse("1283161484100"), Err(ParseError::PrefixError));
}

#[test]
fn checksum_errors() {
    assert_eq!(Isbn10::parse("3598215089"), Err(ParseError::ChecksumError));
    assert_eq!(Isbn13::parse("9783161484101"), Err(ParseError::ChecksumError));
}

#[test]
fn flipping_one_digit_breaks_the_checksum() {
    let good = "3598215088";
    for i in 0..10 {
        for d in b'0'..=b'9' {
            let mut bytes = good.as_bytes().to_vec();
            if bytes[i] == d {
                continue;
            }
            bytes[i] = d;
            let flipped = String::from_utf8(bytes).unwrap();
            assert_eq!(Isbn10::parse(&flipped), Err(ParseError::ChecksumError));
        }
    }
    let good13 = "9783161484100";
    for i in 3..13 {
        for d in b'0'..=b'9' {
            let mut bytes = good13.as_bytes().to_vec();
            if bytes[i] == d {
                continue;
            }
            bytes[i] = d;
            let flipped = String::from_utf8(bytes).unwrap();
            assert_eq!(Isbn13::parse(&flipped), Err(ParseError::ChecksumError));
        }
    }
}

#[test]
fn convert_prefixes_978_and_recomputes_the_check_digit() {
    let v = Isbn10::parse("0000000000").unwrap();
    assert_eq!(convert(&v).to_string(), "9780000000002");
    let w = Isbn10::parse("3598215088").unwrap();
    assert_eq!(convert(&w).to_string(), "9783598215087");
}

#[test]
fn conversion_back_restores_the_ten_symbol_form() {
    let v = Isbn10::parse("097522980X").unwrap();
    let back = v.to_isbn13().to_isbn10().unwrap();
    assert_eq!(back, v);
    assert_eq!(back.to_string(), "097522980X");
}

#[test]
fn a_979_value_has_no_ten_symbol_form() {
    let v = Isbn13::parse("9790000000001").unwrap();
    assert!(v.to_isbn10().is_none());
    // and it resolves as it is, without conversion
    let r = resolve("979-0-00000-000-1").unwrap();
    assert_eq!(r.to_string(), "9790000000001");
}

#[test]
fn classic_example_converts() {
    let v = Isbn10::parse("0-306-40615-2").unwrap();
    assert_eq!(v.to_isbn13().to_string(), "9780306406157");
    // the same registrant digits with the letter check symbol miss the mod-11 sum
    assert_eq!(Isbn10::parse("0-306-40615-X"), Err(ParseError::ChecksumError));
}

#[test]
fn resolve_prefers_the_ten_symbol_reading() {
    let r = resolve("3-598-21508-8").unwrap();
    assert_eq!(r.to_string(), "9783598215087");
}

#[test]
fn process_record_reports_valid_and_invalid() {
    match process_record(3, Some("3-598-21508-8")) {
        RecordOutcome::Valid { index, canonical, raw } => {
            assert_eq!(index, 3);
            assert_eq!(canonical, "9783598215087");
            assert_eq!(raw, "3-598-21508-8");
        },
        other => panic!("expected a valid outcome, got {:?}", other),
    }
    match process_record(4, Some("not-an-isbn")) {
        RecordOutcome::Invalid { index, raw, isbn10_error, isbn13_error } => {
            assert_eq!(index, 4);
            assert_eq!(raw, "not-an-isbn");
            // "notanisbn" after stripping: nine characters, so both lengths fail
            assert_eq!(isbn10_error, ParseError::LengthError);
            assert_eq!(isbn13_error, ParseError::LengthError);
        },
        other => panic!("expected an invalid outcome, got {:?}", other),
    }
}

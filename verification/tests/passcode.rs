use slkrd::error::FileTransferError;
use slkrd::passcode::{
    generate_passcode, is_alphabet_char, passcode_from_draws, passcode_matches,
    validate_passcode, CHARSET_LENGTH, PASSCODE_LENGTH,
};

#[test]
fn validate_accepts_six_letters_and_digits() {
    assert_eq!(validate_passcode("482913"), Ok(()));
    assert_eq!(validate_passcode("000000"), Ok(()));
    assert_eq!(validate_passcode("abc123"), Ok(()));
    assert_eq!(validate_passcode("ABCxyz"), Ok(()));
    assert_eq!(validate_passcode("zZ09aA"), Ok(()));
}

#[test]
fn validate_rejects_wrong_length() {
    assert_eq!(validate_passcode(""), Err(FileTransferError::InvalidPasscode));
    assert_eq!(validate_passcode("4"), Err(FileTransferError::InvalidPasscode));
    assert_eq!(validate_passcode("48291"), Err(FileTransferError::InvalidPasscode));
    assert_eq!(validate_passcode("4829130"), Err(FileTransferError::InvalidPasscode));
    assert_eq!(validate_passcode("482913482913"), Err(FileTransferError::InvalidPasscode));
}

#[test]
fn validate_rejects_characters_outside_the_alphabet() {
    assert_eq!(validate_passcode("48 913"), Err(FileTransferError::InvalidPasscode));
    assert_eq!(validate_passcode("48291!"), Err(FileTransferError::InvalidPasscode));
    assert_eq!(validate_passcode("-82913"), Err(FileTransferError::InvalidPasscode));
    assert_eq!(validate_passcode("48_913"), Err(FileTransferError::InvalidPasscode));
    assert_eq!(validate_passcode("48291\n"), Err(FileTransferError::InvalidPasscode));
    assert_eq!(validate_passcode("/82913"), Err(FileTransferError::InvalidPasscode));
    assert_eq!(validate_passcode(":82913"), Err(FileTransferError::InvalidPasscode));
    assert_eq!(validate_passcode("@82913"), Err(FileTransferError::InvalidPasscode));
    assert_eq!(validate_passcode("[82913"), Err(FileTransferError::InvalidPasscode));
    assert_eq!(validate_passcode("`82913"), Err(FileTransferError::InvalidPasscode));
    assert_eq!(validate_passcode("{82913"), Err(FileTransferError::InvalidPasscode));
}

#[test]
fn validate_rejects_letters_and_digits_beyond_ascii() {
    // six characters each, none of them ASCII
    assert_eq!(validate_passcode("éééééé"), Err(FileTransferError::InvalidPasscode));
    assert_eq!(validate_passcode("１２３４５６"), Err(FileTransferError::InvalidPasscode));
    // six bytes, three characters
    assert_eq!(validate_passcode("ééé"), Err(FileTransferError::InvalidPasscode));
    // five ASCII characters and one that is not
    assert_eq!(validate_passcode("48291é"), Err(FileTransferError::InvalidPasscode));
}

#[test]
fn alphabet_is_ascii_letters_and_digits() {
    for code in 0u32..0x300 {
        let c = char::from_u32(code).unwrap();
        assert_eq!(is_alphabet_char(c), c.is_ascii_alphanumeric(), "{:?}", c);
    }
}

#[test]
fn charset_is_the_digits_from_one_to_zero() {
    let draws: Vec<usize> = (0..CHARSET_LENGTH).collect();
    assert_eq!(passcode_from_draws(&draws), "1234567890");
}

#[test]
fn draws_spell_the_passcode() {
    assert_eq!(passcode_from_draws(&vec![3, 7, 1, 8, 0, 2]), "482913");
    assert_eq!(passcode_from_draws(&vec![0, 0, 0, 0, 0, 0]), "111111");
    assert_eq!(passcode_from_draws(&vec![9, 8, 7, 6, 5, 4]), "098765");
    assert_eq!(passcode_from_draws(&vec![]), "");
}

#[test]
fn draws_wrap_around_the_charset() {
    assert_eq!(passcode_from_draws(&vec![10, 13, 29]), "140");
    assert_eq!(passcode_from_draws(&vec![19]), "0");
}

#[test]
fn generated_passcodes_are_six_digits_and_valid() {
    for _ in 0..200 {
        let passcode = generate_passcode();
        assert_eq!(passcode.chars().count(), PASSCODE_LENGTH);
        assert!(passcode.chars().all(|c| c.is_ascii_digit()), "{}", passcode);
        assert_eq!(validate_passcode(&passcode), Ok(()));
    }
}

#[test]
fn generated_passcodes_differ() {
    let first = generate_passcode();
    let mut seen_other = false;
    let mut seen_not_all_ones = first != "111111";
    for _ in 0..50 {
        let next = generate_passcode();
        if next != first {
            seen_other = true;
        }
        if next != "111111" {
            seen_not_all_ones = true;
        }
    }
    assert!(seen_other);
    assert!(seen_not_all_ones);
}

#[test]
fn generated_passcodes_use_every_digit() {
    let mut seen = [false; 10];
    for _ in 0..500 {
        for c in generate_passcode().chars() {
            seen[c.to_digit(10).unwrap() as usize] = true;
        }
    }
    assert!(seen.iter().all(|s| *s));
}

#[test]
fn passcode_matches_byte_for_byte() {
    let expected = b"482913".to_vec();
    assert!(passcode_matches(&expected, &b"482913".to_vec()));
    assert!(!passcode_matches(&expected, &b"482914".to_vec()));
    assert!(!passcode_matches(&expected, &b"48291".to_vec()));
    assert!(!passcode_matches(&expected, &b"4829130".to_vec()));
    assert!(!passcode_matches(&expected, &Vec::new()));
    assert!(passcode_matches(&Vec::new(), &Vec::new()));
    assert!(!passcode_matches(&b"abcdef".to_vec(), &b"ABCDEF".to_vec()));
}

use urlnao::error::UploadError;
use urlnao::file::get_sha256_of_file;
use urlnao::random::random_short_id;
use urlnao::text::{to_hex, well_formed_id};
use urlnao::util::{new_random_uuid, prepend_tmp_dir, prepend_upload_dir};

#[test]
fn empty_content_has_no_checksum() {
    assert_eq!(get_sha256_of_file(b""), Err(UploadError::EmptyUpload));
    assert_eq!(get_sha256_of_file(&Vec::new()), Err(UploadError::EmptyUpload));
}

#[test]
fn checksums_of_known_contents() {
    assert_eq!(
        get_sha256_of_file(b"abc"),
        Ok("ba7816bf8f01cfea414140de5dae2223b00361a396177a9cb410ff61f20015ad".to_string())
    );
    assert_eq!(
        get_sha256_of_file(b"hello"),
        Ok("2cf24dba5fb0a30e26e83b2ac5b9e29e1b161e5c1fa7425e73043362938b9824".to_string())
    );
    assert_eq!(
        get_sha256_of_file(&[0u8]),
        Ok("6e340b9cffb37a989ca544e6bb780a2c78901d3fb33738768511a30617afa01d".to_string())
    );
}

#[test]
fn hexadecimal_is_lower_case_with_two_digits_a_byte() {
    assert_eq!(to_hex(&[]), "");
    assert_eq!(to_hex(&[0x00, 0x0f, 0xa5, 0xff]), "000fa5ff");
    assert_eq!(to_hex(&[0x09, 0x0a, 0x10, 0x9f, 0xf0]), "090a109ff0");
    assert_eq!(to_hex(b"hello"), "68656c6c6f");
}

#[test]
fn short_identifiers_are_three_to_eight_letters_and_digits() {
    assert!(well_formed_id(b"abc"));
    assert!(well_formed_id(b"aB3"));
    assert!(well_formed_id(b"abcdefgh"));
    assert!(well_formed_id(b"09AZaz"));
    assert!(!well_formed_id(b""));
    assert!(!well_formed_id(b"ab"));
    assert!(!well_formed_id(b"abcdefghi"));
    assert!(!well_formed_id(b"ab-"));
    assert!(!well_formed_id(b"a/b"));
    assert!(!well_formed_id(b"ab c"));
    assert!(!well_formed_id(b"ab@"));
    assert!(!well_formed_id(b"ab["));
    assert!(!well_formed_id(b"ab`"));
    assert!(!well_formed_id(b"ab{"));
    assert!(!well_formed_id(b"ab:"));
    assert!(!well_formed_id("\u{e9}\u{e9}".as_bytes()));
}

#[test]
fn paths_are_prefixed_with_their_directory() {
    assert_eq!(prepend_tmp_dir("1234"), "tmp/1234");
    assert_eq!(prepend_upload_dir("abcd"), "uploads/abcd");
    assert_eq!(prepend_tmp_dir(""), "tmp/");
    assert_eq!(prepend_upload_dir("a b"), "uploads/a b");
}

#[test]
fn staged_names_are_hyphenated_uuids() {
    let name = new_random_uuid();
    assert_eq!(name.len(), 36);
    for (i, c) in name.chars().enumerate() {
        if i == 8 || i == 13 || i == 18 || i == 23 {
            assert_eq!(c, '-');
        } else {
            assert!(c.is_ascii_digit() || ('a'..='f').contains(&c));
        }
    }
    assert_eq!(name.as_bytes()[14], b'4');
    assert!(b"89ab".contains(&name.as_bytes()[19]));
    assert_ne!(new_random_uuid(), name);
}

#[test]
fn random_candidates_have_the_form_of_identifiers() {
    for _ in 0..200 {
        let id = random_short_id();
        assert!(well_formed_id(id.as_bytes()));
    }
}

#[test]
fn random_candidates_vary_in_length() {
    let mut seen = [false; 9];
    for _ in 0..2000 {
        seen[random_short_id().len()] = true;
    }
    assert_eq!(seen, [false, false, false, true, true, true, true, true, true]);
}

#[test]
fn errors_describe_themselves() {
    assert_eq!(UploadError::StoreUnavailable.describe(), "the store is unavailable");
    assert_eq!(UploadError::AllocationExhausted.describe(), "failed to find a free short id");
    assert_eq!(UploadError::EncodingError.describe(), "failed to convert query result to string");
    assert_eq!(UploadError::NotFound.describe(), "not found");
    assert_eq!(UploadError::IoError.describe(), "failed to store the file");
    assert_eq!(UploadError::EmptyUpload.describe(), "the upload is empty");
}

#[test]
fn checksums_are_sixty_four_hexadecimal_digits() {
    for content in [&b"a"[..], &b"hello"[..], &[0u8; 1000][..]] {
        let checksum = get_sha256_of_file(content).unwrap();
        assert_eq!(checksum.len(), 64);
        assert!(checksum.chars().all(|c| c.is_ascii_digit() || ('a'..='f').contains(&c)));
    }
}

use clawchat::auth::{encode, generate_key, load_or_create_key, temporary_name, KeyChoice};

#[test]
fn bytes_are_encoded_in_hexadecimal() {
    assert_eq!(encode(vec![]), "");
    assert_eq!(encode(vec![0, 1, 15, 16, 159, 160, 255]), "00010f109fa0ff");
    for b in 0..=255u8 {
        assert_eq!(encode(vec![b]), format!("{:02x}", b));
    }
}

#[test]
fn keys_are_random_and_long() {
    let a = generate_key();
    let b = generate_key();
    assert_eq!(a.len(), 64);
    assert!(a.chars().all(|c| c.is_ascii_hexdigit() && !c.is_ascii_uppercase()));
    assert_ne!(a, b);
}

#[test]
fn a_key_file_is_kept_or_replaced() {
    match load_or_create_key(Some("  secret-word \n")) {
        KeyChoice::Keep(key) => assert_eq!(key, "secret-word"),
        KeyChoice::Create(_) => panic!("the key must be kept"),
    }
    for existing in [None, Some(""), Some(" \n\t ")] {
        match load_or_create_key(existing) {
            KeyChoice::Create(key) => assert_eq!(key.len(), 64),
            KeyChoice::Keep(_) => panic!("there is no key to keep"),
        }
    }
}

#[test]
fn temporary_files_are_hidden_and_marked() {
    assert_eq!(
        temporary_name(Some("auth.key"), 42, "0123456789abcdef"),
        ".auth.key.42.01234567.tmp"
    );
    assert_eq!(temporary_name(None, 0, "01234567"), ".auth.key.0.01234567.tmp");
}

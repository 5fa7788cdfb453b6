use monitor_input::cipher::{can_decrypt, decrypt, encrypt};
use monitor_input::length_field::{accurate_len, bit_of_num};
use monitor_input::protocol::{message_key, open_message, seal_message};

fn key() -> Vec<u8> {
    b"1357924680".to_vec()
}

#[test]
fn encrypt_pads_masks_and_reverses() {
    assert_eq!(encrypt(&b"hi".to_vec(), &key()), vec![48, 56, 54, 54, 50, 57, 55, 53, 90, 89]);
}

#[test]
fn encrypt_empty_message_is_one_key_length() {
    assert_eq!(encrypt(&Vec::new(), &key()), vec![48, 56, 54, 52, 50, 57, 55, 53, 51, 49]);
}

#[test]
fn encrypt_with_one_byte_key() {
    assert_eq!(encrypt(&b"abc".to_vec(), &vec![7]), vec![7, 7, 7, 4, 100, 101, 102]);
}

#[test]
fn encrypt_full_key_length_message_adds_a_block() {
    let sealed = encrypt(&b"0123456789".to_vec(), &key());
    assert_eq!(
        sealed,
        vec![48, 56, 54, 62, 50, 57, 55, 53, 51, 49, 9, 0, 1, 2, 7, 13, 4, 7, 2, 1]
    );
    assert_eq!(sealed.len() % 10, 0);
}

#[test]
fn decrypt_inverts_encrypt() {
    for text in [&b""[..], b"hi", b"{\"length\":12}", b"0123456789", b"a longer message with 'quotes'"] {
        let sealed = encrypt(&text.to_vec(), &key());
        assert!(can_decrypt(&sealed, &key()));
        assert_eq!(decrypt(&sealed, &key()), text.to_vec());
    }
}

#[test]
fn decrypt_reads_known_block() {
    assert_eq!(decrypt(&vec![48, 56, 54, 54, 50, 57, 55, 53, 90, 89], &key()), b"hi".to_vec());
}

#[test]
fn decrypt_ignores_bytes_beyond_whole_key_lengths() {
    let mut sealed = encrypt(&b"hi".to_vec(), &key());
    sealed.insert(0, 0xAA);
    sealed.insert(0, 0xBB);
    // the extra bytes come first on the wire, past the whole key lengths read
    // from the end, and are never unmasked
    assert!(can_decrypt(&sealed, &key()));
    assert_eq!(decrypt(&sealed, &key()), b"hi".to_vec());
}

#[test]
fn decrypt_is_undefined_without_room_for_the_trailer() {
    assert!(!can_decrypt(&vec![1, 2, 3], &key()));
    assert!(!can_decrypt(&vec![1, 2, 3, 4, 5, 6, 7, 8, 9, 10], &Vec::new()));
    assert!(!can_decrypt(&vec![0xff; 10], &key()));
}

#[test]
fn message_key_is_the_shared_digits() {
    assert_eq!(message_key(), b"1357924680".to_vec());
}

#[test]
fn sealed_messages_open() {
    let text = b"{\"length\":0,\"request\":{}}".to_vec();
    let wire = seal_message(&text);
    assert_eq!(open_message(&wire), Some(text));
    assert_eq!(open_message(&vec![1, 2]), None);
}

#[test]
fn bit_of_num_counts_decimal_digits() {
    assert_eq!(bit_of_num(0), 0);
    assert_eq!(bit_of_num(7), 1);
    assert_eq!(bit_of_num(10), 2);
    assert_eq!(bit_of_num(-345), 3);
    assert_eq!(bit_of_num(i32::MAX), 10);
    assert_eq!(bit_of_num(i32::MIN), 10);
}

#[test]
fn accurate_len_matches_known_values() {
    let cases = [
        (1, 1), (2, 2), (5, 5), (9, 10), (10, 11), (11, 12), (12, 13), (98, 99), (99, 101),
        (100, 102), (101, 103), (996, 998), (997, 1000), (998, 1001), (999, 1002),
        (1000, 1003), (9995, 9998), (9996, 9999), (-5, -5), (0, 0),
    ];
    for (len, expected) in cases {
        assert_eq!(accurate_len(len), expected, "len {}", len);
    }
}

#[test]
fn accurate_len_counts_its_own_digits() {
    for len in 1..20000 {
        let value = accurate_len(len);
        assert_eq!(value, len - 1 + value.to_string().len() as i32, "len {}", len);
    }
}

#[test]
fn accurate_len_near_the_largest_input() {
    let len = i32::MAX - 10;
    assert_eq!(accurate_len(len), len - 1 + 10);
}

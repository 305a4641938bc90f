use wardian_state::digest::{hex_prefix, lower_hex_chars, sha256};

#[test]
fn sha256_matches_the_standard_vectors() {
    let empty: String = lower_hex_chars(&sha256(b"")).into_iter().collect();
    assert_eq!(empty, "e3b0c44298fc1c149afbf4c8996fb92427ae41e4649b934ca495991b7852b855");
    let abc: String = lower_hex_chars(&sha256(b"abc")).into_iter().collect();
    assert_eq!(abc, "ba7816bf8f01cfea414140de5dae2223b00361a396177a9cb410ff61f20015ad");
}

#[test]
fn a_hex_prefix_keeps_the_leading_digits() {
    assert_eq!(hex_prefix(&[0xab, 0x01, 0xff], 4), "ab01");
    assert_eq!(hex_prefix(&[0xab, 0x01, 0xff], 6), "ab01ff");
}

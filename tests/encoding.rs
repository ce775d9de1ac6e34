use granex::base32::base32encode;
use granex::key_file::{display_address, secret_key_file_contents, SECRET_KEY_FILE_NAME};

#[test]
fn base32_rfc4648_vectors() {
    assert_eq!(base32encode(b""), "");
    assert_eq!(base32encode(b"f"), "my");
    assert_eq!(base32encode(b"fo"), "mzxq");
    assert_eq!(base32encode(b"foo"), "mzxw6");
    assert_eq!(base32encode(b"foob"), "mzxw6yq");
    assert_eq!(base32encode(b"fooba"), "mzxw6ytb");
    assert_eq!(base32encode(b"foobar"), "mzxw6ytboi");
}

#[test]
fn base32_all_ones_uses_last_symbols() {
    assert_eq!(base32encode(&[0xff; 7]), "77777777777q");
}

#[test]
fn base32_golden_payload() {
    let mut payload = vec![0u8; 34];
    payload.push(3);
    let text = base32encode(&payload);
    assert_eq!(text, "aaaaaaaaaaaaaaaaaaaaaaaaaaaaaaaaaaaaaaaaaaaaaaaaaaaaaaad");
}

#[test]
fn base32_is_deterministic() {
    let data: Vec<u8> = (0u8..35).map(|b| b.wrapping_mul(37)).collect();
    assert_eq!(base32encode(&data), base32encode(&data));
}

#[test]
fn base32_35_bytes_give_56_symbols() {
    for fill in [0u8, 1, 0x5a, 0xa5, 0xff] {
        let data: Vec<u8> = (0u8..35).map(|b| b ^ fill).collect();
        let text = base32encode(&data);
        assert_eq!(text.len(), 56);
        assert!(text.chars().all(|c| c.is_ascii_lowercase() || ('2'..='7').contains(&c)));
    }
}

#[test]
fn secret_key_file_layout() {
    let mut secret = [0u8; 64];
    for (i, b) in secret.iter_mut().enumerate() {
        *b = i as u8 + 1;
    }
    let bytes = secret_key_file_contents(&secret);
    assert_eq!(bytes.len(), 96);
    assert_eq!(&bytes[..32], b"== ed25519v1-secret: type0 ==\0\0\0");
    assert_eq!(&bytes[32..], &secret[..]);
    assert_eq!(SECRET_KEY_FILE_NAME, "hs_ed25519_secret_key");
}

#[test]
fn display_address_appends_suffix() {
    assert_eq!(display_address("abc"), "abc.onion");
}

use nix_update_git::utils::nar::{digest_to_nar_hash, hex_encode};
use nix_update_git::utils::flat_hash;

#[test]
fn flat_hash_of_known_content() {
    let h = flat_hash(b"hello world\n");
    assert_eq!(h.sri, "sha256-qUiQTy8PR5uPgZdpSzAYSw0u0cHNKh7A+4XSmaGSpEc=");
    assert_eq!(h.hex, "a948904f2f0f479b8f8197694b30184b0d2ed1c1cd2a1ec0fb85d299a192a447");
    assert_eq!(h.nix32.len(), 52);
}

#[test]
fn flat_hash_of_nothing() {
    let h = flat_hash(b"");
    assert_eq!(h.sri, "sha256-47DEQpj8HBSa+/TImW+5JCeuQeRkm5NMpJWZG3hSuFU=");
    assert_eq!(h.hex, "e3b0c44298fc1c149afbf4c8996fb92427ae41e4649b934ca495991b7852b855");
}

#[test]
fn nix_base32_of_a_known_digest() {
    let digest: Vec<u8> = (0..32)
        .map(|i| u8::from_str_radix(&"ab335240fd942ab8191c5e628cd4ff3903c577bda961fb75df08e0303a00527b"[2 * i..2 * i + 2], 16).unwrap())
        .collect();
    let h = digest_to_nar_hash(&digest);
    assert_eq!(h.nix32, "0ysj00x31q08vxsznqd9pmvwa0rrzza8qqjy3hcvhallzm054cxb");
    assert_eq!(h.hex, "ab335240fd942ab8191c5e628cd4ff3903c577bda961fb75df08e0303a00527b");
}

#[test]
fn hex_encode_pads_each_byte() {
    assert_eq!(hex_encode(&[0, 15, 16, 255]), "000f10ff");
    assert_eq!(hex_encode(&[]), "");
}

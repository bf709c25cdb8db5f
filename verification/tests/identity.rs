use ahandd::gateway::compute_hash;
use ahandd::identity::{build_auth_payload, derive_device_id, encode, DeviceIdentity, IdentityError};

const SECRET: [u8; 32] = [
    157, 97, 177, 157, 239, 253, 90, 96, 186, 132, 74, 244, 146, 236, 44, 196, 68, 73, 197, 105, 123, 50, 105, 25, 112,
    59, 172, 3, 28, 174, 127, 96,
];

#[test]
fn hex_is_lowercase_two_digits_per_byte() {
    assert_eq!(encode(&[0x00, 0x0f, 0xa0, 0xff]), "000fa0ff");
    assert_eq!(encode(&[]), "");
}

#[test]
fn device_id_is_the_hash_of_the_public_key() {
    let id = DeviceIdentity::generate(SECRET);
    assert_eq!(encode(&id.public_key_raw()), "d75a980182b10ab7d54bfed3c964073a0ee172f3daa62325af021a68f707511a");
    assert_eq!(id.device_id, "21fe31dfa154a261626bf854046fd2271b7bed4b6abe45aa58877ef47f9721b9");
    assert_eq!(derive_device_id(&id.public_key), id.device_id);
    assert_eq!(id.public_key_base64url(), "11qYAYKxCrfVS_7TyWQHOg7hcvPapiMlrwIaaPcHURo");
}

#[test]
fn signature_is_base64url_without_padding() {
    let id = DeviceIdentity::generate(SECRET);
    assert_eq!(
        id.sign(""),
        "5VZDAMNgrHKQhuLMgG6CioSHfx645dl02HPgZSJJAVVfuIIVkKM7rMYeOXAc-bRr0lv18FlbviRlUUFDjnoQCw"
    );
    assert_ne!(id.sign("a"), id.sign(""));
}

#[test]
fn content_hash_is_sha256_in_hex() {
    assert_eq!(compute_hash(""), "e3b0c44298fc1c149afbf4c8996fb92427ae41e4649b934ca495991b7852b855");
    assert_eq!(compute_hash("abc"), "ba7816bf8f01cfea414140de5dae2223b00361a396177a9cb410ff61f20015ad");
}

#[test]
fn auth_payload_versions() {
    let scopes = vec!["a".to_string(), "b".to_string()];
    assert_eq!(
        build_auth_payload("dev", "cli", "node", "role", &scopes, 1234, Some("tok"), Some("n1")),
        "v2|dev|cli|node|role|a,b|1234|tok|n1"
    );
    assert_eq!(
        build_auth_payload("dev", "cli", "node", "role", &scopes, 0, None, None),
        "v1|dev|cli|node|role|a,b|0|"
    );
    assert_eq!(
        build_auth_payload("dev", "cli", "node", "role", &[], u64::MAX, None, Some("")),
        "v2|dev|cli|node|role||18446744073709551615||"
    );
}

#[test]
fn stored_identity_is_checked() {
    let id = DeviceIdentity::from_stored(1, &SECRET.to_vec()).expect("a sound key");
    assert_eq!(id.secret_key, SECRET);
    assert_eq!(id.device_id, "21fe31dfa154a261626bf854046fd2271b7bed4b6abe45aa58877ef47f9721b9");
    assert_eq!(
        DeviceIdentity::from_stored(2, &SECRET.to_vec()).map(|i| i.device_id),
        Err(IdentityError::UnsupportedVersion(2))
    );
    assert_eq!(
        DeviceIdentity::from_stored(1, &vec![0u8; 31]).map(|i| i.device_id),
        Err(IdentityError::InvalidKeyLength(31))
    );
    assert_eq!(
        DeviceIdentity::from_stored(0, &Vec::new()).map(|i| i.device_id),
        Err(IdentityError::UnsupportedVersion(0))
    );
}

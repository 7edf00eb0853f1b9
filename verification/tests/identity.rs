use orpheus::identity::{node_key_path, NodeIdentity};

#[test]
fn node_id_is_hex_sha256_of_public_key() {
    let bytes = hex::decode("9d61b19deffd5a60ba844af492ec2cc44449c5697b326919703bac031cae7f60").unwrap();
    let mut key = [0u8; 32];
    key.copy_from_slice(&bytes);
    let node = NodeIdentity::from_signing_key(key);
    assert_eq!(node.id(), "21fe31dfa154a261626bf854046fd2271b7bed4b6abe45aa58877ef47f9721b9");
    assert_eq!(node.id().len(), 64);
    assert_eq!(node.signing_key(), &key);
}

#[test]
fn node_key_path_per_port() {
    assert_eq!(node_key_path("8080"), "src/node_key_8080");
    assert_eq!(node_key_path(""), "src/node_key_");
}

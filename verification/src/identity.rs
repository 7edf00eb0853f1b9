//! A node's identity: its Ed25519 signing key and the node id derived from the public key.
use vstd::prelude::*;
use crate::crypto;
use crate::crypto::{ed25519_public_key_of, hex_encode, sha256};
use crate::text;

verus! {

/// The node id of a signing key: lower-case hexadecimal SHA-256 of its public key.
pub open spec fn node_id_of(secret: Seq<u8>) -> Seq<char> {
    text::lower_hex(crypto::sha256_digest(crypto::ed25519_public_key(secret)))
}

/// Where the signing key of the node that listens on `port` is kept.
pub open spec fn node_key_path_of(port: Seq<char>) -> Seq<char> {
    "src/node_key_"@ + port
}

/// A node's signing key and id.
pub struct NodeIdentity {
    signing_key: [u8; 32],
    node_id: String,
}

impl NodeIdentity {
    #[verifier::type_invariant]
    spec fn id_matches_key(self) -> bool {
        self.node_id@ == node_id_of(self.signing_key@)
    }

    /// The secret signing key.
    pub closed spec fn secret(&self) -> Seq<u8> {
        self.signing_key@
    }

    /// The node id held.
    pub closed spec fn node_id_text(&self) -> Seq<char> {
        self.node_id@
    }

    /// The identity of the node that holds `signing_key`; its id is 64 hexadecimal digits.
    pub fn from_signing_key(signing_key: [u8; 32]) -> (identity: Self)
        ensures
            identity.secret() == signing_key@,
            node_id_of(signing_key@).len() == 64,
            identity.node_id_text() == text::lower_hex(
                crypto::sha256_digest(crypto::ed25519_public_key(signing_key@)),
            ),
            identity.node_id_text().len() == 64,
    {
        let public_key = ed25519_public_key_of(&signing_key);
        let digest = sha256(public_key.as_slice());
        let node_id = hex_encode(digest.as_slice());
        NodeIdentity { signing_key, node_id }
    }

    /// The node id.
    pub fn id(&self) -> (id: String)
        ensures
            id@ == node_id_of(self.secret()),
            id@ == self.node_id_text(),
            id@ == text::lower_hex(crypto::sha256_digest(crypto::ed25519_public_key(self.secret()))),
    {
        proof {
            use_type_invariant(self);
        }
        self.node_id.clone()
    }

    /// The secret signing key.
    pub fn signing_key(&self) -> (key: &[u8; 32])
        ensures
            key@ == self.secret(),
    {
        &self.signing_key
    }
}

/// A node id is the lower-case hexadecimal SHA-256 digest of the public key, so two signing keys
/// with the same public key give the same node id.
pub proof fn lemma_node_id_is_public_key_digest(secret: Seq<u8>, other: Seq<u8>)
    ensures
        node_id_of(secret) == text::lower_hex(crypto::sha256_digest(crypto::ed25519_public_key(secret))),
        crypto::ed25519_public_key(secret) == crypto::ed25519_public_key(other) ==> node_id_of(secret)
            == node_id_of(other),
{
}

/// Where the signing key of the node that listens on `port` is kept.
pub fn node_key_path(port: &str) -> (path: String)
    ensures
        path@ == node_key_path_of(port@),
        path@ == "src/node_key_"@ + port@,
{
    let mut path = "src/node_key_".to_owned();
    path.append(port);
    path
}

} // verus!

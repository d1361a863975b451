//! The identity a peer announces at start-up.

use vstd::prelude::*;

verus! {

/// The text form (base58) of the peer id that belongs to the ed25519 public
/// key with the 32 compressed bytes `key`, or `None` when `key` is not such a key.
pub uninterp spec fn ed25519_peer_id(key: Seq<u8>) -> Option<Seq<char>>;

/// Decodes `key` with `libp2p_identity::ed25519::PublicKey::try_from_bytes`,
/// derives its peer id with `PublicKey::to_peer_id` and renders it with
/// `PeerId::to_base58`. Claimed of the calls: the outcome is the function
/// `ed25519_peer_id` of the bytes, and a key that is not 32 bytes long is
/// rejected (the decoder first converts it to a 32-byte array).
#[verifier::external_body]
fn ed25519_peer_id_text(key: &[u8]) -> (r: Option<String>)
    ensures
        r is Some <==> ed25519_peer_id(key@) is Some,
        r matches Some(t) ==> ed25519_peer_id(key@) == Some(t@),
        key@.len() != 32 ==> r is None,
{
    match libp2p::identity::ed25519::PublicKey::try_from_bytes(key) {
        Ok(pk) => Some(libp2p::identity::PublicKey::from(pk).to_peer_id().to_base58()),
        Err(_) => None,
    }
}

/// The peer id to announce for the ed25519 public key `key`, as text.
pub fn local_peer_id(key: &[u8]) -> (r: Option<String>)
    ensures
        r is Some <==> ed25519_peer_id(key@) is Some,
        r matches Some(t) ==> ed25519_peer_id(key@) == Some(t@),
        key@.len() != 32 ==> r is None,
{
    ed25519_peer_id_text(key)
}

} // verus!

use learn_libp2p::peer::local_peer_id;
use libp2p::identity::Keypair;

#[test]
fn peer_id_matches_libp2p_for_generated_key() {
    let keypair = Keypair::generate_ed25519();
    let public = keypair.public();
    let raw = public.clone().try_into_ed25519().expect("ed25519").to_bytes();
    let id = local_peer_id(&raw).expect("valid key");
    assert_eq!(id, public.to_peer_id().to_base58());
    assert!(id.starts_with("12D3KooW"));
}

#[test]
fn peer_id_of_short_key_is_none() {
    assert_eq!(local_peer_id(&[0u8; 31]), None);
    assert_eq!(local_peer_id(&[]), None);
}

#[test]
fn peer_id_is_deterministic() {
    let keypair = Keypair::generate_ed25519();
    let raw = keypair.public().try_into_ed25519().expect("ed25519").to_bytes();
    assert_eq!(local_peer_id(&raw), local_peer_id(&raw));
}

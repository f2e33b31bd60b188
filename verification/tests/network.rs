use parking_lot::Mutex;
use polkadot_node::network::{make_consensus, make_status, Message, TestContext};
use polkadot_node::primitives::{SessionKey, H256};

fn session_key_message(parent_hash: &[u8], key: &[u8]) -> Vec<u8> {
    serde_json::to_vec(&("SessionKey", parent_hash, key)).unwrap()
}

#[test]
fn a_new_context_has_recorded_nothing() {
    let context = TestContext::<()>::default();
    assert!(context.disabled.is_empty());
    assert!(context.disconnected.is_empty());
    assert!(context.messages.is_empty());
    assert!(!context.has_message(1, &session_key_message(&[0; 32], &[1; 32])));
    assert!(!context.has_message(1, &[]));
}

#[test]
fn a_sent_message_is_found_by_peer_and_encoding() {
    let mut context = TestContext::<()>::default();
    let encoded = session_key_message(&[0; 32], &[1; 32]);
    context.send_message(1, Message::ChainSpecific(encoded.clone()));
    assert!(context.has_message(1, &encoded));
    assert!(!context.has_message(2, &encoded));
    assert!(!context.has_message(1, &session_key_message(&[0; 32], &[3; 32])));
    assert!(!context.has_message(1, &encoded[1..]));

    context.send_message(2, Message::ChainSpecific(session_key_message(&[0; 32], &[3; 32])));
    assert!(context.has_message(1, &encoded));
    assert!(context.has_message(2, &session_key_message(&[0; 32], &[3; 32])));
    assert!(!context.has_message(2, &encoded));
}

#[test]
fn other_messages_are_not_chain_specific() {
    let mut context = TestContext::<Vec<u8>>::default();
    context.send_message(1, Message::Other(vec![1, 2]));
    assert!(!context.has_message(1, &[1, 2]));
    assert_eq!(context.messages.len(), 1);
}

#[test]
fn peers_are_recorded_in_order() {
    let mut context = TestContext::<()>::default();
    context.disable_peer(3);
    context.disable_peer(1);
    context.disconnect_peer(2);
    context.disconnect_peer(2);
    assert_eq!(context.disabled, vec![3, 1]);
    assert_eq!(context.disconnected, vec![2, 2]);
    assert!(context.messages.is_empty());
}

#[test]
fn status_of_a_peer_at_genesis() {
    let status = make_status(vec![0], vec!["authority"]);
    assert_eq!(status.version, 1);
    assert_eq!(status.roles, vec!["authority"]);
    assert_eq!(status.best_number, 0);
    assert_eq!(status.best_hash, H256 { bytes: [0; 32] });
    assert_eq!(status.genesis_hash, H256 { bytes: [0; 32] });
    assert_eq!(status.chain_status, vec![0]);
}

#[test]
fn consensus_shares_its_knowledge() {
    let parent_hash = H256 { bytes: [0; 32] };
    let local_key = SessionKey { bytes: [1; 32] };
    let (consensus, knowledge) =
        make_consensus(Mutex::new(Vec::<u8>::new()), parent_hash, local_key);
    assert_eq!(consensus.parent_hash, parent_hash);
    assert_eq!(consensus.local_session_key.bytes, [1; 32]);
    assert!(consensus.session_keys.is_empty());
    knowledge.lock().push(4);
    assert_eq!(*consensus.knowledge.lock(), vec![4]);
}

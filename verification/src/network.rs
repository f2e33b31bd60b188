//! A network context that records what a protocol asks of it, and the values that a protocol is
//! exercised with.

use crate::primitives::{H256, SessionKey};
use std::collections::HashMap;
use std::sync::Arc;
use vstd::prelude::*;

verus! {

/// The number by which a peer is known.
pub type PeerId = usize;

/// A message of the network: that of a chain-specific protocol, in its encoding, or one of the
/// others.
#[derive(Debug)]
pub enum Message<M> {
    ChainSpecific(Vec<u8>),
    Other(M),
}

/// What a peer says of itself when it connects. `chain_status` is the encoded status of the
/// chain-specific protocol.
#[derive(Debug)]
pub struct FullStatus<R> {
    pub version: u32,
    pub roles: Vec<R>,
    pub best_number: u64,
    pub best_hash: H256,
    pub genesis_hash: H256,
    pub chain_status: Vec<u8>,
}

/// A round of consensus on top of a block. What is known of the candidates is shared with whoever
/// runs the round.
#[derive(Debug)]
pub struct CurrentConsensus<K> {
    pub knowledge: Arc<K>,
    pub parent_hash: H256,
    pub session_keys: HashMap<PeerId, SessionKey>,
    pub local_session_key: SessionKey,
}

/// A context that records which peers were disabled, which were disconnected, and which messages were
/// sent, each in the order in which it happened.
#[derive(Debug)]
pub struct TestContext<M> {
    pub disabled: Vec<PeerId>,
    pub disconnected: Vec<PeerId>,
    pub messages: Vec<(PeerId, Message<M>)>,
}

/// `sent` is a chain-specific message to the peer `to` whose encoding is `encoded`.
pub open spec fn is_message<M>(
    sent: (PeerId, Message<M>),
    to: PeerId,
    encoded: Seq<u8>,
) -> bool {
    sent.0 == to && (sent.1 matches Message::ChainSpecific(data) && data@ == encoded)
}

/// Among `sent` is a chain-specific message to the peer `to` whose encoding is `encoded`.
pub open spec fn holds_message<M>(
    sent: Seq<(PeerId, Message<M>)>,
    to: PeerId,
    encoded: Seq<u8>,
) -> bool {
    exists|i: int| 0 <= i < sent.len() && #[trigger] is_message(sent[i], to, encoded)
}

/// Whether two encodings are the same.
fn same_encoding(a: &Vec<u8>, b: &[u8]) -> (same: bool)
    ensures
        same == (a@ == b@),
{
    if a.len() != b.len() {
        return false;
    }
    let mut i: usize = 0;
    while i < a.len()
        invariant
            i <= a.len(),
            a@.len() == b@.len(),
            a@.take(i as int) =~= b@.take(i as int),
        decreases a.len() - i,
    {
        if a[i] != b[i] {
            return false;
        }
        i += 1;
    }
    assert(a@.take(i as int) =~= a@);
    assert(b@.take(i as int) =~= b@);
    true
}

impl<M> Default for TestContext<M> {
    /// A context with nothing recorded.
    fn default() -> (context: TestContext<M>)
        ensures
            context.disabled@ == Seq::<PeerId>::empty(),
            context.disconnected@ == Seq::<PeerId>::empty(),
            context.messages@ == Seq::<(PeerId, Message<M>)>::empty(),
    {
        TestContext { disabled: Vec::new(), disconnected: Vec::new(), messages: Vec::new() }
    }
}

impl<M> TestContext<M> {
    /// Record that a peer is disabled.
    pub fn disable_peer(&mut self, peer: PeerId)
        ensures
            final(self).disabled@ == old(self).disabled@.push(peer),
            final(self).disconnected == old(self).disconnected,
            final(self).messages == old(self).messages,
    {
        self.disabled.push(peer);
    }

    /// Record that a peer is disconnected.
    pub fn disconnect_peer(&mut self, peer: PeerId)
        ensures
            final(self).disabled == old(self).disabled,
            final(self).disconnected@ == old(self).disconnected@.push(peer),
            final(self).messages == old(self).messages,
    {
        self.disconnected.push(peer);
    }

    /// Record that a message is sent to a peer.
    pub fn send_message(&mut self, peer_id: PeerId, data: Message<M>)
        ensures
            final(self).disabled == old(self).disabled,
            final(self).disconnected == old(self).disconnected,
            final(self).messages@ == old(self).messages@.push((peer_id, data)),
    {
        self.messages.push((peer_id, data));
    }

    /// Whether a chain-specific message with this encoding was sent to the peer `to`.
    pub fn has_message(&self, to: PeerId, encoded: &[u8]) -> (sent: bool)
        ensures
            sent == holds_message(self.messages@, to, encoded@),
            sent <==> exists|i: int|
                {
                    &&& 0 <= i < self.messages@.len()
                    &&& (#[trigger] self.messages@[i]).0 == to
                    &&& self.messages@[i].1 matches Message::ChainSpecific(data)
                    &&& data@ == encoded@
                },
    {
        let mut i: usize = 0;
        while i < self.messages.len()
            invariant
                i <= self.messages.len(),
                forall|j: int|
                    0 <= j < i ==> !is_message(#[trigger] self.messages@[j], to, encoded@),
            decreases self.messages.len() - i,
        {
            let matching: bool = match &self.messages[i].1 {
                Message::ChainSpecific(data) => self.messages[i].0 == to && same_encoding(
                    data,
                    encoded,
                ),
                Message::Other(_) => false,
            };
            assert(matching == is_message(self.messages@[i as int], to, encoded@));
            if matching {
                return true;
            }
            i += 1;
        }
        false
    }
}

/// The status of a peer with these roles that is at the genesis block, whose hash is zero.
/// `chain_status` is the encoded status of the chain-specific protocol.
pub fn make_status<R>(chain_status: Vec<u8>, roles: Vec<R>) -> (status: FullStatus<R>)
    ensures
        status.version == 1,
        status.roles == roles,
        status.best_number == 0,
        status.best_hash@ == Seq::new(32, |i: int| 0u8),
        status.genesis_hash@ == Seq::new(32, |i: int| 0u8),
        forall|i: int| 0 <= i < 32 ==> status.best_hash.bytes@[i] == 0,
        forall|i: int| 0 <= i < 32 ==> status.genesis_hash.bytes@[i] == 0,
        status.chain_status == chain_status,
{
    FullStatus {
        version: 1,
        roles,
        best_number: 0,
        best_hash: H256::default(),
        genesis_hash: H256::default(),
        chain_status,
    }
}

/// A round of consensus on top of `parent_hash` in which no session key is known but the local one,
/// and the knowledge that it shares.
pub fn make_consensus<K>(
    knowledge: K,
    parent_hash: H256,
    local_key: SessionKey,
) -> (made: (CurrentConsensus<K>, Arc<K>))
    ensures
        made.0.knowledge == made.1,
        *made.1 == knowledge,
        made.0.parent_hash == parent_hash,
        made.0.session_keys@ == Map::<PeerId, SessionKey>::empty(),
        made.0.local_session_key == local_key,
{
    let knowledge = Arc::new(knowledge);
    let consensus = CurrentConsensus {
        knowledge: knowledge.clone(),
        parent_hash,
        session_keys: HashMap::new(),
        local_session_key: local_key,
    };
    (consensus, knowledge)
}

/// A message that was sent is found, and one that was found stays so, whatever is sent afterwards:
/// sending finds the message that is sent and nothing else besides.
pub proof fn law_sending_finds_exactly_what_is_sent<M>(
    sent: Seq<(PeerId, Message<M>)>,
    message: (PeerId, Message<M>),
    to: PeerId,
    encoded: Seq<u8>,
)
    ensures
        holds_message(sent.push(message), to, encoded) <==> holds_message(sent, to, encoded)
            || is_message(message, to, encoded),
{
    let after = sent.push(message);
    if holds_message(sent, to, encoded) {
        let i = choose|i: int| 0 <= i < sent.len() && #[trigger] is_message(sent[i], to, encoded);
        assert(is_message(after[i], to, encoded));
    }
    if is_message(message, to, encoded) {
        assert(is_message(after[sent.len() as int], to, encoded));
    }
    if holds_message(after, to, encoded) {
        let i = choose|i: int| 0 <= i < after.len() && #[trigger] is_message(after[i], to, encoded);
        if i < sent.len() {
            assert(is_message(sent[i], to, encoded));
        }
    }
}

/// Where no message was sent, none is found.
pub proof fn law_nothing_is_found_at_first<M>(to: PeerId, encoded: Seq<u8>)
    ensures
        !holds_message(Seq::<(PeerId, Message<M>)>::empty(), to, encoded),
{
}

/// Sending a chain-specific message to a peer makes exactly that encoding be found for exactly that
/// peer, besides what was found before. Sending any other message changes nothing.
pub proof fn law_found_for_the_peer_that_it_was_sent_to<M>(
    sent: Seq<(PeerId, Message<M>)>,
    peer: PeerId,
    data: Vec<u8>,
    other: M,
    to: PeerId,
    encoded: Seq<u8>,
)
    ensures
        holds_message(sent.push((peer, Message::ChainSpecific(data))), to, encoded) <==> (
        holds_message(sent, to, encoded) || (to == peer && encoded == data@)),
        holds_message(sent.push((peer, Message::Other(other))), to, encoded) <==> holds_message(
            sent,
            to,
            encoded,
        ),
{
    law_sending_finds_exactly_what_is_sent(
        sent,
        (peer, Message::ChainSpecific(data)),
        to,
        encoded,
    );
    law_sending_finds_exactly_what_is_sent(sent, (peer, Message::Other(other)), to, encoded);
}

/// After one message in an empty context, it is found for the peer that it was sent to and for no
/// other, and no other message is found.
pub proof fn law_one_message_is_found_for_one_peer<M>(
    peer: PeerId,
    data: Vec<u8>,
    to: PeerId,
    encoded: Seq<u8>,
)
    ensures
        holds_message(
            Seq::<(PeerId, Message<M>)>::empty().push((peer, Message::ChainSpecific(data))),
            to,
            encoded,
        ) <==> to == peer && encoded == data@,
{
    let sent = Seq::<(PeerId, Message<M>)>::empty();
    law_sending_finds_exactly_what_is_sent(
        sent,
        (peer, Message::ChainSpecific(data)),
        to,
        encoded,
    );
    law_nothing_is_found_at_first::<M>(to, encoded);
}

} // verus!

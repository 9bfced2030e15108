//! The connections that are open, each with its address and the channel that
//! leads to it.

use crate::server::bonzoendpoint::{is_name, BonzoEndpoint, EndpointView};
use crate::server::channel::{connected, open_channel};
use futures_channel::mpsc::{UnboundedReceiver, UnboundedSender};
use std::collections::HashMap;
use tungstenite::protocol::Message;
use vstd::prelude::*;
use vstd::std_specs::iter::IteratorSpec;

verus! {

/// The connections that a message from `sender` reaches among `peers`: every
/// one but `exclude` whose address the routing rule admits. A sender without a
/// room, which is what a connection with a malformed path is, reaches nobody.
pub open spec fn eligible(peers: Map<u64, EndpointView>, sender: EndpointView, exclude: u64) -> Set<
    u64,
> {
    Set::new(
        |id: u64|
            is_name(sender.room) && peers.contains_key(id) && id != exclude && sender.can_send_to(
                peers[id],
            ),
    )
}

/// The identities in a list of peers, in the order of the list.
pub open spec fn peer_ids(peers: Seq<(u64, &UnboundedSender<Message>)>) -> Seq<u64> {
    peers.map_values(|peer: (u64, &UnboundedSender<Message>)| peer.0)
}

/// What became of one delivery: the peer, and whether its channel took the message.
#[derive(Clone, Copy, Debug, PartialEq, Eq, Structural)]
pub struct Attempt {
    pub peer: u64,
    pub accepted: bool,
}

/// The peers of a list of deliveries, in the order of the list.
pub open spec fn attempted(attempts: Seq<Attempt>) -> Seq<u64> {
    attempts.map_values(|attempt: Attempt| attempt.peer)
}

/// The open connections, by identity. Each has an address and a channel; the
/// two maps that hold them always have the same keys.
pub struct ConnectionRegistry {
    channels: HashMap<u64, UnboundedSender<Message>>,
    addresses: HashMap<u64, BonzoEndpoint>,
}

impl View for ConnectionRegistry {
    type V = Map<u64, EndpointView>;

    /// The address of each registered connection.
    closed spec fn view(&self) -> Map<u64, EndpointView> {
        self.addresses@.map_values(|address: BonzoEndpoint| address@)
    }
}

impl ConnectionRegistry {
    #[verifier::type_invariant]
    spec fn in_lockstep(self) -> bool {
        self.channels@.dom() =~= self.addresses@.dom()
    }

    /// The sending end of each registered connection's channel.
    pub closed spec fn channels(&self) -> Map<u64, UnboundedSender<Message>> {
        self.channels@
    }

    /// A registry without connections.
    pub fn new() -> (registry: Self)
        ensures
            registry@ == Map::<u64, EndpointView>::empty(),
            registry.channels() == Map::<u64, UnboundedSender<Message>>::empty(),
    {
        let registry = ConnectionRegistry { channels: HashMap::new(), addresses: HashMap::new() };
        assert(registry@ =~= Map::<u64, EndpointView>::empty());
        registry
    }

    /// Whether a connection with this identity is registered.
    pub fn is_registered(&self, id: u64) -> (found: bool)
        ensures
            found == self@.contains_key(id),
    {
        broadcast use vstd::std_specs::hash::group_hash_axioms;

        self.addresses.contains_key(&id)
    }

    /// Registers a connection under `id` with its address, and opens the channel
    /// over which it will receive. Returns the receiving end; the registry keeps
    /// the sending end. A connection registered under `id` before is replaced.
    pub fn register(&mut self, id: u64, address: BonzoEndpoint) -> (inbox: UnboundedReceiver<
        Message,
    >)
        ensures
            final(self)@ == old(self)@.insert(id, address@),
            final(self).channels().dom() == final(self)@.dom(),
            final(self).channels().remove(id) == old(self).channels().remove(id),
            connected(final(self).channels()[id], inbox),
    {
        broadcast use vstd::std_specs::hash::group_hash_axioms;

        let (outbox, inbox) = open_channel();
        let mut current = ConnectionRegistry::new();
        std::mem::swap(self, &mut current);
        proof {
            use_type_invariant(&current);
        }
        let ConnectionRegistry { mut channels, mut addresses } = current;
        channels.insert(id, outbox);
        addresses.insert(id, address);
        *self = ConnectionRegistry { channels, addresses };
        assert(self@ =~= old(self)@.insert(id, address@));
        assert(self.channels().dom() =~= self@.dom());
        assert(self.channels().remove(id) =~= old(self).channels().remove(id));
        inbox
    }

    /// Removes the connection registered under `id`, with its channel. Does
    /// nothing if there is none.
    pub fn deregister(&mut self, id: u64)
        ensures
            final(self)@ == old(self)@.remove(id),
            final(self).channels().dom() == final(self)@.dom(),
            final(self).channels() == old(self).channels().remove(id),
    {
        broadcast use vstd::std_specs::hash::group_hash_axioms;

        let mut current = ConnectionRegistry::new();
        std::mem::swap(self, &mut current);
        proof {
            use_type_invariant(&current);
        }
        let ConnectionRegistry { mut channels, mut addresses } = current;
        channels.remove(&id);
        addresses.remove(&id);
        *self = ConnectionRegistry { channels, addresses };
        assert(self@ =~= old(self)@.remove(id));
        assert(self.channels().dom() =~= self@.dom());
        assert(self.channels() =~= old(self).channels().remove(id));
    }

    /// The peers that a message from `sender` is delivered to, each with the
    /// sending end of its channel: every registered connection but `exclude`
    /// whose address the routing rule admits, each once, in no particular order.
    /// For a sender without a room the list is empty.
    pub fn eligible_peers(&self, sender: &BonzoEndpoint, exclude: u64) -> (peers: Vec<
        (u64, &UnboundedSender<Message>),
    >)
        ensures
            peer_ids(peers@).no_duplicates(),
            peer_ids(peers@).to_set() == eligible(self@, sender@, exclude),
            !is_name(sender@.room) ==> peers@.len() == 0,
            forall|i: int|
                0 <= i < peers.len() ==> self.channels().contains_key(
                    (#[trigger] peers[i]).0,
                ) && *peers[i].1 == self.channels()[peers[i].0],
    {
        broadcast use vstd::std_specs::hash::group_hash_axioms;

        proof {
            use_type_invariant(self);
        }
        let mut peers: Vec<(u64, &UnboundedSender<Message>)> = Vec::new();
        if sender.room().is_empty() {
            assert(peer_ids(peers@).to_set() =~= eligible(self@, sender@, exclude));
            return peers;
        }
        let ghost all = self.addresses.iter().remaining();
        let ghost keys = entry_keys(all);
        for entry in entries: self.addresses.iter()
            invariant
                self.in_lockstep(),
                is_name(sender@.room),
                all == self.addresses.iter().remaining(),
                entries.seq() == all,
                all.no_duplicates(),
                keys == entry_keys(all),
                peer_ids(peers@).no_duplicates(),
                forall|id: u64|
                    peer_ids(peers@).contains(id) <==> keys.take(entries.index()).contains(id)
                        && eligible(self@, sender@, exclude).contains(id),
                forall|i: int|
                    0 <= i < peers.len() ==> self.channels@.contains_key((#[trigger] peers[i]).0)
                        && *peers[i].1 == self.channels@[peers[i].0],
        {
            let (id, address) = entry;
            let ghost seen = entries.index();
            let ghost before = peer_ids(peers@);
            proof {
                lemma_keys_distinct(self.addresses@, all);
                assert(keys[seen] == *id);
                assert(self.addresses@.contains_key(*all[seen].0));
                assert(self.addresses@[*id] == *address);
                assert(self@[*id] == address@);
                assert(keys.take(seen + 1) == keys.take(seen).push(*id));
                assert(!keys.take(seen).contains(*id));
            }
            if *id != exclude && sender.can_send_to(address) {
                match self.channels.get(id) {
                    Some(channel) => {
                        peers.push((*id, channel));
                        assert(peer_ids(peers@) == before.push(*id));
                        proof {
                            lemma_push_fresh(before, *id);
                        }
                    },
                    None => {
                        assert(false);
                    },
                }
            }
            proof {
                assert forall|other: u64|
                    peer_ids(peers@).contains(other) <==> keys.take(seen + 1).contains(other)
                        && eligible(self@, sender@, exclude).contains(other) by {
                    if other == *id {
                        assert(keys.take(seen + 1).last() == *id);
                        if peer_ids(peers@) != before {
                            assert(peer_ids(peers@).last() == *id);
                        }
                    } else {
                        lemma_push_contains(keys.take(seen), *id, other);
                        if peer_ids(peers@) != before {
                            lemma_push_contains(before, *id, other);
                        }
                    }
                }
            }
        }
        proof {
            assert(keys.take(keys.len() as int) == keys);
            assert forall|id: u64| self@.contains_key(id) implies keys.contains(id) by {
                let pair = (&id, &self.addresses@[id]);
                assert(all.contains(pair));
                let at = choose|at: int| 0 <= at < all.len() && all[at] == pair;
                assert(keys[at] == id);
            }
            assert(peer_ids(peers@).to_set() =~= eligible(self@, sender@, exclude));
        }
        peers
    }

    /// Hands a copy of `message` to every peer that a message from `sender`
    /// reaches, `exclude` left out, and reports each delivery. A peer whose
    /// channel refuses the message does not keep the others from getting it.
    /// From a sender without a room the message goes to nobody.
    pub fn broadcast(&self, sender: &BonzoEndpoint, exclude: u64, message: &Message) -> (attempts:
        Vec<Attempt>)
        ensures
            attempted(attempts@).no_duplicates(),
            attempted(attempts@).to_set() == eligible(self@, sender@, exclude),
            !is_name(sender@.room) ==> attempts@.len() == 0,
    {
        let peers = self.eligible_peers(sender, exclude);
        let mut attempts: Vec<Attempt> = Vec::new();
        let mut next: usize = 0;
        while next < peers.len()
            invariant
                next <= peers.len(),
                attempted(attempts@) == peer_ids(peers@).take(next as int),
            decreases peers.len() - next,
        {
            let (peer, channel) = peers[next];
            let accepted = channel.unbounded_send(message.clone()).is_ok();
            let ghost before = attempted(attempts@);
            attempts.push(Attempt { peer, accepted });
            assert(attempted(attempts@) == before.push(peer));
            assert(peer_ids(peers@).take(next + 1) == peer_ids(peers@).take(next as int).push(
                peer,
            ));
            next = next + 1;
        }
        assert(peer_ids(peers@).take(next as int) == peer_ids(peers@));
        attempts
    }
}

/// A message never leaves the room of its sender: every peer that it reaches
/// is registered, is not the excluded connection, and has the sender's room.
pub proof fn lemma_delivery_stays_in_room(
    peers: Map<u64, EndpointView>,
    sender: EndpointView,
    exclude: u64,
    id: u64,
)
    requires
        eligible(peers, sender, exclude).contains(id),
    ensures
        peers.contains_key(id),
        id != exclude,
        peers[id].room == sender.room,
{
}

/// Two registered connections with the same address, neither of them excluded,
/// get the same messages: a sender reaches both or neither.
pub proof fn lemma_same_address_same_delivery(
    peers: Map<u64, EndpointView>,
    sender: EndpointView,
    exclude: u64,
    first: u64,
    second: u64,
)
    requires
        peers.contains_key(first),
        peers.contains_key(second),
        peers[first] == peers[second],
        first != exclude,
        second != exclude,
    ensures
        eligible(peers, sender, exclude).contains(first) <==> eligible(
            peers,
            sender,
            exclude,
        ).contains(second),
{
}

/// Once a connection is deregistered no sender reaches it, and the other
/// connections are reached as before.
pub proof fn lemma_deregistered_gets_nothing(
    peers: Map<u64, EndpointView>,
    gone: u64,
    sender: EndpointView,
    exclude: u64,
)
    ensures
        !eligible(peers.remove(gone), sender, exclude).contains(gone),
        eligible(peers.remove(gone), sender, exclude) == eligible(peers, sender, exclude).remove(
            gone,
        ),
{
    assert(eligible(peers.remove(gone), sender, exclude) =~= eligible(
        peers,
        sender,
        exclude,
    ).remove(gone));
}

/// A sender without a room reaches nobody, whoever is registered.
pub proof fn lemma_sender_without_room_reaches_nobody(
    peers: Map<u64, EndpointView>,
    sender: EndpointView,
    exclude: u64,
)
    requires
        !is_name(sender.room),
    ensures
        eligible(peers, sender, exclude) == Set::<u64>::empty(),
{
    assert(eligible(peers, sender, exclude) =~= Set::<u64>::empty());
}

/// No sender reaches a connection without a room.
pub proof fn lemma_peer_without_room_gets_nothing(
    peers: Map<u64, EndpointView>,
    sender: EndpointView,
    exclude: u64,
    id: u64,
)
    requires
        peers.contains_key(id),
        !is_name(peers[id].room),
    ensures
        !eligible(peers, sender, exclude).contains(id),
{
}

/// Registering a connection changes what no other connection gets: a sender
/// with a room reaches the new connection if the routing rule admits its
/// address, and the others as before.
pub proof fn lemma_registered_joins_delivery(
    peers: Map<u64, EndpointView>,
    id: u64,
    address: EndpointView,
    sender: EndpointView,
    exclude: u64,
)
    ensures
        eligible(peers.insert(id, address), sender, exclude) == (if is_name(sender.room) && id
            != exclude && sender.can_send_to(address) {
            eligible(peers, sender, exclude).insert(id)
        } else {
            eligible(peers, sender, exclude).remove(id)
        }),
{
    assert(eligible(peers.insert(id, address), sender, exclude) =~= (if is_name(sender.room) && id
        != exclude && sender.can_send_to(address) {
        eligible(peers, sender, exclude).insert(id)
    } else {
        eligible(peers, sender, exclude).remove(id)
    }));
}

/// The keys of the entries that a walk over a map yields, in the order of the walk.
spec fn entry_keys(entries: Seq<(&u64, &BonzoEndpoint)>) -> Seq<u64> {
    entries.map_values(|entry: (&u64, &BonzoEndpoint)| *entry.0)
}

/// A walk that yields no entry of a map twice yields no key twice.
proof fn lemma_keys_distinct(held: Map<u64, BonzoEndpoint>, entries: Seq<(&u64, &BonzoEndpoint)>)
    requires
        entries.no_duplicates(),
        forall|i: int|
            0 <= i < entries.len() ==> held.contains_key(*(#[trigger] entries[i]).0)
                && held[*entries[i].0] == *entries[i].1,
    ensures
        entry_keys(entries).no_duplicates(),
{
    let keys = entry_keys(entries);
    assert forall|a: int, b: int|
        0 <= a < keys.len() && 0 <= b < keys.len() && a != b implies keys[a] != keys[b] by {
        if keys[a] == keys[b] {
            assert(held[*entries[a].0] == *entries[a].1);
            assert(held[*entries[b].0] == *entries[b].1);
            assert(entries[a] == entries[b]);
        }
    }
}

/// A sequence without repetitions has none after an element that it did not
/// hold is added.
proof fn lemma_push_fresh(s: Seq<u64>, added: u64)
    requires
        s.no_duplicates(),
        !s.contains(added),
    ensures
        s.push(added).no_duplicates(),
{
    let longer = s.push(added);
    assert forall|a: int, b: int|
        0 <= a < longer.len() && 0 <= b < longer.len() && a != b implies longer[a]
        != longer[b] by {
        if a < s.len() {
            assert(s.contains(longer[a]));
        }
        if b < s.len() {
            assert(s.contains(longer[b]));
        }
    }
}

/// Of a sequence with one more element, an element other than the new one is
/// a member if and only if it was one before.
proof fn lemma_push_contains(s: Seq<u64>, added: u64, other: u64)
    requires
        other != added,
    ensures
        s.push(added).contains(other) <==> s.contains(other),
{
    if s.contains(other) {
        let at = choose|at: int| 0 <= at < s.len() && s[at] == other;
        assert(s.push(added)[at] == other);
    }
    if s.push(added).contains(other) {
        let at = choose|at: int| 0 <= at < s.push(added).len() && s.push(added)[at] == other;
        assert(s[at] == other);
    }
}

} // verus!

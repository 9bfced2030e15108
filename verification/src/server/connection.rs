//! One connection, from its handshake to its end, and what it does with each
//! message that arrives on it.

use crate::server::bonzoendpoint::{is_name, parse_path, BonzoEndpoint, EndpointView};
use crate::server::channel::connected;
use crate::server::queue::{try_enqueue, PersistenceJob, QueueRefusal};
use crate::server::registry::{attempted, eligible, Attempt, ConnectionRegistry};
use futures_channel::mpsc::UnboundedReceiver;
use tokio::sync::mpsc::Sender;
use tungstenite::protocol::Message;
use vstd::prelude::*;

verus! {

/// The address that a connection gets from its request path: the one that the
/// path denotes, or the empty address, from which no message reaches anybody.
pub open spec fn resolved(path: Seq<char>) -> EndpointView {
    match parse_path(path) {
        Some(address) => address,
        None => EndpointView::empty(),
    }
}

/// A connection whose path denotes no address reaches nobody, whoever is
/// registered, other connections with such a path included.
pub proof fn lemma_malformed_path_reaches_nobody(
    path: Seq<char>,
    peers: Map<u64, EndpointView>,
    exclude: u64,
)
    requires
        parse_path(path) is None,
    ensures
        eligible(peers, resolved(path), exclude) == Set::<u64>::empty(),
{
    assert(eligible(peers, resolved(path), exclude) =~= Set::<u64>::empty());
}

/// Resolves the request path of a connection. A path that denotes no address
/// is not refused: the connection gets the empty address, and what it sends
/// reaches nobody.
pub fn resolve_address(path: &str) -> (address: BonzoEndpoint)
    ensures
        address@ == resolved(path@),
        address@.well_formed(),
{
    match BonzoEndpoint::parse_resource(path) {
        Ok(address) => address,
        Err(_) => BonzoEndpoint::empty(),
    }
}

/// What became of the job that a message was to leave for the persistence worker.
#[derive(Clone, Copy, Debug, PartialEq, Eq, Structural)]
pub enum QueueOutcome {
    /// Nothing is stored: the relay runs without persistence.
    Disabled,
    /// The queue took the job.
    Queued,
    /// The queue refused the job, and it is lost.
    Dropped(QueueRefusal),
}

/// What was done with one inbound message.
#[derive(Debug)]
pub struct Routing {
    /// What became of its persistence job.
    pub persistence: QueueOutcome,
    /// The deliveries to peers, one for each peer that the message reaches.
    pub attempts: Vec<Attempt>,
}

impl QueueOutcome {
    /// What the queue's answer to an offered job means for the job.
    pub fn of_answer(answer: Result<(), QueueRefusal>) -> (outcome: QueueOutcome)
        ensures
            outcome == (match answer {
                Ok(()) => QueueOutcome::Queued,
                Err(refusal) => QueueOutcome::Dropped(refusal),
            }),
    {
        match answer {
            Ok(()) => QueueOutcome::Queued,
            Err(refusal) => QueueOutcome::Dropped(refusal),
        }
    }
}

/// The job that a message leaves for the persistence worker: a copy of the
/// message, with the address that its sender has now.
pub fn job_for(sender: &BonzoEndpoint, message: &Message) -> (job: PersistenceJob)
    ensures
        job.message == *message,
        job.address@ == sender@,
{
    PersistenceJob { message: message.clone(), address: sender.clone() }
}

/// Offers the persistence worker a job for `message`, if there is a queue. The
/// call never waits: a job that the queue does not take is dropped. Whether the
/// queue takes it depends on what is waiting in it.
pub fn offer_job(
    queue: Option<&Sender<PersistenceJob>>,
    sender: &BonzoEndpoint,
    message: &Message,
) -> (outcome: QueueOutcome)
    ensures
        outcome is Disabled <==> queue is None,
{
    match queue {
        None => QueueOutcome::Disabled,
        Some(queue) => QueueOutcome::of_answer(try_enqueue(queue, job_for(sender, message))),
    }
}

/// Handles one message that arrived on the connection `id`, whose address is
/// `sender`: offers it to the persistence queue, then hands it to every peer
/// that it reaches. Whatever the queue answers, the same peers get the message.
pub fn route(
    registry: &ConnectionRegistry,
    id: u64,
    sender: &BonzoEndpoint,
    queue: Option<&Sender<PersistenceJob>>,
    message: &Message,
) -> (routing: Routing)
    ensures
        routing.persistence is Disabled <==> queue is None,
        attempted(routing.attempts@).no_duplicates(),
        attempted(routing.attempts@).to_set() == eligible(registry@, sender@, id),
        !is_name(sender@.room) ==> routing.attempts@.len() == 0,
{
    let persistence = offer_job(queue, sender, message);
    let attempts = registry.broadcast(sender, id, message);
    Routing { persistence, attempts }
}

/// Where a connection stands between its handshake and its end.
#[derive(Clone, Copy, Debug, PartialEq, Eq, Structural)]
pub enum ConnectionState {
    /// The handshake has not ended yet.
    Connecting,
    /// The connection has its address and is in the registry.
    Registered,
    /// Messages are routed from it and delivered to it.
    Relaying,
    /// The connection has ended and is out of the registry.
    Closed,
}

/// One connection of the relay: its identity, its address and its state.
pub struct Connection {
    id: u64,
    address: BonzoEndpoint,
    state: ConnectionState,
}

/// The mathematical value of a `Connection`.
pub struct ConnectionView {
    pub id: u64,
    pub address: EndpointView,
    pub state: ConnectionState,
}

impl ConnectionView {
    /// Whether the connection holds an entry of the registry.
    pub open spec fn in_registry(self) -> bool {
        self.state is Registered || self.state is Relaying
    }
}

impl View for Connection {
    type V = ConnectionView;

    closed spec fn view(&self) -> ConnectionView {
        ConnectionView { id: self.id, address: self.address@, state: self.state }
    }
}

impl Connection {
    /// A connection whose handshake is under way. Until the handshake gives it
    /// an address, it has the empty one.
    pub fn new(id: u64) -> (connection: Self)
        ensures
            connection@ == (ConnectionView {
                id,
                address: EndpointView::empty(),
                state: ConnectionState::Connecting,
            }),
    {
        Connection { id, address: BonzoEndpoint::empty(), state: ConnectionState::Connecting }
    }

    /// The identity under which the connection is registered.
    pub fn id(&self) -> (id: u64)
        ensures
            id == self@.id,
    {
        self.id
    }

    /// The address of the connection.
    pub fn address(&self) -> (address: &BonzoEndpoint)
        ensures
            address@ == self@.address,
    {
        &self.address
    }

    /// The state of the connection.
    pub fn state(&self) -> (state: ConnectionState)
        ensures
            state == self@.state,
    {
        self.state
    }

    /// Ends the handshake of a connecting connection: resolves `path` to its
    /// address, registers it, and returns the receiving end of its channel.
    /// In any other state nothing changes and `None` is returned.
    pub fn handshake_completed(&mut self, registry: &mut ConnectionRegistry, path: &str) -> (inbox:
        Option<UnboundedReceiver<Message>>)
        ensures
            inbox is Some <==> old(self)@.state is Connecting,
            old(self)@.state is Connecting ==> final(self)@ == (ConnectionView {
                id: old(self)@.id,
                address: resolved(path@),
                state: ConnectionState::Registered,
            }) && final(registry)@ == old(registry)@.insert(old(self)@.id, resolved(path@)),
            old(self)@.state is Connecting ==> {
                &&& final(registry).channels().dom() == final(registry)@.dom()
                &&& final(registry).channels().remove(old(self)@.id)
                    == old(registry).channels().remove(old(self)@.id)
            },
            inbox matches Some(end) ==> connected(
                final(registry).channels()[old(self)@.id],
                end,
            ),
            !(old(self)@.state is Connecting) ==> final(self)@ == old(self)@ && final(registry)@
                == old(registry)@ && final(registry).channels() == old(registry).channels(),
    {
        match self.state {
            ConnectionState::Connecting => {
                let address = resolve_address(path);
                let inbox = registry.register(self.id, address.clone());
                self.address = address;
                self.state = ConnectionState::Registered;
                Some(inbox)
            },
            _ => None,
        }
    }

    /// Starts the relaying of a registered connection. Returns whether it did:
    /// in any other state nothing changes.
    pub fn start_relaying(&mut self) -> (started: bool)
        ensures
            started <==> old(self)@.state is Registered,
            started ==> final(self)@ == (ConnectionView {
                state: ConnectionState::Relaying,
                ..old(self)@
            }),
            !started ==> final(self)@ == old(self)@,
    {
        match self.state {
            ConnectionState::Registered => {
                self.state = ConnectionState::Relaying;
                true
            },
            _ => false,
        }
    }

    /// Handles a message that arrived on a relaying connection: offers it to
    /// the persistence queue and hands it to the peers that it reaches, the
    /// connection itself left out. In any other state the message is ignored
    /// and `None` is returned.
    pub fn message_received(
        &self,
        registry: &ConnectionRegistry,
        queue: Option<&Sender<PersistenceJob>>,
        message: &Message,
    ) -> (routing: Option<Routing>)
        ensures
            routing is Some <==> self@.state is Relaying,
            routing matches Some(done) ==> {
                &&& done.persistence is Disabled <==> queue is None
                &&& attempted(done.attempts@).no_duplicates()
                &&& attempted(done.attempts@).to_set() == eligible(
                    registry@,
                    self@.address,
                    self@.id,
                )
                &&& !is_name(self@.address.room) ==> done.attempts@.len() == 0
            },
    {
        match self.state {
            ConnectionState::Relaying => Some(
                route(registry, self.id, &self.address, queue, message),
            ),
            _ => None,
        }
    }

    /// Ends the connection, whatever its state, and takes it out of the
    /// registry if it is in it. Closing a closed connection changes nothing.
    pub fn close(&mut self, registry: &mut ConnectionRegistry)
        ensures
            final(self)@ == (ConnectionView { state: ConnectionState::Closed, ..old(self)@ }),
            final(registry)@ == (if old(self)@.in_registry() {
                old(registry)@.remove(old(self)@.id)
            } else {
                old(registry)@
            }),
            final(registry).channels() == (if old(self)@.in_registry() {
                old(registry).channels().remove(old(self)@.id)
            } else {
                old(registry).channels()
            }),
    {
        match self.state {
            ConnectionState::Registered | ConnectionState::Relaying => {
                registry.deregister(self.id);
            },
            _ => {},
        }
        self.state = ConnectionState::Closed;
    }
}

} // verus!

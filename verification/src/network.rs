//! The session engine: connection bookkeeping, the listen barrier, the
//! relay-observation phase, role engagement, and the main event loop's
//! decisions.
//!
//! The engine is the deciding half of a run.  The substrate delivers
//! events; each step function maps the current state and one event to
//! the next state and an action.  The loop that performs the actions
//! (dialing, sending, closing, exiting) lives outside the library and
//! carries out exactly what the returned [`Action`] names.
use vstd::prelude::*;
use vstd::string::*;
use crate::Mode;
use crate::config::Config;
use crate::item::Item;
use crate::item::ItemResponse;
use crate::security::IdentifyEvent;
use crate::security::policy_closes;
use crate::security::is_ip_blacklisted;
use crate::security::is_ip_whitelisted;
use crate::strutil;

pub mod request;

verus! {

/// The relay every run registers with, as a multiaddress.
pub fn relay_address() -> (r: &'static str)
    ensures
        r@ == "/ip4/157.245.40.97/tcp/5555/p2p/12D3KooWACdDu7PiwBBukn58ZSjmMKucbB1KvuYPGStzihqSkJVs"@,
{
    "/ip4/157.245.40.97/tcp/5555/p2p/12D3KooWACdDu7PiwBBukn58ZSjmMKucbB1KvuYPGStzihqSkJVs"
}

/// The application tag of the identify exchange.
pub fn identify_protocol() -> (r: &'static str)
    ensures
        r@ == "/SHARE/0.0.1"@,
{
    "/SHARE/0.0.1"
}

/// The protocol id of the request/response channel.
pub fn request_protocol() -> (r: &'static str)
    ensures
        r@ == "/share-json-protocol"@,
{
    "/share-json-protocol"
}

/// Bookkeeping of the most recent inbound connection: a single holder,
/// overwritten on each incoming connection and read by the address policy.
#[derive(Debug, Clone, PartialEq)]
pub struct ConnectionDetails {
    connection_id: Option<u64>,
}

impl ConnectionDetails {
    /// The held connection id, as a spec value.
    pub closed spec fn spec_id(&self) -> Option<u64> {
        self.connection_id
    }

    /// An empty holder.
    pub fn new() -> (r: ConnectionDetails)
        ensures
            r.spec_id() is None,
    {
        ConnectionDetails { connection_id: Option::None }
    }

    /// Overwrite the holder with the given connection id.
    pub fn save_id(&mut self, id: u64)
        ensures
            final(self).spec_id() == Some(id),
    {
        self.connection_id = Option::Some(id);
    }

    /// The held connection id, when one has been stored.
    pub fn id(&self) -> (r: Option<u64>)
        ensures
            r == self.spec_id(),
    {
        self.connection_id
    }
}

/// One event the substrate delivers to the engine, reduced to the
/// plain values the decisions read.
#[derive(Debug, Clone, PartialEq)]
pub enum SessionEvent {
    NewListenAddr { address: String },
    Dialing,
    IncomingConnection { connection_id: u64 },
    ConnectionEstablished { peer_id: String, connection_id: u64 },
    OutgoingConnectionError { error: String },
    Ping,
    Identify { event: IdentifyEvent },
    RelayReservationAccepted,
    RelayOther,
    Dcutr,
    RequestReceived { peer_id: String, items: Vec<Item> },
    ResponseReceived { peer_id: String, response: ItemResponse },
    Other,
}

/// What the loop around the engine must do next.
#[derive(Debug, Clone, PartialEq)]
pub enum Action {
    /// Nothing; at most a log line.
    Ignore,
    /// Report the address a listener came up on.
    LogListenAddress { address: String },
    /// Record the observed address as an external address.
    AddExternalAddress { address: String },
    /// Send the batch to the peer over the request channel.
    SendBatch { peer_id: String, items: Vec<Item> },
    /// Save each delivered item, answer with the aggregate response,
    /// then run the peer-directory hook for the peer.
    DeliverBatch { peer_id: String, items: Vec<Item> },
    /// Note the response's counts, then run the peer-directory hook.
    NoteResponse { peer_id: String, no_of_success: usize, no_of_fails: usize },
    /// Close the connection and terminate the run with a failure code.
    CloseAndExit { connection_id: u64 },
    /// An event that must not occur here; terminate the run.
    Fatal,
}

/// Whether an event during the listen barrier is fatal: during the
/// barrier only new listen addresses are expected.
pub fn barrier_event_is_fatal(event: &SessionEvent) -> (r: bool)
    ensures
        r == !(*event matches SessionEvent::NewListenAddr { .. }),
{
    match event {
        SessionEvent::NewListenAddr { .. } => false,
        _ => true,
    }
}

/// The relay-observation phase: the engine has dialed the relay and
/// waits until it both told the relay its address and learned its own
/// observed address from the relay's identify message.
#[derive(Debug, Clone, PartialEq)]
pub struct ObservePhase {
    told_relay: bool,
    learned_observed: bool,
}

impl ObservePhase {
    /// Whether the relay was told our address, as a spec value.
    pub closed spec fn spec_told_relay(&self) -> bool {
        self.told_relay
    }

    /// Whether our observed address is known, as a spec value.
    pub closed spec fn spec_learned_observed(&self) -> bool {
        self.learned_observed
    }

    /// The phase as it is entered: nothing exchanged yet.
    pub fn new() -> (r: ObservePhase)
        ensures
            !r.spec_told_relay(),
            !r.spec_learned_observed(),
    {
        ObservePhase { told_relay: false, learned_observed: false }
    }

    /// Whether the phase is complete: both directions of the identify
    /// exchange have happened.
    pub fn done(&self) -> (r: bool)
        ensures
            r == (self.spec_told_relay() && self.spec_learned_observed()),
    {
        self.told_relay && self.learned_observed
    }

    /// Consume one event of the observation phase.  An outgoing
    /// identify marks the relay as told; an incoming one records the
    /// observed address, which the caller must add as an external
    /// address.  Listen, dial, connection and ping events are absorbed
    /// silently; everything else is only logged.
    pub fn step(&mut self, event: &SessionEvent) -> (r: Action)
        ensures
            final(self).spec_told_relay() == (old(self).spec_told_relay() || *event matches
                SessionEvent::Identify { event: IdentifyEvent::Sent }),
            final(self).spec_learned_observed() == (old(self).spec_learned_observed() || (*event
                matches SessionEvent::Identify { event: IdentifyEvent::Received { .. } })),
            *event matches SessionEvent::Identify {
                event: IdentifyEvent::Received { observed_addr, .. },
            } ==> (r matches Action::AddExternalAddress { address } && address@
                == observed_addr@),
            !(*event matches SessionEvent::Identify {
                event: IdentifyEvent::Received { .. },
            }) ==> r == Action::Ignore,
    {
        match event {
            SessionEvent::Identify { event: IdentifyEvent::Sent } => {
                self.told_relay = true;
                Action::Ignore
            },
            SessionEvent::Identify { event: IdentifyEvent::Received { observed_addr, .. } } => {
                self.learned_observed = true;
                Action::AddExternalAddress { address: observed_addr.clone() }
            },
            _ => Action::Ignore,
        }
    }
}

/// What engaging the role does once observation is complete: a sender
/// dials the target through the relay circuit; a receiver listens on
/// the circuit for a reservation; listing does nothing here.
#[derive(Debug, Clone, PartialEq)]
pub enum RoleStep {
    DialCircuit { address: String },
    ListenCircuit { address: String },
    Nothing,
}

/// The circuit multiaddress a sender dials: the relay, the circuit
/// hop, and the target peer.
pub fn circuit_address(relay: &str, remote_peer_id: &str) -> (r: String)
    ensures
        r@ == relay@ + "/p2p-circuit/p2p/"@ + remote_peer_id@,
{
    relay.to_owned().concat("/p2p-circuit/p2p/").concat(remote_peer_id)
}

/// The circuit multiaddress a receiver listens on: the relay and the
/// circuit hop.
pub fn listen_circuit_address(relay: &str) -> (r: String)
    ensures
        r@ == relay@ + "/p2p-circuit"@,
{
    relay.to_owned().concat("/p2p-circuit")
}

/// The step the role prescribes after observation.
pub fn role_step(mode: Mode, relay: &str, remote_peer_id: &Option<String>) -> (r: RoleStep)
    requires
        mode == Mode::Send ==> remote_peer_id is Some,
    ensures
        mode == Mode::Send ==> (r matches RoleStep::DialCircuit { address } && address@ == relay@
            + "/p2p-circuit/p2p/"@ + remote_peer_id->0@),
        mode == Mode::Receive ==> (r matches RoleStep::ListenCircuit { address } && address@
            == relay@ + "/p2p-circuit"@),
        mode == Mode::List ==> r == RoleStep::Nothing,
{
    match mode {
        Mode::Send => {
            let rid = match remote_peer_id {
                Option::Some(rid) => rid,
                Option::None => {
                    proof {
                        assert(false);
                    }
                    vstd::pervasive::unreached()
                },
            };
            RoleStep::DialCircuit { address: circuit_address(relay, rid.as_str()) }
        },
        Mode::Receive => RoleStep::ListenCircuit { address: listen_circuit_address(relay) },
        Mode::List => RoleStep::Nothing,
    }
}

/// The QUIC listener address for a port; 0 asks for an ephemeral port.
pub fn quic_listen_addr(port: i32) -> (r: String)
    requires
        port >= 0,
    ensures
        r@ == "/ip4/0.0.0.0/udp/"@ + strutil::dec_digits(port as nat) + "/quic-v1"@,
{
    let p = strutil::u32_string(port as u32);
    "/ip4/0.0.0.0/udp/".to_owned().concat(p.as_str()).concat("/quic-v1")
}

/// The TCP listener address for a port; 0 asks for an ephemeral port.
pub fn tcp_listen_addr(port: i32) -> (r: String)
    requires
        port >= 0,
    ensures
        r@ == "/ip4/0.0.0.0/tcp/"@ + strutil::dec_digits(port as nat),
{
    let p = strutil::u32_string(port as u32);
    "/ip4/0.0.0.0/tcp/".to_owned().concat(p.as_str())
}

/// The connected-phase state of one run: the fixed role and policy,
/// the connection holder the policy check reads, and the batch a sender has
/// yet to dispatch (one batch per session).
#[derive(Debug, Clone)]
pub struct Session {
    mode: Mode,
    config: Config,
    connection: ConnectionDetails,
    batch: Option<Vec<Item>>,
}

impl Session {
    /// The role, as a spec value.
    pub closed spec fn spec_mode(&self) -> Mode {
        self.mode
    }

    /// The configuration, as a spec value.
    pub closed spec fn spec_config(&self) -> Config {
        self.config
    }

    /// The connection holder, as a spec value.
    pub closed spec fn spec_connection(&self) -> ConnectionDetails {
        self.connection
    }

    /// The undelivered batch, as a spec value.
    pub closed spec fn spec_batch(&self) -> Option<Vec<Item>> {
        self.batch
    }

    /// A session at the start of the main loop: nothing stored in the
    /// connection holder, and the sender's batch still to dispatch.
    pub fn new(mode: Mode, config: Config, batch: Option<Vec<Item>>) -> (r: Session)
        ensures
            r.spec_mode() == mode,
            r.spec_config() == config,
            r.spec_connection().spec_id() is None,
            r.spec_batch() == batch,
    {
        Session { mode, config, connection: ConnectionDetails::new(), batch }
    }

    /// Consume one event of the main loop and decide what the loop
    /// must do.  The role and the policy never change; the connection
    /// holder is overwritten exactly on incoming connections; the
    /// batch leaves the session exactly once, on the first connection
    /// established in the send role; an identify notification closes
    /// the connection exactly when the address policy says so, and is fatal
    /// when no connection is held; a relay reservation outside the
    /// receive role is fatal.
    pub fn handle_event(&mut self, event: SessionEvent) -> (r: Action)
        ensures
            final(self).spec_mode() == old(self).spec_mode(),
            final(self).spec_config() == old(self).spec_config(),
            event matches SessionEvent::NewListenAddr { address } ==> (r
                == Action::LogListenAddress { address } && *final(self) == *old(self)),
            event is Dialing || event is Ping || event is Dcutr || event is RelayOther || event
                is Other ==> (r == Action::Ignore && *final(self) == *old(self)),
            event matches SessionEvent::OutgoingConnectionError { .. } ==> (r == Action::Ignore
                && *final(self) == *old(self)),
            event is RelayReservationAccepted ==> {
                &&& *final(self) == *old(self)
                &&& (old(self).spec_mode() == Mode::Receive ==> r == Action::Ignore)
                &&& (old(self).spec_mode() != Mode::Receive ==> r == Action::Fatal)
            },
            event matches SessionEvent::IncomingConnection { connection_id } ==> {
                &&& r == Action::Ignore
                &&& final(self).spec_connection().spec_id() == Some(connection_id)
                &&& final(self).spec_batch() == old(self).spec_batch()
            },
            event matches SessionEvent::Identify { event: iev } ==> {
                &&& *final(self) == *old(self)
                &&& (!policy_closes(iev, old(self).spec_config()) ==> r == Action::Ignore)
                &&& (policy_closes(iev, old(self).spec_config()) ==> {
                    &&& (old(self).spec_connection().spec_id() matches Some(id) ==> r
                        == Action::CloseAndExit { connection_id: id })
                    &&& (old(self).spec_connection().spec_id() is None ==> r == Action::Fatal)
                })
            },
            event matches SessionEvent::ConnectionEstablished { peer_id, connection_id } ==> {
                &&& final(self).spec_connection() == old(self).spec_connection()
                &&& (old(self).spec_mode() == Mode::Send ==> {
                    &&& (old(self).spec_batch() matches Some(items) ==> (r
                        == Action::SendBatch { peer_id, items } && final(self).spec_batch()
                        is None))
                    &&& (old(self).spec_batch() is None ==> (r == Action::Ignore && final(self).spec_batch() is None))
                })
                &&& (old(self).spec_mode() != Mode::Send ==> (r == Action::Ignore && final(self).spec_batch() == old(self).spec_batch()))
            },
            event matches SessionEvent::RequestReceived { peer_id, items } ==> (r
                == Action::DeliverBatch { peer_id, items } && *final(self) == *old(self)),
            event matches SessionEvent::ResponseReceived { peer_id, response } ==> (r
                == Action::NoteResponse {
                peer_id,
                no_of_success: response.no_of_success,
                no_of_fails: response.no_of_fails,
            } && *final(self) == *old(self)),
    {
        match event {
            SessionEvent::NewListenAddr { address } => Action::LogListenAddress { address },
            SessionEvent::Dialing => Action::Ignore,
            SessionEvent::Ping => Action::Ignore,
            SessionEvent::Dcutr => Action::Ignore,
            SessionEvent::RelayOther => Action::Ignore,
            SessionEvent::Other => Action::Ignore,
            SessionEvent::OutgoingConnectionError { .. } => Action::Ignore,
            SessionEvent::RelayReservationAccepted => {
                if self.mode == Mode::Receive {
                    Action::Ignore
                } else {
                    Action::Fatal
                }
            },
            SessionEvent::IncomingConnection { connection_id } => {
                self.connection.save_id(connection_id);
                Action::Ignore
            },
            SessionEvent::Identify { event: iev } => {
                let closes = is_ip_blacklisted(&iev, &self.config) || !is_ip_whitelisted(
                    &iev,
                    &self.config,
                );
                if !closes {
                    Action::Ignore
                } else {
                    match self.connection.id() {
                        Option::Some(id) => Action::CloseAndExit { connection_id: id },
                        Option::None => Action::Fatal,
                    }
                }
            },
            SessionEvent::ConnectionEstablished { peer_id, connection_id: _ } => {
                if self.mode == Mode::Send {
                    let batch = self.batch.take();
                    match batch {
                        Option::Some(items) => Action::SendBatch { peer_id, items },
                        Option::None => Action::Ignore,
                    }
                } else {
                    Action::Ignore
                }
            },
            SessionEvent::RequestReceived { peer_id, items } => Action::DeliverBatch {
                peer_id,
                items,
            },
            SessionEvent::ResponseReceived { peer_id, response } => Action::NoteResponse {
                peer_id,
                no_of_success: response.no_of_success,
                no_of_fails: response.no_of_fails,
            },
        }
    }
}

} // verus!

//! The node service: the local identity, its passphrase, and the
//! authentication gate.
//!
//! The endpoint itself — binding, dialing, accepting — lives outside
//! the library.  What is decided here: the keys a node spawns with,
//! what a dialer must write on a fresh stream, and whether the 32
//! bytes an acceptor reads authenticate the peer.  The check accepts
//! exactly the local passphrase, and compares in constant time.

use vstd::prelude::*;

use crate::identity::{
    bytes_to_hex, random_key_bytes, spec_bytes_to_hex, Passphrase, PeerId, SecretAddress, KEY_LEN,
};

verus! {

/// The node-info projection: everything the operator may copy out.
#[derive(Debug, Clone, PartialEq, Eq)]
pub struct EthersyncNodeInfo {
    pub node_id: String,
    pub my_passphrase: String,
    pub secret_key: String,
}

/// One entry of the node's diagnostic event log.
#[derive(Debug, Clone, Copy, PartialEq, Eq, Structural)]
pub enum NodeEvent {
    /// A connection attempt or handshake failed; accepting goes on.
    Error { timestamp: u64 },
    /// The endpoint is bound and the node is reachable.
    Spawned { timestamp: u64 },
}

/// What the node service can be asked to do.
pub enum NodeCommand {
    /// Dial a peer whose full secret address is known.
    ConnectByAddress { secret_address: Box<SecretAddress> },
    /// Resolve a human-relayed join code first, then dial.
    ConnectByJoinCode { join_code: String },
}

/// What the caller must do for a command: the outside work of the
/// decision, handed back to the event loop.
pub enum NodeAction {
    /// Dial this peer and authenticate with this passphrase.
    Dial { secret_address: Box<SecretAddress> },
    /// Ask the rendezvous service for the `peer_id#passphrase`
    /// payload of this code, then parse it and dial.
    ResolveJoinCode { join_code: String },
}

/// The node service state: identity material, the advertised node
/// identifier once the endpoint is bound, and the event log.
pub struct NodeService {
    pub my_passphrase: Passphrase,
    pub secret_key: Vec<u8>,
    pub node_id: Option<PeerId>,
    pub events: Vec<NodeEvent>,
}

impl NodeService {
    /// Well-formed: full-length keys throughout.
    pub open spec fn wf(&self) -> bool {
        &&& self.my_passphrase.wf()
        &&& self.secret_key@.len() == KEY_LEN
        &&& self.node_id matches Some(p) ==> p.wf()
    }

    /// Spawns a node: a fresh random identity secret and a fresh
    /// random passphrase, never derived from one another.  The node
    /// identifier arrives with `endpoint_bound` once the transport
    /// has bound an endpoint for the secret key.
    pub fn spawn() -> (s: Self)
        ensures
            s.wf(),
            s.node_id is None,
            s.events@ == Seq::<NodeEvent>::empty(),
    {
        NodeService {
            my_passphrase: Passphrase::generate(),
            secret_key: random_key_bytes(),
            node_id: None,
            events: Vec::new(),
        }
    }

    /// Records that the endpoint is bound under this identifier.
    pub fn endpoint_bound(&mut self, node_id: PeerId, now: u64)
        requires
            old(self).wf(),
            node_id.wf(),
        ensures
            final(self).wf(),
            final(self).node_id == Some(node_id),
            final(self).events@ == old(self).events@.push(NodeEvent::Spawned { timestamp: now }),
            final(self).my_passphrase == old(self).my_passphrase,
            final(self).secret_key == old(self).secret_key,
    {
        self.node_id = Some(node_id);
        self.events.push(NodeEvent::Spawned { timestamp: now });
    }

    /// Logs a non-fatal error; nothing else changes and the accept
    /// loop goes on.
    pub fn record_error(&mut self, now: u64)
        requires
            old(self).wf(),
        ensures
            final(self).wf(),
            final(self).events@ == old(self).events@.push(NodeEvent::Error { timestamp: now }),
            final(self).my_passphrase == old(self).my_passphrase,
            final(self).secret_key == old(self).secret_key,
            final(self).node_id == old(self).node_id,
    {
        self.events.push(NodeEvent::Error { timestamp: now });
    }

    /// The node-info projection, available once the endpoint is
    /// bound: identifier, passphrase and secret key in their
    /// canonical hex text form.
    pub fn node_info(&self) -> (r: Option<EthersyncNodeInfo>)
        requires
            self.wf(),
        ensures
            match self.node_id {
                Some(id) => r matches Some(info) && info.node_id@ == spec_bytes_to_hex(id@)
                    && info.my_passphrase@ == spec_bytes_to_hex(self.my_passphrase@)
                    && info.secret_key@ == spec_bytes_to_hex(self.secret_key@),
                None => r is None,
            },
    {
        let id = match &self.node_id {
            Some(id) => id,
            None => {
                return None;
            },
        };
        Some(
            EthersyncNodeInfo {
                node_id: id.to_hex(),
                my_passphrase: self.my_passphrase.to_hex(),
                secret_key: bytes_to_hex(&self.secret_key),
            },
        )
    }

    /// The authentication gate for an inbound stream.
    ///
    /// Accepts exactly the local passphrase — any other bytes,
    /// whatever their length, are rejected — and compares in constant
    /// time, so the decision's timing does not betray how much of a
    /// guess was right.  On rejection the caller closes the stream
    /// without a reply and keeps accepting.
    pub fn check_inbound_auth(&self, received: &Vec<u8>) -> (accept: bool)
        requires
            self.wf(),
        ensures
            accept == (received@ == self.my_passphrase@),
    {
        self.my_passphrase.matches(received)
    }

    /// Decides what one command needs from the event loop.
    pub fn handle_command(command: NodeCommand) -> (r: NodeAction)
        ensures
            match command {
                NodeCommand::ConnectByAddress { secret_address } => r matches NodeAction::Dial {
                    secret_address: a,
                } && a == secret_address,
                NodeCommand::ConnectByJoinCode { join_code } => r matches
                    NodeAction::ResolveJoinCode { join_code: c } && c@ == join_code@,
            },
    {
        match command {
            NodeCommand::ConnectByAddress { secret_address } => NodeAction::Dial {
                secret_address,
            },
            NodeCommand::ConnectByJoinCode { join_code } => NodeAction::ResolveJoinCode {
                join_code,
            },
        }
    }
}

} // verus!

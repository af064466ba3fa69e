//! The connection service: the set of authenticated peers and the
//! fanout of locally generated sync messages.
//!
//! The pumps that read and write the network live outside the
//! library; every decision they need is here.  An incoming frame
//! payload is decoded and either forwarded (sync) or discarded
//! (ephemeral); an outgoing sync message is framed once and delivered
//! to every connected peer exactly once.

use vstd::prelude::*;

use crate::framing::{
    encode_frame, lemma_frame_round_trip, spec_decode_frame, spec_encode_frame, FrameError,
};
use crate::identity::PeerId;
use crate::peer_message::{
    decode_peer_message, encode_peer_message, lemma_peer_message_round_trip,
    spec_decode_peer_message, spec_encode_peer_message, PeerMessage, PeerMessageError,
    PeerMessageView,
};

verus! {

/// One frame addressed to one peer's send pump.
pub struct Delivery {
    pub peer: PeerId,
    pub frame: Vec<u8>,
}

/// One entry of the connection service's diagnostic event log.
#[derive(Debug, Clone, Copy, PartialEq, Eq, Structural)]
pub enum ConnectionEvent {
    /// A freshly authenticated peer joined the peer set.
    PeerConnected { timestamp: u64 },
    /// A peer's pumps stopped and it left the peer set.
    PeerDisconnected { timestamp: u64 },
    /// A frame could not be built or a payload could not be decoded;
    /// only the offending connection is affected.
    Error { timestamp: u64 },
}

/// What the connection service can be asked to do.
pub enum ConnectionCommand {
    /// A freshly authenticated connection to this peer.
    NewConnection { peer: PeerId },
    /// A locally generated, engine-encoded sync message to broadcast.
    SendMessage { message_buf: Vec<u8> },
}

/// The identifiers of a peer list, in order.
pub open spec fn peers_view(peers: Seq<PeerId>) -> Seq<Seq<u8>> {
    peers.map_values(|p: PeerId| p@)
}

/// The peer identifiers after one peer leaves: every entry for it
/// removed, the others kept in order.
pub open spec fn spec_remove_peer(peers: Seq<Seq<u8>>, peer: Seq<u8>) -> Seq<Seq<u8>>
    decreases peers.len(),
{
    if peers.len() == 0 {
        Seq::empty()
    } else {
        let rest = spec_remove_peer(peers.drop_last(), peer);
        if peers.last() == peer {
            rest
        } else {
            rest.push(peers.last())
        }
    }
}

/// Delivery round trip: a sync message framed for fanout, decoded on
/// any receiver — first the frame, then the tagged payload — yields
/// the engine bytes unchanged, wherever in the stream the frame sits.
pub proof fn lemma_sync_delivery_round_trip(message_buf: Seq<u8>, rest: Seq<u8>)
    requires
        message_buf.len() + 1 <= u32::MAX,
    ensures
        ({
            let payload = spec_encode_peer_message(PeerMessageView::Sync(message_buf));
            &&& spec_decode_frame(spec_encode_frame(payload) + rest, 0) == Some(
                (payload, 4 + payload.len() as int),
            )
            &&& spec_decode_peer_message(payload) == Some(PeerMessageView::Sync(message_buf))
        }),
{
    let payload = spec_encode_peer_message(PeerMessageView::Sync(message_buf));
    lemma_frame_round_trip(payload, rest);
    lemma_peer_message_round_trip(PeerMessageView::Sync(message_buf));
}

/// The connection service state: the currently connected peers and
/// the event log.
pub struct ConnectionService {
    pub connected_peers: Vec<PeerId>,
    pub events: Vec<ConnectionEvent>,
}

impl ConnectionService {
    /// Well-formed: every registered peer identifier is full length.
    pub open spec fn wf(&self) -> bool {
        forall|i: int|
            0 <= i < self.connected_peers@.len() ==> (#[trigger] self.connected_peers@[i]).wf()
    }

    /// A fresh service with no peers and no events.
    pub fn new() -> (s: Self)
        ensures
            s.wf(),
            s.connected_peers@ == Seq::<PeerId>::empty(),
            s.events@ == Seq::<ConnectionEvent>::empty(),
    {
        ConnectionService { connected_peers: Vec::new(), events: Vec::new() }
    }

    /// Registers a freshly authenticated peer and logs exactly one
    /// connected event.
    ///
    /// The peer set is append-only here; retries of the same peer add
    /// a second entry, as no deduplication is specified.
    pub fn handle_new_connection(&mut self, peer: PeerId, now: u64)
        requires
            old(self).wf(),
            peer.wf(),
        ensures
            final(self).wf(),
            final(self).connected_peers@ == old(self).connected_peers@.push(peer),
            final(self).events@ == old(self).events@.push(
                ConnectionEvent::PeerConnected { timestamp: now },
            ),
    {
        self.connected_peers.push(peer);
        self.events.push(ConnectionEvent::PeerConnected { timestamp: now });
    }

    /// Logs a non-fatal connection error — a frame that could not be
    /// built, or a payload that could not be decoded — and nothing
    /// else changes; the other peers' pumps go on.
    pub fn record_error(&mut self, now: u64)
        requires
            old(self).wf(),
        ensures
            final(self).wf(),
            final(self).connected_peers@ == old(self).connected_peers@,
            final(self).events@ == old(self).events@.push(
                ConnectionEvent::Error { timestamp: now },
            ),
    {
        self.events.push(ConnectionEvent::Error { timestamp: now });
    }

    /// Deregisters a peer whose pumps have stopped: every entry with
    /// its identifier leaves, the other peers are untouched, and
    /// exactly one disconnected event is logged.
    pub fn remove_peer(&mut self, peer: &PeerId, now: u64)
        requires
            old(self).wf(),
        ensures
            final(self).wf(),
            peers_view(final(self).connected_peers@) == spec_remove_peer(
                peers_view(old(self).connected_peers@),
                peer@,
            ),
            forall|i: int|
                0 <= i < final(self).connected_peers@.len()
                    ==> (#[trigger] final(self).connected_peers@[i])@ != peer@,
            final(self).events@ == old(self).events@.push(
                ConnectionEvent::PeerDisconnected { timestamp: now },
            ),
    {
        let n = self.connected_peers.len();
        let mut kept: Vec<PeerId> = Vec::new();
        for i in 0..n
            invariant
                n == self.connected_peers@.len(),
                self.connected_peers@ == old(self).connected_peers@,
                self.events@ == old(self).events@,
                old(self).wf(),
                peers_view(kept@) == spec_remove_peer(
                    peers_view(self.connected_peers@.subrange(0, i as int)),
                    peer@,
                ),
                forall|j: int| 0 <= j < kept@.len() ==> (#[trigger] kept@[j]).wf(),
                forall|j: int| 0 <= j < kept@.len() ==> (#[trigger] kept@[j])@ != peer@,
        {
            let ghost prefix = peers_view(self.connected_peers@.subrange(0, i + 1));
            proof {
                assert(prefix.drop_last() =~= peers_view(
                    self.connected_peers@.subrange(0, i as int),
                ));
                assert(prefix.last() == self.connected_peers@[i as int]@);
            }
            let current = &self.connected_peers[i];
            if !current.same_as(peer) {
                let copy = current.clone();
                let ghost kept0 = kept@;
                kept.push(copy);
                proof {
                    assert(peers_view(kept@) =~= peers_view(kept0).push(
                        self.connected_peers@[i as int]@,
                    ));
                    assert(spec_remove_peer(prefix, peer@) == spec_remove_peer(
                        prefix.drop_last(),
                        peer@,
                    ).push(prefix.last()));
                    assert(peers_view(kept@) == spec_remove_peer(prefix, peer@));
                }
            } else {
                proof {
                    assert(peers_view(kept@) == spec_remove_peer(prefix, peer@));
                }
            }
        }
        proof {
            assert(self.connected_peers@.subrange(0, n as int) =~= self.connected_peers@);
        }
        self.connected_peers = kept;
        self.events.push(ConnectionEvent::PeerDisconnected { timestamp: now });
    }

    /// Fans one already-framed message out: one delivery per connected
    /// peer, in peer order, each carrying the same frame — so every
    /// peer receives the message exactly once.
    pub fn broadcast_frames(&self, frame: &Vec<u8>) -> (out: Vec<Delivery>)
        requires
            self.wf(),
        ensures
            out@.len() == self.connected_peers@.len(),
            forall|i: int|
                0 <= i < out@.len() ==> (#[trigger] out@[i]).peer@ == self.connected_peers@[i]@
                    && out@[i].frame@ == frame@,
    {
        let n = self.connected_peers.len();
        let mut out: Vec<Delivery> = Vec::new();
        for i in 0..n
            invariant
                n == self.connected_peers@.len(),
                self.wf(),
                out@.len() == i,
                forall|j: int|
                    0 <= j < out@.len() ==> (#[trigger] out@[j]).peer@
                        == self.connected_peers@[j]@ && out@[j].frame@ == frame@,
        {
            let peer = self.connected_peers[i].clone();
            let copy = vstd::slice::slice_to_vec(frame.as_slice());
            out.push(Delivery { peer, frame: copy });
        }
        out
    }

    /// Wraps an engine-encoded sync message as one wire frame.
    ///
    /// Fails exactly when the tagged payload would not fit behind the
    /// frame's length prefix.
    pub fn make_sync_frame(message_buf: Vec<u8>) -> (r: Result<Vec<u8>, FrameError>)
        ensures
            message_buf@.len() + 1 <= u32::MAX ==> (r matches Ok(f) && f@ == spec_encode_frame(
                spec_encode_peer_message(PeerMessageView::Sync(message_buf@)),
            )),
            message_buf@.len() + 1 > u32::MAX ==> r == Err::<Vec<u8>, FrameError>(
                FrameError::Oversize,
            ),
    {
        let message = PeerMessage::Sync(message_buf);
        let payload = match encode_peer_message(&message) {
            Ok(p) => p,
            Err(_) => {
                return Err(FrameError::Oversize);
            },
        };
        encode_frame(&payload)
    }

    /// Decodes one received frame payload.
    ///
    /// A sync payload comes back for the document-sync service; an
    /// ephemeral payload is understood and deliberately discarded; any
    /// malformed payload is an error that ends the offending
    /// connection only.
    pub fn handle_incoming_payload(payload: &Vec<u8>) -> (r: Result<Option<Vec<u8>>,
        PeerMessageError,
    >)
        ensures
            match spec_decode_peer_message(payload@) {
                Some(PeerMessageView::Sync(b)) => r matches Ok(o) && o matches Some(v) && v@ == b,
                Some(PeerMessageView::Ephemeral(e)) => r matches Ok(o) && o is None,
                None => r == Err::<Option<Vec<u8>>, PeerMessageError>(PeerMessageError::Malformed),
            },
    {
        match decode_peer_message(payload) {
            Ok(PeerMessage::Sync(b)) => Ok(Some(b)),
            Ok(PeerMessage::Ephemeral(_)) => Ok(None),
            Err(e) => Err(e),
        }
    }

    /// Handles one command of the service's queue.
    ///
    /// A new connection joins the peer set with one logged event — the
    /// caller then starts its pumps and triggers the document-sync
    /// service.  A send command yields the deliveries of the fanout;
    /// an oversize message is logged as an error and delivered to
    /// nobody.
    pub fn handle_command(&mut self, command: ConnectionCommand, now: u64) -> (r: Result<
        Vec<Delivery>,
        FrameError,
    >)
        requires
            old(self).wf(),
            command matches ConnectionCommand::NewConnection { peer } ==> peer.wf(),
        ensures
            final(self).wf(),
            match command {
                ConnectionCommand::NewConnection { peer } => r matches Ok(out) && out@.len() == 0
                    && final(self).connected_peers@ == old(self).connected_peers@.push(peer)
                    && final(self).events@ == old(self).events@.push(
                    ConnectionEvent::PeerConnected { timestamp: now },
                ),
                ConnectionCommand::SendMessage { message_buf } => final(self).connected_peers@
                    == old(self).connected_peers@ && (match r {
                    Ok(out) => message_buf@.len() + 1 <= u32::MAX && out@.len() == old(
                        self,
                    ).connected_peers@.len() && (forall|i: int|
                        0 <= i < out@.len() ==> (#[trigger] out@[i]).peer@ == old(
                            self,
                        ).connected_peers@[i]@ && out@[i].frame@ == spec_encode_frame(
                            spec_encode_peer_message(PeerMessageView::Sync(message_buf@)),
                        )) && final(self).events@ == old(self).events@,
                    Err(e) => message_buf@.len() + 1 > u32::MAX && e == FrameError::Oversize
                        && final(self).events@ == old(self).events@.push(
                        ConnectionEvent::Error { timestamp: now },
                    ),
                }),
            },
    {
        match command {
            ConnectionCommand::NewConnection { peer } => {
                self.handle_new_connection(peer, now);
                Ok(Vec::new())
            },
            ConnectionCommand::SendMessage { message_buf } => {
                let frame = match ConnectionService::make_sync_frame(message_buf) {
                    Ok(f) => f,
                    Err(e) => {
                        self.record_error(now);
                        return Err(e);
                    },
                };
                Ok(self.broadcast_frames(&frame))
            },
        }
    }
}

} // verus!

//! Plain types of the peer-to-peer layer: peer identities, protocol
//! declarations, handshakes, and the framed messages peers exchange.

use vstd::prelude::*;

use crate::block::Block;
use crate::primitives::H256;

verus! {

/// A semantic version.
#[derive(PartialEq, Eq, Structural, Clone, Copy, Debug)]
pub struct SemVer {
    pub major: u16,
    pub minor: u16,
    pub patch: u16,
}

/// The identity of a peer on the mock transport.
#[derive(PartialEq, Eq, Structural, Clone, Copy, Debug, Hash)]
pub struct MockPeerId {
    pub id: u64,
}

impl MockPeerId {
    pub fn from_u64(id: u64) -> (r: Self)
        ensures
            r.id == id,
    {
        MockPeerId { id }
    }
}

/// What a peer declares about itself.
pub struct MockPeerInfo {
    pub peer_id: MockPeerId,
    pub net: crate::config::ChainType,
    pub version: SemVer,
    pub agent: Option<Vec<u8>>,
    pub protocols: Vec<Protocol>,
}

/// An event a peer emits during its handshake.
pub enum PeerEvent {
    PeerInfoReceived { network: crate::config::ChainType, version: SemVer, protocols: Vec<Protocol> },
}

/// An event the backend sends to peers.
#[derive(PartialEq, Eq, Structural, Clone, Copy, Debug)]
pub enum MockEvent {
    Dummy,
}

/// An event of the syncing service.
#[derive(PartialEq, Eq, Structural, Clone, Copy, Debug)]
pub enum SyncingEvent {
    Connected { peer: MockPeerId },
    Disconnected { peer: MockPeerId },
}

/// One protocol a peer speaks, with its version.
pub struct Protocol {
    pub name: Vec<u8>,
    pub version: SemVer,
}

impl Protocol {
    pub fn new(name: Vec<u8>, version: SemVer) -> (r: Self)
        ensures
            r.name == name,
            r.version == version,
    {
        Protocol { name, version }
    }
}

/// The handshake either side opens a connection with.
pub enum HandshakeMessage {
    Hello { version: SemVer, network: u8, protocols: Vec<Protocol> },
    HelloAck { version: SemVer, network: u8, protocols: Vec<Protocol> },
}

/// A framed message between peers.
pub enum Message {
    Handshake(HandshakeMessage),
    HeaderList(Vec<crate::block::BlockHeader>),
    BlockListRequest(Vec<H256>),
    BlockResponse(Block),
    TransactionRequest(H256),
    NewTransaction(H256),
}

/// The plain TCP transport for real connections; connecting and
/// listening are I/O and live with the runtime around the library.
#[derive(PartialEq, Eq, Structural, Clone, Copy, Debug)]
pub struct TcpTransportSocket;

impl TcpTransportSocket {
    pub fn new() -> (r: Self) {
        TcpTransportSocket
    }
}

/// The TCP transport of the mock network, generic over its encryption.
pub struct TcpMockTransportBase<E> {
    pub encryption: E,
}

/// Which side of a connection a handshake runs on.
#[derive(PartialEq, Eq, Structural, Clone, Copy, Debug)]
pub enum Side {
    Inbound,
    Outbound,
}

/// What a transport listener reports about itself; binding and
/// accepting are I/O and live with the runtime around the library.
pub trait TransportListener {
    fn local_address_count(&self) -> usize;
}

/// The peer-to-peer surface a node exposes to its operators.
pub trait P2pInterface {
    fn get_peer_count(&self) -> usize;

    fn is_reserved_node(&self, peer: &MockPeerId) -> bool;
}

} // verus!

//! The values that the sync engine exchanges with peers and with the
//! platform shell.

use vstd::prelude::*;
use crate::text::{copy_string};

verus! {

/// Information about a discovered or paired peer.
#[derive(Clone, Debug)]
pub struct PeerInfo {
    pub peer_id: String,
    pub display_name: String,
    pub addresses: Vec<String>,
    pub is_connected: bool,
}

/// Mathematical value of a [`PeerInfo`].
pub struct PeerInfoView {
    pub peer_id: Seq<char>,
    pub display_name: Seq<char>,
    pub addresses: Seq<Seq<char>>,
    pub is_connected: bool,
}

/// The texts of a list of strings.
pub open spec fn strings_view(s: Seq<String>) -> Seq<Seq<char>> {
    s.map_values(|x: String| x@)
}

impl View for PeerInfo {
    type V = PeerInfoView;

    open spec fn view(&self) -> PeerInfoView {
        PeerInfoView {
            peer_id: self.peer_id@,
            display_name: self.display_name@,
            addresses: strings_view(self.addresses@),
            is_connected: self.is_connected,
        }
    }
}

/// A copy of a list of strings.
pub fn copy_strings(v: &Vec<String>) -> (r: Vec<String>)
    ensures
        strings_view(r@) == strings_view(v@),
{
    let mut r: Vec<String> = Vec::new();
    let mut i: usize = 0;
    while i < v.len()
        invariant
            i <= v@.len(),
            r@.len() == i,
            forall|j: int| 0 <= j < i ==> r@[j]@ == v@[j]@,
        decreases v@.len() - i,
    {
        r.push(copy_string(&v[i]));
        i = i + 1;
    }
    assert(strings_view(r@) =~= strings_view(v@));
    r
}

impl PeerInfo {
    /// A copy of this peer information.
    pub fn duplicate(&self) -> (r: PeerInfo)
        ensures
            r@ == self@,
    {
        PeerInfo {
            peer_id: copy_string(&self.peer_id),
            display_name: copy_string(&self.display_name),
            addresses: copy_strings(&self.addresses),
            is_connected: self.is_connected,
        }
    }
}

/// A clipboard item as it travels between devices: timestamps as RFC 3339
/// text and content values in base64.
#[derive(Clone, Debug)]
pub struct SyncItem {
    pub id: String,
    pub application: Option<String>,
    pub first_copied_at: String,
    pub last_copied_at: String,
    pub number_of_copies: i64,
    pub pin: Option<String>,
    pub title: String,
    pub contents: Vec<SyncItemContent>,
    pub sync_timestamp: String,
    pub sync_source: String,
}

/// One content entry of a [`SyncItem`] (its type is named "type" on the wire).
#[derive(Clone, Debug)]
pub struct SyncItemContent {
    pub content_type: String,
    pub value: Option<String>,
}

/// Messages sent to the sync topic.
#[derive(Clone, Debug)]
pub enum SyncMessage {
    ItemAdded { item_json: String },
    ItemDeleted { id: String, timestamp: String },
    ItemUpdated { item_json: String },
    Heartbeat { device_id: String, timestamp: String },
}

/// Messages of the pairing protocol, sent to the pairing topic.
#[derive(Clone, Debug)]
pub enum PairingMessage {
    Request { session_id: String, device_name: String, device_id: String, public_key: Vec<u8> },
    Challenge { session_id: String, pin: String, device_name: String, public_key: Vec<u8> },
    Confirm { session_id: String },
    Accept { session_id: String },
    Reject { session_id: String },
}

/// Bulk sync for the first sync and for reconnections.
#[derive(Clone, Debug)]
pub enum BulkSyncMessage {
    Request { since_timestamp: String },
    Response { items_json: String },
}

/// A request for a file that a peer offers.
#[derive(Clone, Debug)]
pub struct FileRequest {
    pub request_id: String,
    pub file_path: String,
    pub offset: u64,
}

/// A chunk of a requested file.
#[derive(Clone, Debug)]
pub struct FileChunk {
    pub request_id: String,
    pub file_name: String,
    pub file_size: u64,
    pub chunk_index: u32,
    pub total_chunks: u32,
    pub data: Vec<u8>,
}

/// Events that the sync engine reports to the platform shell.
#[derive(Clone, Debug)]
pub enum SyncEvent {
    ItemReceived { item_json: String },
    ItemDeleted { item_id: String },
    ItemUpdated { item_json: String },
    PeerDiscovered { peer: PeerInfo },
    PeerLost { peer_id: String },
    PairingRequest { peer_id: String, display_name: String, pin: String },
    PairingComplete { peer_id: String, success: bool },
    Listening { address: String },
    Error { code: i32, message: String },
    FileChunkReceived { request_id: String, file_name: String, file_size: u64, chunk_index: u32, total_chunks: u32, data: Vec<u8> },
    FileDownloadComplete { request_id: String, file_path: String, success: bool },
}

/// Commands that the platform shell sends to the sync engine.
#[derive(Clone, Debug)]
pub enum SyncCommand {
    StartDiscovery,
    StopDiscovery,
    RequestPairing { peer_id: String },
    AcceptPairing { peer_id: String, pin: String },
    RejectPairing { peer_id: String },
    BroadcastItem { item_json: String },
    BroadcastDeletion { item_id: String },
    BroadcastUpdate { item_json: String },
    AddPeerAddress { address: String },
    Unpair { peer_id: String },
    SendFileChunk { peer_id: String, request_id: String, file_path: String, offset: u64 },
    Shutdown,
}

/// Mathematical value of a [`SyncMessage`].
pub enum SyncMessageView {
    ItemAdded { item_json: Seq<char> },
    ItemDeleted { id: Seq<char>, timestamp: Seq<char> },
    ItemUpdated { item_json: Seq<char> },
    Heartbeat { device_id: Seq<char>, timestamp: Seq<char> },
}

impl View for SyncMessage {
    type V = SyncMessageView;

    open spec fn view(&self) -> SyncMessageView {
        match self {
            SyncMessage::ItemAdded { item_json } => SyncMessageView::ItemAdded { item_json: item_json@ },
            SyncMessage::ItemDeleted { id, timestamp } => SyncMessageView::ItemDeleted { id: id@, timestamp: timestamp@ },
            SyncMessage::ItemUpdated { item_json } => SyncMessageView::ItemUpdated { item_json: item_json@ },
            SyncMessage::Heartbeat { device_id, timestamp } => SyncMessageView::Heartbeat { device_id: device_id@, timestamp: timestamp@ },
        }
    }
}

/// Mathematical value of a [`PairingMessage`].
pub enum PairingMessageView {
    Request { session_id: Seq<char>, device_name: Seq<char>, device_id: Seq<char>, public_key: Seq<u8> },
    Challenge { session_id: Seq<char>, pin: Seq<char>, device_name: Seq<char>, public_key: Seq<u8> },
    Confirm { session_id: Seq<char> },
    Accept { session_id: Seq<char> },
    Reject { session_id: Seq<char> },
}

impl View for PairingMessage {
    type V = PairingMessageView;

    open spec fn view(&self) -> PairingMessageView {
        match self {
            PairingMessage::Request { session_id, device_name, device_id, public_key } => PairingMessageView::Request {
                session_id: session_id@,
                device_name: device_name@,
                device_id: device_id@,
                public_key: public_key@,
            },
            PairingMessage::Challenge { session_id, pin, device_name, public_key } => PairingMessageView::Challenge {
                session_id: session_id@,
                pin: pin@,
                device_name: device_name@,
                public_key: public_key@,
            },
            PairingMessage::Confirm { session_id } => PairingMessageView::Confirm { session_id: session_id@ },
            PairingMessage::Accept { session_id } => PairingMessageView::Accept { session_id: session_id@ },
            PairingMessage::Reject { session_id } => PairingMessageView::Reject { session_id: session_id@ },
        }
    }
}

/// Mathematical value of a [`FileRequest`].
pub struct FileRequestView {
    pub request_id: Seq<char>,
    pub file_path: Seq<char>,
    pub offset: u64,
}

impl View for FileRequest {
    type V = FileRequestView;

    open spec fn view(&self) -> FileRequestView {
        FileRequestView { request_id: self.request_id@, file_path: self.file_path@, offset: self.offset }
    }
}

/// Mathematical value of a [`FileChunk`].
pub struct FileChunkView {
    pub request_id: Seq<char>,
    pub file_name: Seq<char>,
    pub file_size: u64,
    pub chunk_index: u32,
    pub total_chunks: u32,
    pub data: Seq<u8>,
}

impl View for FileChunk {
    type V = FileChunkView;

    open spec fn view(&self) -> FileChunkView {
        FileChunkView {
            request_id: self.request_id@,
            file_name: self.file_name@,
            file_size: self.file_size,
            chunk_index: self.chunk_index,
            total_chunks: self.total_chunks,
            data: self.data@,
        }
    }
}

/// Mathematical value of a [`SyncEvent`].
pub enum SyncEventView {
    ItemReceived { item_json: Seq<char> },
    ItemDeleted { item_id: Seq<char> },
    ItemUpdated { item_json: Seq<char> },
    PeerDiscovered { peer: PeerInfoView },
    PeerLost { peer_id: Seq<char> },
    PairingRequest { peer_id: Seq<char>, display_name: Seq<char>, pin: Seq<char> },
    PairingComplete { peer_id: Seq<char>, success: bool },
    Listening { address: Seq<char> },
    Error { code: i32, message: Seq<char> },
    FileChunkReceived { request_id: Seq<char>, file_name: Seq<char>, file_size: u64, chunk_index: u32, total_chunks: u32, data: Seq<u8> },
    FileDownloadComplete { request_id: Seq<char>, file_path: Seq<char>, success: bool },
}

impl View for SyncEvent {
    type V = SyncEventView;

    open spec fn view(&self) -> SyncEventView {
        match self {
            SyncEvent::ItemReceived { item_json } => SyncEventView::ItemReceived { item_json: item_json@ },
            SyncEvent::ItemDeleted { item_id } => SyncEventView::ItemDeleted { item_id: item_id@ },
            SyncEvent::ItemUpdated { item_json } => SyncEventView::ItemUpdated { item_json: item_json@ },
            SyncEvent::PeerDiscovered { peer } => SyncEventView::PeerDiscovered { peer: peer@ },
            SyncEvent::PeerLost { peer_id } => SyncEventView::PeerLost { peer_id: peer_id@ },
            SyncEvent::PairingRequest { peer_id, display_name, pin } => SyncEventView::PairingRequest {
                peer_id: peer_id@,
                display_name: display_name@,
                pin: pin@,
            },
            SyncEvent::PairingComplete { peer_id, success } => SyncEventView::PairingComplete { peer_id: peer_id@, success: *success },
            SyncEvent::Listening { address } => SyncEventView::Listening { address: address@ },
            SyncEvent::Error { code, message } => SyncEventView::Error { code: *code, message: message@ },
            SyncEvent::FileChunkReceived { request_id, file_name, file_size, chunk_index, total_chunks, data } => SyncEventView::FileChunkReceived {
                request_id: request_id@,
                file_name: file_name@,
                file_size: *file_size,
                chunk_index: *chunk_index,
                total_chunks: *total_chunks,
                data: data@,
            },
            SyncEvent::FileDownloadComplete { request_id, file_path, success } => SyncEventView::FileDownloadComplete {
                request_id: request_id@,
                file_path: file_path@,
                success: *success,
            },
        }
    }
}

/// Mathematical value of a [`SyncCommand`].
pub enum SyncCommandView {
    StartDiscovery,
    StopDiscovery,
    RequestPairing { peer_id: Seq<char> },
    AcceptPairing { peer_id: Seq<char>, pin: Seq<char> },
    RejectPairing { peer_id: Seq<char> },
    BroadcastItem { item_json: Seq<char> },
    BroadcastDeletion { item_id: Seq<char> },
    BroadcastUpdate { item_json: Seq<char> },
    AddPeerAddress { address: Seq<char> },
    Unpair { peer_id: Seq<char> },
    SendFileChunk { peer_id: Seq<char>, request_id: Seq<char>, file_path: Seq<char>, offset: u64 },
    Shutdown,
}

impl View for SyncCommand {
    type V = SyncCommandView;

    open spec fn view(&self) -> SyncCommandView {
        match self {
            SyncCommand::StartDiscovery => SyncCommandView::StartDiscovery,
            SyncCommand::StopDiscovery => SyncCommandView::StopDiscovery,
            SyncCommand::RequestPairing { peer_id } => SyncCommandView::RequestPairing { peer_id: peer_id@ },
            SyncCommand::AcceptPairing { peer_id, pin } => SyncCommandView::AcceptPairing { peer_id: peer_id@, pin: pin@ },
            SyncCommand::RejectPairing { peer_id } => SyncCommandView::RejectPairing { peer_id: peer_id@ },
            SyncCommand::BroadcastItem { item_json } => SyncCommandView::BroadcastItem { item_json: item_json@ },
            SyncCommand::BroadcastDeletion { item_id } => SyncCommandView::BroadcastDeletion { item_id: item_id@ },
            SyncCommand::BroadcastUpdate { item_json } => SyncCommandView::BroadcastUpdate { item_json: item_json@ },
            SyncCommand::AddPeerAddress { address } => SyncCommandView::AddPeerAddress { address: address@ },
            SyncCommand::Unpair { peer_id } => SyncCommandView::Unpair { peer_id: peer_id@ },
            SyncCommand::SendFileChunk { peer_id, request_id, file_path, offset } => SyncCommandView::SendFileChunk {
                peer_id: peer_id@,
                request_id: request_id@,
                file_path: file_path@,
                offset: *offset,
            },
            SyncCommand::Shutdown => SyncCommandView::Shutdown,
        }
    }
}

/// Gossip topic of clipboard sync messages.
pub const TOPIC_NAME: &'static str = "maccy-sync-v1";

/// Gossip topic of pairing messages.
pub const PAIRING_TOPIC: &'static str = "maccy-sync-pairing-v1";

/// Protocol name of pairing request-response.
pub const PAIRING_PROTOCOL: &'static str = "/maccy-sync/pairing/1";

/// Protocol name of bulk sync request-response.
pub const BULK_SYNC_PROTOCOL: &'static str = "/maccy-sync/bulk/1";

/// Protocol name of file transfer request-response.
pub const FILE_TRANSFER_PROTOCOL: &'static str = "/maccy-sync/file/1";

/// Fixed listen port, for reliable reconnection.
pub const LISTEN_PORT: u16 = 31774;

} // verus!

//! The callbacks through which the platform shell learns of sync events.

use vstd::prelude::*;
use crate::model::ClipboardItem;

verus! {

/// Callback interface that the platform shell (Swift, Kotlin) implements to
/// receive sync events. Nothing is promised of what an implementation does.
pub trait ClipboardObserver: Send + Sync {
    /// A new clipboard item was received from a synced peer.
    fn on_item_received(&self, item: ClipboardItem);

    /// An item was deleted by a synced peer.
    fn on_item_deleted(&self, item_id: String);

    /// An item was updated (appended to, say) by a synced peer.
    fn on_item_updated(&self, item: ClipboardItem);

    /// A peer was discovered on the network.
    fn on_peer_discovered(&self, peer_id: String, display_name: String, addresses: Vec<String>, is_connected: bool);

    /// A peer disconnected or went offline.
    fn on_peer_lost(&self, peer_id: String);

    /// A pairing request was received from a peer.
    fn on_pairing_request(&self, peer_id: String, display_name: String, pin: String);

    /// A pairing request completed (accepted or rejected).
    fn on_pairing_complete(&self, peer_id: String, success: bool);

    /// Sync is now listening on the given multiaddress.
    fn on_listening(&self, address: String);

    /// An error occurred in the sync engine.
    fn on_error(&self, code: i32, message: String);
}

} // verus!

//! The messages that wait for the application.

use vstd::prelude::*;

use crate::client::messages::{messages_view, NodeMessage, NodeMessageView, Progress, Warning};
use crate::chain::header::Hash256;
use crate::primitives::{append, decimal, hash_text, spec_decimal, spec_hash_text};

verus! {

/// The sentence that tells how far the sync has come.
pub open spec fn chain_update_text(headers: u32, cf_headers: u32, filters: u32, best: u32) -> Seq<
    char,
> {
    "Headers ("@ + spec_decimal(headers as nat) + "/"@ + spec_decimal(best as nat)
        + ") Compact Filter Headers ("@ + spec_decimal(cf_headers as nat) + "/"@ + spec_decimal(
        best as nat,
    ) + ") Filters ("@ + spec_decimal(filters as nat) + "/"@ + spec_decimal(best as nat) + ")"@
}

/// The sentence that tells from which height the sync starts.
pub open spec fn starting_text(height: u32) -> Seq<char> {
    "Starting sync from "@ + spec_decimal(height as nat)
}

/// The sentence that tells that the peer of the session with nonce
/// `nonce` has said what it is.
pub open spec fn peer_version_text(nonce: u32) -> Seq<char> {
    "[Peer "@ + spec_decimal(nonce as nat) + "]: version"@
}

/// The sentence that tells how many peers the node is configured to keep
/// and how many sessions are ready.
pub open spec fn required_peers_text(required: nat, live: nat) -> Seq<char> {
    "Required peers: "@ + spec_decimal(required) + ", connected peers: "@ + spec_decimal(live)
}

/// The sentence that names the block that is asked for next.
pub open spec fn next_block_text(hash: Seq<u8>) -> Seq<char> {
    "Next block in queue: "@ + spec_hash_text(hash)
}

/// The messages the node has for the application, oldest first.
#[derive(Debug)]
pub struct Dialog {
    sent: Vec<NodeMessage>,
}

impl View for Dialog {
    type V = Seq<NodeMessageView>;

    closed spec fn view(&self) -> Seq<NodeMessageView> {
        messages_view(self.sent@)
    }
}

impl Dialog {
    /// No message yet.
    pub fn new() -> (r: Dialog)
        ensures
            r@.len() == 0,
    {
        Dialog { sent: Vec::new() }
    }

    /// Adds a message of any kind.
    pub fn send_data(&mut self, message: NodeMessage)
        ensures
            final(self)@ == old(self)@.push(message@),
    {
        self.sent.push(message);
        assert(messages_view(self.sent@) =~= messages_view(old(self).sent@).push(message@));
    }

    /// Adds a sentence for the log.
    pub fn send_dialog(&mut self, dialog: String)
        ensures
            final(self)@ == old(self)@.push(NodeMessageView::Dialog(dialog@)),
    {
        self.send_data(NodeMessage::Dialog(dialog));
    }

    /// Adds a warning.
    pub fn send_warning(&mut self, warning: Warning)
        ensures
            final(self)@ == old(self)@.push(NodeMessageView::Warning(warning)),
    {
        self.send_data(NodeMessage::Warning(warning));
    }

    /// Tells how far the sync has come: the numbers, then a sentence that
    /// holds them.
    pub fn chain_update(&mut self, num_headers: u32, num_cf_headers: u32, num_filters: u32, best_height: u32)
        ensures
            final(self)@ == old(self)@.push(
                NodeMessageView::Progress(
                    Progress {
                        filter_headers: num_cf_headers,
                        filters: num_filters,
                        tip_height: best_height,
                    },
                ),
            ).push(
                NodeMessageView::Dialog(
                    chain_update_text(num_headers, num_cf_headers, num_filters, best_height),
                ),
            ),
    {
        self.send_data(NodeMessage::Progress(Progress::new(num_cf_headers, num_filters, best_height)));
        let best: String = decimal(best_height as u64);
        let mut text: String = "Headers (".to_owned();
        append(&mut text, decimal(num_headers as u64).as_str());
        append(&mut text, "/");
        append(&mut text, best.as_str());
        append(&mut text, ") Compact Filter Headers (");
        append(&mut text, decimal(num_cf_headers as u64).as_str());
        append(&mut text, "/");
        append(&mut text, best.as_str());
        append(&mut text, ") Filters (");
        append(&mut text, decimal(num_filters as u64).as_str());
        append(&mut text, "/");
        append(&mut text, best.as_str());
        append(&mut text, ")");
        self.send_dialog(text);
    }

    /// Tells from which height the sync starts.
    pub fn starting(&mut self, height: u32)
        ensures
            final(self)@ == old(self)@.push(NodeMessageView::Dialog(starting_text(height))),
    {
        let mut text: String = "Starting sync from ".to_owned();
        append(&mut text, decimal(height as u64).as_str());
        self.send_dialog(text);
    }

    /// Tells that the peer of the session with nonce `nonce` has said what
    /// it is.
    pub fn peer_version(&mut self, nonce: u32)
        ensures
            final(self)@ == old(self)@.push(NodeMessageView::Dialog(peer_version_text(nonce))),
    {
        let mut text: String = "[Peer ".to_owned();
        append(&mut text, decimal(nonce as u64).as_str());
        append(&mut text, "]: version");
        self.send_dialog(text);
    }

    /// Tells how many peers the node is configured to keep and how many
    /// sessions are ready.
    pub fn required_peers(&mut self, required: usize, live: usize)
        ensures
            final(self)@ == old(self)@.push(
                NodeMessageView::Dialog(required_peers_text(required as nat, live as nat)),
            ),
    {
        let mut text: String = "Required peers: ".to_owned();
        append(&mut text, decimal(required as u64).as_str());
        append(&mut text, ", connected peers: ");
        append(&mut text, decimal(live as u64).as_str());
        self.send_dialog(text);
    }

    /// Names the block that is asked for next.
    pub fn next_block(&mut self, hash: &Hash256)
        ensures
            final(self)@ == old(self)@.push(NodeMessageView::Dialog(next_block_text(hash@))),
    {
        let mut text: String = "Next block in queue: ".to_owned();
        append(&mut text, hash_text(hash).as_str());
        self.send_dialog(text);
    }

    /// Hands out the messages and keeps none.
    pub fn drain(&mut self) -> (r: Vec<NodeMessage>)
        ensures
            messages_view(r@) == old(self)@,
            final(self)@.len() == 0,
    {
        let mut taken: Vec<NodeMessage> = Vec::new();
        taken.append(&mut self.sent);
        taken
    }
}

} // verus!

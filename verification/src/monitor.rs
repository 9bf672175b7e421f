//! The capture task's per-datagram decision: self-originated frames are
//! skipped before any analysis, so a frame this node replays is never
//! re-ingested; everything else runs through the analyzer into the
//! buffer.
//!
//! The raw socket itself (promiscuous, one-second read timeout) is owned
//! by the embedding process, which hands each datagram and its
//! link-layer packet type here.

use vstd::prelude::*;

use crate::firewall_service::FirewallService;
use crate::writer::{spec_process_effect, PacketWriter};

verus! {

/// The link-layer `sll_pkttype` value marking a frame this host sent.
pub const PACKET_OUTGOING: u8 = 4;

pub struct NetworkMonitor {}

impl NetworkMonitor {
    /// Handles one received datagram.  A frame whose packet type is
    /// `PACKET_OUTGOING` never reaches the buffer; any other frame is
    /// analysed and queued exactly as `PacketWriter::process_packet`
    /// promises.
    pub fn handle_frame(
        writer: &mut PacketWriter,
        firewall: &FirewallService,
        pkttype: u8,
        frame: &[u8],
    ) -> (skipped: bool)
        ensures
            skipped == (pkttype == PACKET_OUTGOING),
            pkttype == PACKET_OUTGOING ==> final(writer)@ == old(writer)@,
            pkttype != PACKET_OUTGOING ==> spec_process_effect(
                *firewall,
                frame@,
                old(writer)@,
                final(writer)@,
            ),
    {
        if pkttype == PACKET_OUTGOING {
            return true;
        }
        let _ = writer.process_packet(firewall, frame);
        false
    }
}

} // verus!

//! The writer side of the pipeline: analysing a captured frame into the
//! buffer, and the flush that drains the buffer for bulk insertion.
//!
//! The embedding process runs the 10 ms tick and the database
//! round-trips; the decisions — what enters the buffer, what a flush
//! hands the repository — are here.

use vstd::prelude::*;

use crate::analyzer::{
    spec_accept_fields, spec_is_frame_packet, AnalyzeResult, PacketAnalyzer,
};
use crate::buffer::PacketBuffer;
use crate::errors::WriterError;
use crate::ethernet::spec_u16_be;
use crate::firewall::FirewallPacket;
use crate::firewall_service::FirewallService;
use crate::ip::spec_parse_ip_packet;
use crate::types::{spec_models, EtherType, PacketData, PacketModel};

verus! {

pub struct PacketWriter {
    buffer: PacketBuffer,
}

impl View for PacketWriter {
    type V = Seq<PacketModel>;

    /// The queued packets, oldest first.
    closed spec fn view(&self) -> Seq<PacketModel> {
        self.buffer@
    }
}

impl Default for PacketWriter {
    fn default() -> (r: PacketWriter)
        ensures
            r@.len() == 0,
    {
        PacketWriter { buffer: PacketBuffer::new() }
    }
}

/// How one frame changes the queued packets `pre` into `post`: a frame
/// the parser rejects changes nothing; a parsed frame is appended as one
/// record with the projection's fields exactly when the firewall allows
/// it and it is not IPv6, and changes nothing otherwise.
pub open spec fn spec_process_effect(
    firewall: FirewallService,
    frame: Seq<u8>,
    pre: Seq<PacketModel>,
    post: Seq<PacketModel>,
) -> bool {
    &&& (frame.len() < 34 ==> post == pre)
    &&& ((frame.len() >= 34 && spec_parse_ip_packet(frame, spec_u16_be(frame[12], frame[13]))
        is None) ==> post == pre)
    &&& (frame.len() >= 34 ==> (forall|fp: FirewallPacket|
        spec_is_frame_packet(fp, frame) ==> (if (firewall.spec_check(fp) && spec_u16_be(
            frame[12],
            frame[13],
        ) != EtherType::IP_V6) {
            post.len() == pre.len() + 1 && post == pre.push(post.last())
                && spec_accept_fields(post.last(), fp, frame)
        } else {
            post == pre
        })))
}

impl PacketWriter {
    /// Analyses one captured frame and queues it when the parser accepts
    /// it, the firewall allows it, and it is not IPv6.  A rejected frame
    /// leaves the buffer untouched; the call itself never fails.
    pub fn process_packet(&mut self, firewall: &FirewallService, ethernet_frame: &[u8]) -> (r:
        Result<(), WriterError>)
        ensures
            r is Ok,
            spec_process_effect(*firewall, ethernet_frame@, old(self)@, final(self)@),
    {
        match PacketAnalyzer::analyze_packet(firewall, ethernet_frame) {
            AnalyzeResult::Accept(packet_data) => {
                self.buffer.push(packet_data);
                Ok(())
            },
            AnalyzeResult::Reject => Ok(()),
        }
    }

    /// Queues an already analysed record.
    pub fn push(&mut self, packet: PacketData)
        ensures
            final(self)@ == old(self)@.push(packet@),
    {
        self.buffer.push(packet);
    }

    /// Takes everything queued, in insertion order, leaving the buffer
    /// empty; what comes back is what the flush must insert.
    pub fn take_pending(&mut self) -> (out: Vec<PacketData>)
        ensures
            final(self)@.len() == 0,
            spec_models(out@) == old(self)@,
    {
        self.buffer.drain()
    }

    pub fn pending_len(&self) -> (n: usize)
        ensures
            n == self@.len(),
    {
        self.buffer.len()
    }
}

} // verus!

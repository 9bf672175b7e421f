//! The storage adapter's pure half: how a drained batch is cut into
//! chunks of fifty, the eleven parallel column arrays bound to the
//! array-unnest INSERT, the bounded retry rule, and the check that the
//! declared row count matches the batch.
//!
//! The embedding process owns the connections and transactions; it walks
//! the chunks this module computes and performs one INSERT per chunk.

use vstd::prelude::*;

use crate::errors::DatabaseError;
use crate::types::{spec_models, InetAddr, MacAddr, PacketData, PacketModel};

verus! {

broadcast use
    crate::types::lemma_models_index,
    vstd::seq::lemma_seq_push_index_different_alt,
;

/// Rows per INSERT transaction.
pub const CHUNK_SIZE: usize = 50;

/// Retries allowed per chunk after the first attempt.
pub const MAX_RETRIES: u64 = 3;

pub struct PacketRepository {}

/// The number of chunks a batch of `len` rows yields.
pub open spec fn spec_chunk_count(len: nat) -> nat {
    (len + 49) / 50
}

/// The half-open row range of chunk `k`.
pub open spec fn spec_chunk_range(len: nat, k: nat) -> (nat, nat) {
    (
        (k * 50) as nat,
        if k * 50 + 50 <= len {
            (k * 50 + 50) as nat
        } else {
            len
        },
    )
}

/// The eleven parallel column arrays of one INSERT, index-aligned: row
/// `i` of the statement is built from position `i` of every array.
pub struct InsertBatch {
    pub node_ids: Vec<i16>,
    pub timestamps: Vec<i64>,
    pub src_macs: Vec<MacAddr>,
    pub dst_macs: Vec<MacAddr>,
    pub ether_types: Vec<i32>,
    pub ip_protocols: Vec<i32>,
    pub src_ips: Vec<InetAddr>,
    pub dst_ips: Vec<InetAddr>,
    pub src_ports: Vec<i32>,
    pub dst_ports: Vec<i32>,
    pub raw_packets: Vec<Vec<u8>>,
}

/// Each column of `b` holds, in row order, the corresponding field of
/// `packets`, with the node column constant.
pub open spec fn spec_batch_matches(b: InsertBatch, node_id: i16, packets: Seq<PacketModel>) -> bool {
    &&& b.node_ids@.len() == packets.len()
    &&& b.timestamps@.len() == packets.len()
    &&& b.src_macs@.len() == packets.len()
    &&& b.dst_macs@.len() == packets.len()
    &&& b.ether_types@.len() == packets.len()
    &&& b.ip_protocols@.len() == packets.len()
    &&& b.src_ips@.len() == packets.len()
    &&& b.dst_ips@.len() == packets.len()
    &&& b.src_ports@.len() == packets.len()
    &&& b.dst_ports@.len() == packets.len()
    &&& b.raw_packets@.len() == packets.len()
    &&& (forall|i: int| 0 <= i < packets.len() ==> #[trigger] b.node_ids@[i] == node_id)
    &&& (forall|i: int|
        0 <= i < packets.len() ==> #[trigger] b.timestamps@[i] == packets[i].timestamp_micros)
    &&& (forall|i: int|
        0 <= i < packets.len() ==> #[trigger] b.src_macs@[i] == packets[i].src_mac)
    &&& (forall|i: int|
        0 <= i < packets.len() ==> #[trigger] b.dst_macs@[i] == packets[i].dst_mac)
    &&& (forall|i: int|
        0 <= i < packets.len() ==> #[trigger] b.ether_types@[i] == packets[i].ether_type.0 as i32)
    &&& (forall|i: int|
        0 <= i < packets.len() ==> #[trigger] b.ip_protocols@[i] == packets[i].ip_protocol.0
            as i32)
    &&& (forall|i: int|
        0 <= i < packets.len() ==> (#[trigger] b.src_ips@[i]).0 == packets[i].src_ip)
    &&& (forall|i: int|
        0 <= i < packets.len() ==> (#[trigger] b.dst_ips@[i]).0 == packets[i].dst_ip)
    &&& (forall|i: int|
        0 <= i < packets.len() ==> #[trigger] b.src_ports@[i] == packets[i].src_port)
    &&& (forall|i: int|
        0 <= i < packets.len() ==> #[trigger] b.dst_ports@[i] == packets[i].dst_port)
    &&& (forall|i: int|
        0 <= i < packets.len() ==> (#[trigger] b.raw_packets@[i])@ == packets[i].raw)
}

impl PacketRepository {
    /// How many chunks a drained batch of `len` packets yields: one per
    /// started fifty.
    pub fn chunk_count(len: usize) -> (n: usize)
        ensures
            n == spec_chunk_count(len as nat),
    {
        if len == 0 {
            0
        } else {
            (len - 1) / CHUNK_SIZE + 1
        }
    }

    /// Copies chunk `k` of the batch: rows `50k` up to `50k + 50`
    /// exclusive, clipped to the batch end.
    pub fn chunk(packets: &Vec<PacketData>, k: usize) -> (chunk: Vec<PacketData>)
        requires
            k < spec_chunk_count(packets@.len()),
        ensures
            spec_models(chunk@) == spec_models(packets@).subrange(
                spec_chunk_range(packets@.len(), k as nat).0 as int,
                spec_chunk_range(packets@.len(), k as nat).1 as int,
            ),
            chunk@.len() <= 50,
    {
        let n: usize = packets.len();
        proof {
            assert(k * 50 < n) by (nonlinear_arith)
                requires
                    k < (n + 49) / 50,
            ;
        }
        let start: usize = k * CHUNK_SIZE;
        let end: usize = if n - start >= CHUNK_SIZE {
            start + CHUNK_SIZE
        } else {
            n
        };
        let mut chunk: Vec<PacketData> = Vec::new();
        let mut i: usize = start;
        while i < end
            invariant
                start <= i <= end <= packets@.len(),
                end <= start + 50,
                chunk@.len() == i - start,
                forall|j: int|
                    0 <= j < i - start ==> (#[trigger] chunk@[j])@ == packets@[start + j]@,
            decreases end - i,
        {
            chunk.push(packets[i].duplicate());
            i = i + 1;
        }
        proof {
            assert(spec_models(chunk@) =~= spec_models(packets@).subrange(
                start as int,
                end as int,
            ));
        }
        chunk
    }

    /// Builds the column arrays for one chunk.
    pub fn build_insert_batch(node_id: i16, packets: &Vec<PacketData>) -> (b: InsertBatch)
        ensures
            spec_batch_matches(b, node_id, spec_models(packets@)),
    {
        let ghost models = spec_models(packets@);
        let mut b = InsertBatch {
            node_ids: Vec::new(),
            timestamps: Vec::new(),
            src_macs: Vec::new(),
            dst_macs: Vec::new(),
            ether_types: Vec::new(),
            ip_protocols: Vec::new(),
            src_ips: Vec::new(),
            dst_ips: Vec::new(),
            src_ports: Vec::new(),
            dst_ports: Vec::new(),
            raw_packets: Vec::new(),
        };
        let mut i: usize = 0;
        while i < packets.len()
            invariant
                i <= packets@.len(),
                models == spec_models(packets@),
                b.node_ids@.len() == i,
                b.timestamps@.len() == i,
                b.src_macs@.len() == i,
                b.dst_macs@.len() == i,
                b.ether_types@.len() == i,
                b.ip_protocols@.len() == i,
                b.src_ips@.len() == i,
                b.dst_ips@.len() == i,
                b.src_ports@.len() == i,
                b.dst_ports@.len() == i,
                b.raw_packets@.len() == i,
                forall|j: int| 0 <= j < i ==> #[trigger] b.node_ids@[j] == node_id,
                forall|j: int|
                    0 <= j < i ==> #[trigger] b.timestamps@[j] == models[j].timestamp_micros,
                forall|j: int| 0 <= j < i ==> #[trigger] b.src_macs@[j] == models[j].src_mac,
                forall|j: int| 0 <= j < i ==> #[trigger] b.dst_macs@[j] == models[j].dst_mac,
                forall|j: int|
                    0 <= j < i ==> #[trigger] b.ether_types@[j] == models[j].ether_type.0 as i32,
                forall|j: int|
                    0 <= j < i ==> #[trigger] b.ip_protocols@[j] == models[j].ip_protocol.0
                        as i32,
                forall|j: int| 0 <= j < i ==> (#[trigger] b.src_ips@[j]).0 == models[j].src_ip,
                forall|j: int| 0 <= j < i ==> (#[trigger] b.dst_ips@[j]).0 == models[j].dst_ip,
                forall|j: int| 0 <= j < i ==> #[trigger] b.src_ports@[j] == models[j].src_port,
                forall|j: int| 0 <= j < i ==> #[trigger] b.dst_ports@[j] == models[j].dst_port,
                forall|j: int| 0 <= j < i ==> (#[trigger] b.raw_packets@[j])@ == models[j].raw,
            decreases packets@.len() - i,
        {
            let p = &packets[i];
            b.node_ids.push(node_id);
            b.timestamps.push(p.timestamp_micros);
            b.src_macs.push(p.src_mac);
            b.dst_macs.push(p.dst_mac);
            b.ether_types.push(p.ether_type.as_i32());
            b.ip_protocols.push(p.ip_protocol.as_i32());
            b.src_ips.push(p.src_ip);
            b.dst_ips.push(p.dst_ip);
            b.src_ports.push(p.src_port);
            b.dst_ports.push(p.dst_port);
            b.raw_packets.push(crate::types::clone_bytes(&p.raw_packet));
            proof {
                assert(models[i as int] == packets@[i as int]@);
            }
            i = i + 1;
        }
        b
    }

    /// The per-chunk retry rule: after `retries` failed attempts, wait
    /// `100 · (retries + 1)` milliseconds and try again, up to three
    /// retries; then the chunk's error aborts the flush.
    pub fn next_retry_delay_ms(retries: u64) -> (r: Option<u64>)
        ensures
            retries < MAX_RETRIES ==> r == Some((100 * (retries + 1)) as u64),
            retries >= MAX_RETRIES ==> r is None,
    {
        if retries < MAX_RETRIES {
            Some(100 * (retries + 1))
        } else {
            None
        }
    }

    /// The writer's hard check on a chunk: the row count the statement
    /// declared must equal the chunk size.
    pub fn verify_insert_count(expected: usize, actual: u64) -> (r: Result<(), DatabaseError>)
        ensures
            r is Ok <==> actual == expected as u64,
    {
        if actual == expected as u64 {
            Ok(())
        } else {
            Err(DatabaseError::QueryExecutionError(String::new()))
        }
    }
}

/// The chunks tile the batch: ranges are adjacent, the last ends at the
/// batch length, and every chunk but the last holds exactly fifty rows.
pub proof fn lemma_chunks_tile(len: nat, k: nat)
    requires
        k < spec_chunk_count(len),
    ensures
        spec_chunk_range(len, k).0 == k * 50,
        spec_chunk_range(len, k).0 < spec_chunk_range(len, k).1 <= len,
        k + 1 < spec_chunk_count(len) ==> spec_chunk_range(len, k).1 == (k + 1) * 50,
        k + 1 == spec_chunk_count(len) ==> spec_chunk_range(len, k).1 == len,
{
    assert(k * 50 < len && (k + 1 < (len + 49) / 50 ==> k * 50 + 50 <= len) && (k + 1 == (len + 49)
        / 50 ==> (k * 50 + 50 >= len))) by (nonlinear_arith)
        requires
            k < (len + 49) / 50,
    ;
}

} // verus!

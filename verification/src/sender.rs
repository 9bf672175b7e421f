//! The replay sender's schedule: how long to wait before each frame so
//! that the original inter-arrival cadence is preserved, and which frames
//! the MTU policy drops.
//!
//! The embedding process performs the sleeps and the L2 sends; per-frame
//! send errors are logged there and the walk continues.

use vstd::prelude::*;

verus! {

pub struct PacketSender {}

/// Frames longer than this are dropped with a log, never sent.
pub const MAX_PACKET_SIZE: usize = 1500;

/// One step of the replay schedule: wait, then send — or skip an
/// oversized frame.
#[derive(Debug, Clone, Copy)]
pub struct SendStep {
    pub wait_micros: i64,
    pub send: bool,
}

/// Whether the frame at position `i` is sent: the MTU policy alone
/// decides.
pub open spec fn spec_sends(packets: Seq<(i64, Vec<u8>)>, i: int) -> bool {
    packets[i].1@.len() <= 1500
}

/// The send reference before step `i`: the capture timestamp of the last
/// frame sent so far, initially that of the first frame.
pub open spec fn spec_send_ref(packets: Seq<(i64, Vec<u8>)>, i: nat) -> i64
    decreases i,
{
    if i == 0 {
        packets[0].0
    } else if spec_sends(packets, i - 1) {
        packets[i - 1].0
    } else {
        spec_send_ref(packets, (i - 1) as nat)
    }
}

/// The wait before step `i`: the positive part of the gap between this
/// frame's capture time and the reference.
pub open spec fn spec_wait(packets: Seq<(i64, Vec<u8>)>, i: nat) -> int {
    if packets[i as int].0 > spec_send_ref(packets, i) {
        packets[i as int].0 - spec_send_ref(packets, i)
    } else {
        0
    }
}

/// The scheduled offset of step `k` from the walk's start: the waits so
/// far, summed.
pub open spec fn spec_send_offset(packets: Seq<(i64, Vec<u8>)>, k: nat) -> int
    decreases k,
{
    if k == 0 {
        spec_wait(packets, 0)
    } else {
        spec_send_offset(packets, (k - 1) as nat) + spec_wait(packets, k)
    }
}

/// The reference is always one of the capture timestamps seen so far.
proof fn lemma_ref_in_range(packets: Seq<(i64, Vec<u8>)>, i: nat)
    requires
        i < packets.len(),
        forall|j: int| 0 <= j < packets.len() ==> #[trigger] packets[j].0 >= 0,
    ensures
        spec_send_ref(packets, i) >= 0,
    decreases i,
{
    if i > 0 && !spec_sends(packets, i - 1) {
        lemma_ref_in_range(packets, (i - 1) as nat);
    }
}

impl PacketSender {
    /// Computes the replay schedule for a batch of `(timestamp, frame)`
    /// pairs: each step's wait and whether the MTU policy lets the frame
    /// go out.  Timestamps are microseconds since the epoch and so
    /// non-negative.
    pub fn plan_send(packets: &Vec<(i64, Vec<u8>)>) -> (plan: Vec<SendStep>)
        requires
            forall|j: int| 0 <= j < packets@.len() ==> #[trigger] packets@[j].0 >= 0,
        ensures
            plan@.len() == packets@.len(),
            forall|i: int|
                0 <= i < plan@.len() ==> (#[trigger] plan@[i]).send == spec_sends(packets@, i),
            forall|i: int|
                0 <= i < plan@.len() ==> (#[trigger] plan@[i]).wait_micros == spec_wait(
                    packets@,
                    i as nat,
                ),
    {
        let mut plan: Vec<SendStep> = Vec::new();
        if packets.len() == 0 {
            return plan;
        }

        let mut last_packet_time: i64 = packets[0].0;
        let mut i: usize = 0;
        while i < packets.len()
            invariant
                i <= packets@.len(),
                packets@.len() >= 1,
                forall|j: int| 0 <= j < packets@.len() ==> #[trigger] packets@[j].0 >= 0,
                plan@.len() == i,
                last_packet_time == spec_send_ref(packets@, i as nat),
                forall|j: int|
                    0 <= j < i ==> (#[trigger] plan@[j]).send == spec_sends(packets@, j),
                forall|j: int|
                    0 <= j < i ==> (#[trigger] plan@[j]).wait_micros == spec_wait(
                        packets@,
                        j as nat,
                    ),
            decreases packets@.len() - i,
        {
            proof {
                lemma_ref_in_range(packets@, i as nat);
            }
            let timestamp: i64 = packets[i].0;
            let wait: i64 = if timestamp > last_packet_time {
                timestamp - last_packet_time
            } else {
                0
            };
            let send: bool = packets[i].1.len() <= MAX_PACKET_SIZE;
            plan.push(SendStep { wait_micros: wait, send });
            if send {
                last_packet_time = timestamp;
            }
            i = i + 1;
        }
        plan
    }
}

/// Replay cadence: when the capture timestamps arrive sorted (as the
/// store returns them), the scheduled send times keep at least the
/// original gaps — step `k`'s offset from the first send is no less than
/// the original spacing `t_k - t_0`.  The proof keeps alongside it that
/// the offset also dominates the current reference's spacing.
pub proof fn lemma_replay_cadence(packets: Seq<(i64, Vec<u8>)>, k: nat)
    requires
        k < packets.len(),
        forall|i: int, j: int|
            0 <= i <= j < packets.len() ==> #[trigger] packets[i].0 <= #[trigger] packets[j].0,
    ensures
        spec_send_offset(packets, k) >= packets[k as int].0 - packets[0].0,
        spec_send_offset(packets, k) >= spec_send_ref(packets, (k + 1) as nat) - packets[0].0,
    decreases k,
{
    if k == 0 {
        assert(spec_send_ref(packets, 0) == packets[0].0);
    } else {
        lemma_replay_cadence(packets, (k - 1) as nat);
        assert(spec_wait(packets, k) >= packets[k as int].0 - spec_send_ref(packets, k));
    }
}

} // verus!

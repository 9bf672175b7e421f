//! The reader/replay side: which peer packets an iteration selects from
//! the shared store, the processed markers that make replay idempotent,
//! and the cursor state carried between iterations.
//!
//! The embedding process runs the SQL; the selection that query must
//! perform is `spec_select` over a snapshot of the `packets` table, and
//! `fetch_and_mark` is one reader iteration over such a snapshot made
//! executable: select, record markers, advance the cursor, and hand the
//! frames to the sender.

use vstd::prelude::*;

use crate::types::clone_bytes;

verus! {

/// A row of the `packets` table as replay reads it.
#[derive(Debug)]
pub struct StoredPacket {
    pub id: i64,
    pub node_id: i16,
    pub timestamp_micros: i64,
    pub raw_packet: Vec<u8>,
}

/// The selection-relevant part of a stored row.
#[derive(Debug, Clone, Copy, PartialEq, Eq, Structural)]
pub struct StoredMeta {
    pub id: i64,
    pub node_id: i16,
    pub timestamp_micros: i64,
}

/// A row of `processed_packets`: this node has replayed that packet.
#[derive(Debug, Clone, Copy, PartialEq, Eq, Structural)]
pub struct ProcessedMarker {
    pub packet_id: i64,
    pub node_id: i16,
}

/// The parameters of one fetch: the timestamp bound, whether the bound
/// is strict, and whether selected rows are to be marked processed.
#[derive(Debug, Clone, Copy, PartialEq, Eq, Structural)]
pub struct FetchPlan {
    pub min_timestamp_micros: i64,
    pub strict: bool,
    pub mark: bool,
}

/// The replay cursor: the newest timestamp seen, and whether the
/// bootstrap fetch is still ahead.
#[derive(Debug, Clone, Copy)]
pub struct PacketReader {
    pub last_timestamp_micros: Option<i64>,
    pub is_first_fetch: bool,
}

pub open spec fn spec_meta(p: StoredPacket) -> StoredMeta {
    StoredMeta { id: p.id, node_id: p.node_id, timestamp_micros: p.timestamp_micros }
}

/// The metadata of a table snapshot, in row order.
pub open spec fn spec_metas(table: Seq<StoredPacket>) -> Seq<StoredMeta> {
    table.map(|i: int, p: StoredPacket| spec_meta(p))
}

/// No two rows share an id (the store's primary key).
pub open spec fn spec_ids_unique(metas: Seq<StoredMeta>) -> bool {
    forall|i: int, j: int|
        0 <= i < j < metas.len() ==> #[trigger] metas[i].id != #[trigger] metas[j].id
}

/// Whether this node has a marker for `packet_id`.
pub open spec fn spec_marked(processed: Seq<ProcessedMarker>, packet_id: i64, node_id: i16) -> bool {
    exists|i: int|
        0 <= i < processed.len() && #[trigger] processed[i] == (ProcessedMarker {
            packet_id,
            node_id,
        })
}

/// No marker occurs twice: each packet is recorded at most once per node.
pub open spec fn spec_markers_unique(processed: Seq<ProcessedMarker>) -> bool {
    forall|i: int, j: int|
        0 <= i < j < processed.len() ==> #[trigger] processed[i] != #[trigger] processed[j]
}

/// Whether a row clears a plan's timestamp bound.
pub open spec fn spec_time_eligible(m: StoredMeta, plan: FetchPlan) -> bool {
    if plan.strict {
        m.timestamp_micros > plan.min_timestamp_micros
    } else {
        m.timestamp_micros >= plan.min_timestamp_micros
    }
}

/// Whether a fetch selects a row: a peer row clearing the bound that,
/// in a marking fetch, this node has not yet processed.
pub open spec fn spec_eligible(
    m: StoredMeta,
    node_id: i16,
    plan: FetchPlan,
    processed: Seq<ProcessedMarker>,
) -> bool {
    &&& m.node_id != node_id
    &&& spec_time_eligible(m, plan)
    &&& (plan.mark ==> !spec_marked(processed, m.id, node_id))
}

/// The rows a fetch selects, in table order.
pub open spec fn spec_select(
    metas: Seq<StoredMeta>,
    node_id: i16,
    plan: FetchPlan,
    processed: Seq<ProcessedMarker>,
) -> Seq<StoredMeta> {
    metas.filter(|m: StoredMeta| spec_eligible(m, node_id, plan, processed))
}

/// The rows a fetch selects with their frames, in table order; the
/// eligibility of a row reads only its metadata.
pub open spec fn spec_select_rows(
    table: Seq<StoredPacket>,
    node_id: i16,
    plan: FetchPlan,
    processed: Seq<ProcessedMarker>,
) -> Seq<StoredPacket> {
    table.filter(|p: StoredPacket| spec_eligible(spec_meta(p), node_id, plan, processed))
}

/// The marker a selected row leaves behind.
pub open spec fn spec_marker_of(m: StoredMeta, node_id: i16) -> ProcessedMarker {
    ProcessedMarker { packet_id: m.id, node_id }
}

/// The markers of a selection, in order.
pub open spec fn spec_markers_of(sel: Seq<StoredMeta>, node_id: i16) -> Seq<ProcessedMarker> {
    sel.map(|i: int, m: StoredMeta| spec_marker_of(m, node_id))
}

/// A marker stays present when more markers are appended.
pub proof fn lemma_marked_append(
    s: Seq<ProcessedMarker>,
    t: Seq<ProcessedMarker>,
    packet_id: i64,
    node_id: i16,
)
    requires
        spec_marked(s, packet_id, node_id),
    ensures
        spec_marked(s + t, packet_id, node_id),
{
    let i = choose|i: int|
        0 <= i < s.len() && #[trigger] s[i] == (ProcessedMarker { packet_id, node_id });
    assert((s + t)[i] == s[i]);
}

/// A fetch for which no row is eligible selects nothing.
pub proof fn lemma_select_empty(
    metas: Seq<StoredMeta>,
    node_id: i16,
    plan: FetchPlan,
    processed: Seq<ProcessedMarker>,
)
    requires
        forall|k: int|
            0 <= k < metas.len() ==> !spec_eligible(#[trigger] metas[k], node_id, plan, processed),
    ensures
        spec_select(metas, node_id, plan, processed) == Seq::<StoredMeta>::empty(),
    decreases metas.len(),
{
    reveal(Seq::filter);
    if metas.len() > 0 {
        assert(metas.drop_last() =~= metas.subrange(0, metas.len() - 1));
        assert(forall|k: int|
            0 <= k < metas.drop_last().len() ==> metas.drop_last()[k] == #[trigger] metas[k]);
        lemma_select_empty(metas.drop_last(), node_id, plan, processed);
    }
}

/// Replay idempotence: once every peer row within a marking plan's
/// window carries this node's marker, that fetch selects nothing — so a
/// second marking iteration over an unchanged table re-selects and
/// re-sends no packet, and no packet acquires a second marker.
pub proof fn lemma_replay_idempotent(
    metas: Seq<StoredMeta>,
    node_id: i16,
    plan: FetchPlan,
    processed: Seq<ProcessedMarker>,
)
    requires
        plan.mark,
        forall|k: int|
            0 <= k < metas.len() ==> ((#[trigger] metas[k]).node_id != node_id
                && spec_time_eligible(metas[k], plan) ==> spec_marked(
                processed,
                metas[k].id,
                node_id,
            )),
    ensures
        spec_select(metas, node_id, plan, processed) == Seq::<StoredMeta>::empty(),
{
    assert forall|k: int|
        0 <= k < metas.len() implies !spec_eligible(
        #[trigger] metas[k],
        node_id,
        plan,
        processed,
    ) by {
        if metas[k].node_id != node_id && spec_time_eligible(metas[k], plan) {
            assert(spec_marked(processed, metas[k].id, node_id));
        }
    }
    lemma_select_empty(metas, node_id, plan, processed);
}

/// Rows at or before the cursor are never re-selected: every fetch
/// after the bootstrap is strict, so a row whose timestamp the cursor
/// has already covered — in particular every row the bootstrap fetch
/// sent without marking — stays outside all later windows.
pub proof fn lemma_cursor_excludes_sent(
    m: StoredMeta,
    plan: FetchPlan,
    node_id: i16,
    processed: Seq<ProcessedMarker>,
)
    requires
        plan.strict,
        m.timestamp_micros <= plan.min_timestamp_micros,
    ensures
        !spec_eligible(m, node_id, plan, processed),
{
}

/// Whether this node already has a marker for `packet_id`.
pub fn is_marked(processed: &Vec<ProcessedMarker>, packet_id: i64, node_id: i16) -> (r: bool)
    ensures
        r == spec_marked(processed@, packet_id, node_id),
{
    let mut i: usize = 0;
    while i < processed.len()
        invariant
            i <= processed@.len(),
            forall|j: int|
                0 <= j < i ==> #[trigger] processed@[j] != (ProcessedMarker {
                    packet_id,
                    node_id,
                }),
        decreases processed@.len() - i,
    {
        let m = &processed[i];
        if m.packet_id == packet_id && m.node_id == node_id {
            proof {
                assert(processed@[i as int] == (ProcessedMarker { packet_id, node_id }));
            }
            return true;
        }
        i = i + 1;
    }
    false
}

/// What `fetch_plan` computes for a cursor at a given time.
pub open spec fn spec_plan(reader: PacketReader, now_micros: i64) -> FetchPlan {
    if reader.is_first_fetch {
        FetchPlan {
            min_timestamp_micros: (now_micros - 4_000_000) as i64,
            strict: false,
            mark: false,
        }
    } else {
        match reader.last_timestamp_micros {
            Some(t) => FetchPlan { min_timestamp_micros: t, strict: true, mark: true },
            None => FetchPlan {
                min_timestamp_micros: (now_micros - 5_000_000) as i64,
                strict: true,
                mark: true,
            },
        }
    }
}

impl PacketReader {
    pub fn new() -> (r: PacketReader)
        ensures
            r.last_timestamp_micros is None,
            r.is_first_fetch == true,
    {
        PacketReader { last_timestamp_micros: None, is_first_fetch: true }
    }

    /// The query an iteration runs now.  The bootstrap fetch looks four
    /// seconds back, inclusive, and marks nothing; later fetches take
    /// strictly newer rows than the cursor — five seconds back when no
    /// timestamp has been seen yet — and mark what they select.
    pub fn fetch_plan(&self, now_micros: i64) -> (plan: FetchPlan)
        requires
            now_micros >= 5_000_000,
        ensures
            plan == spec_plan(*self, now_micros),
    {
        if self.is_first_fetch {
            FetchPlan {
                min_timestamp_micros: now_micros - 4_000_000,
                strict: false,
                mark: false,
            }
        } else {
            match self.last_timestamp_micros {
                Some(t) => FetchPlan { min_timestamp_micros: t, strict: true, mark: true },
                None => FetchPlan {
                    min_timestamp_micros: now_micros - 5_000_000,
                    strict: true,
                    mark: true,
                },
            }
        }
    }

    /// The loop's pacing: a short breath after a clean iteration, a long
    /// back-off after a failed one.
    pub fn post_iteration_delay_ms(ok: bool) -> (d: u64)
        ensures
            ok ==> d == 10,
            !ok ==> d == 5000,
    {
        if ok {
            10
        } else {
            5000
        }
    }

    /// One reader iteration over a table snapshot: selects the eligible
    /// peer rows in order, records a marker per selected row on a
    /// marking fetch, advances the cursor to the newest selected
    /// timestamp, clears the bootstrap flag, and returns the
    /// `(timestamp, frame)` pairs for the sender.
    pub fn fetch_and_mark(
        &mut self,
        table: &Vec<StoredPacket>,
        processed: &mut Vec<ProcessedMarker>,
        node_id: i16,
        now_micros: i64,
    ) -> (sent: Vec<(i64, Vec<u8>)>)
        requires
            now_micros >= 5_000_000,
            spec_markers_unique(old(processed)@),
            spec_ids_unique(spec_metas(table@)),
        ensures
            ({
                let plan = spec_plan(*old(self), now_micros);
                let metas = spec_metas(table@);
                let sel = spec_select(metas, node_id, plan, old(processed)@);
                let sel_rows = spec_select_rows(table@, node_id, plan, old(processed)@);
                &&& sel == spec_metas(sel_rows)
                &&& sent@.len() == sel.len()
                &&& (forall|i: int|
                    0 <= i < sel.len() ==> (#[trigger] sent@[i]).0 == sel[i].timestamp_micros)
                &&& (forall|i: int|
                    0 <= i < sel_rows.len() ==> (#[trigger] sent@[i]).1@ == sel_rows[
                        i
                    ].raw_packet@)
                &&& (plan.mark ==> final(processed)@ == old(processed)@ + spec_markers_of(
                    sel,
                    node_id,
                ))
                &&& (!plan.mark ==> final(processed)@ == old(processed)@)
                &&& spec_markers_unique(final(processed)@)
                &&& (plan.mark ==> (forall|k: int|
                    0 <= k < metas.len() ==> (((#[trigger] metas[k]).node_id != node_id
                        && spec_time_eligible(metas[k], plan)) ==> spec_marked(
                        final(processed)@,
                        metas[k].id,
                        node_id,
                    ))))
                &&& final(self).is_first_fetch == false
                &&& (sel.len() == 0 ==> final(self).last_timestamp_micros == old(
                    self,
                ).last_timestamp_micros)
                &&& (sel.len() > 0 ==> (final(self).last_timestamp_micros matches Some(m)
                    && (forall|i: int|
                    0 <= i < sel.len() ==> (#[trigger] sel[i]).timestamp_micros <= m) && (exists|
                    i: int,
                |
                    0 <= i < sel.len() && (#[trigger] sel[i]).timestamp_micros == m)))
            }),
    {
        let ghost metas = spec_metas(table@);
        let plan = self.fetch_plan(now_micros);
        let mut sent: Vec<(i64, Vec<u8>)> = Vec::new();
        let mut pending: Vec<ProcessedMarker> = Vec::new();
        let mut max_ts: i64 = 0;
        let mut have_max: bool = false;

        let mut i: usize = 0;
        while i < table.len()
            invariant
                i <= table@.len(),
                metas == spec_metas(table@),
                metas.len() == table@.len(),
                spec_markers_unique(processed@),
                spec_ids_unique(metas),
                ({
                    let sel = spec_select(metas.take(i as int), node_id, plan, processed@);
                    let sel_rows = spec_select_rows(
                        table@.take(i as int),
                        node_id,
                        plan,
                        processed@,
                    );
                    &&& sel == spec_metas(sel_rows)
                    &&& sent@.len() == sel.len()
                    &&& (forall|j: int|
                        0 <= j < sel.len() ==> (#[trigger] sent@[j]).0 == sel[j].timestamp_micros)
                    &&& (forall|j: int|
                        0 <= j < sel_rows.len() ==> (#[trigger] sent@[j]).1@ == sel_rows[
                            j
                        ].raw_packet@)
                    &&& (plan.mark ==> pending@ == spec_markers_of(sel, node_id))
                    &&& (!plan.mark ==> pending@.len() == 0)
                    &&& spec_markers_unique(processed@ + pending@)
                    &&& (forall|m: int|
                        0 <= m < pending@.len() ==> (exists|t: int|
                            0 <= t < i && (#[trigger] pending@[m]).packet_id == metas[t].id
                                && pending@[m].node_id == node_id))
                    &&& (plan.mark ==> (forall|t: int|
                        0 <= t < i ==> (((#[trigger] metas[t]).node_id != node_id
                            && spec_time_eligible(metas[t], plan)) ==> (spec_marked(
                            processed@,
                            metas[t].id,
                            node_id,
                        ) || spec_marked(pending@, metas[t].id, node_id)))))
                    &&& have_max == (sel.len() > 0)
                    &&& (have_max ==> ((forall|j: int|
                        0 <= j < sel.len() ==> (#[trigger] sel[j]).timestamp_micros <= max_ts) && (
                    exists|j: int|
                        0 <= j < sel.len() && (#[trigger] sel[j]).timestamp_micros == max_ts)))
                }),
            decreases table@.len() - i,
        {
            let row = &table[i];
            let time_ok = if plan.strict {
                row.timestamp_micros > plan.min_timestamp_micros
            } else {
                row.timestamp_micros >= plan.min_timestamp_micros
            };
            let eligible = row.node_id != node_id && time_ok && (!plan.mark || !is_marked(
                processed,
                row.id,
                node_id,
            ));

            proof {
                assert(spec_meta(table@[i as int]) == metas[i as int]);
                assert(eligible == spec_eligible(metas[i as int], node_id, plan, processed@));
                reveal(Seq::filter);
                assert(metas.take(i + 1).drop_last() =~= metas.take(i as int));
                assert(metas.take(i + 1).last() == metas[i as int]);
                assert(table@.take(i + 1).drop_last() =~= table@.take(i as int));
                assert(table@.take(i + 1).last() == table@[i as int]);
            }

            if eligible {
                let ghost pending_pre = pending@;
                let ghost sent_pre = sent@;
                let ghost max_pre = max_ts;
                let ghost have_pre = have_max;
                let raw = clone_bytes(&row.raw_packet);
                sent.push((row.timestamp_micros, raw));
                if plan.mark {
                    pending.push(ProcessedMarker { packet_id: row.id, node_id });
                }
                if !have_max || row.timestamp_micros > max_ts {
                    max_ts = row.timestamp_micros;
                }
                have_max = true;
                proof {
                    let sel_old = spec_select(metas.take(i as int), node_id, plan, processed@);
                    let sel2 = spec_select(metas.take(i + 1), node_id, plan, processed@);
                    assert(sel2 == sel_old.push(metas[i as int]));
                    let rows_old = spec_select_rows(table@.take(i as int), node_id, plan, processed@);
                    let rows2 = spec_select_rows(table@.take(i + 1), node_id, plan, processed@);
                    assert(rows2 == rows_old.push(table@[i as int]));
                    assert(sel2 =~= spec_metas(rows2));
                    let last = sel2.len() - 1;
                    assert(sel2[last] == metas[i as int]);
                    assert(sent@ =~= sent_pre.push((table@[i as int].timestamp_micros, raw)));
                    assert(raw@ == table@[i as int].raw_packet@);

                    assert forall|j: int|
                        0 <= j < sel2.len() implies (#[trigger] sel2[j]).timestamp_micros
                        <= max_ts by {
                        if j < last {
                            assert(sel2[j] == sel_old[j]);
                        }
                    }
                    assert(exists|j: int|
                        0 <= j < sel2.len() && (#[trigger] sel2[j]).timestamp_micros == max_ts)
                        by {
                        if !have_pre || table@[i as int].timestamp_micros > max_pre {
                            assert(sel2[last].timestamp_micros == max_ts);
                        } else {
                            let j0 = choose|j: int|
                                0 <= j < sel_old.len() && (#[trigger] sel_old[j]).timestamp_micros
                                    == max_pre;
                            assert(sel2[j0].timestamp_micros == max_ts);
                        }
                    }

                    if plan.mark {
                        let nm = ProcessedMarker { packet_id: metas[i as int].id, node_id };
                        assert(pending@ =~= pending_pre.push(nm));
                        assert(pending@ =~= spec_markers_of(sel2, node_id));
                        let cat_old = processed@ + pending_pre;
                        let cat = processed@ + pending@;
                        assert(cat =~= cat_old.push(nm));
                        assert forall|a: int, b: int|
                            0 <= a < b < cat.len() implies cat[a] != cat[b] by {
                            if b + 1 == cat.len() {
                                assert(cat[b] == nm);
                                assert(cat[a] == cat_old[a]);
                                if a < processed@.len() {
                                    assert(!spec_marked(processed@, metas[i as int].id, node_id));
                                    if cat[a] == nm {
                                        assert(processed@[a] == nm);
                                    }
                                } else {
                                    let t = choose|t: int|
                                        0 <= t < i && (#[trigger] pending_pre[a - processed@.len()])
                                            .packet_id == metas[t].id && pending_pre[a
                                            - processed@.len()].node_id == node_id;
                                    assert(metas[t].id != metas[i as int].id);
                                }
                            } else {
                                assert(cat[a] == cat_old[a] && cat[b] == cat_old[b]);
                            }
                        }
                        assert(spec_marked(pending@, metas[i as int].id, node_id)) by {
                            assert(pending@[pending@.len() - 1] == nm);
                        }
                        assert forall|t: int|
                            0 <= t < i + 1 && ((#[trigger] metas[t]).node_id != node_id
                                && spec_time_eligible(metas[t], plan)) implies (spec_marked(
                            processed@,
                            metas[t].id,
                            node_id,
                        ) || spec_marked(pending@, metas[t].id, node_id)) by {
                            if t < i {
                                if spec_marked(pending_pre, metas[t].id, node_id) {
                                    let m0 = choose|m: int|
                                        0 <= m < pending_pre.len() && #[trigger] pending_pre[m]
                                            == (ProcessedMarker {
                                            packet_id: metas[t].id,
                                            node_id,
                                        });
                                    assert(pending@[m0] == pending_pre[m0]);
                                }
                            }
                        }
                    }
                }
            } else {
                proof {
                    let sel_old = spec_select(metas.take(i as int), node_id, plan, processed@);
                    let sel2 = spec_select(metas.take(i + 1), node_id, plan, processed@);
                    assert(sel2 == sel_old);
                    let rows_old = spec_select_rows(table@.take(i as int), node_id, plan, processed@);
                    let rows2 = spec_select_rows(table@.take(i + 1), node_id, plan, processed@);
                    assert(rows2 == rows_old);
                    if plan.mark && metas[i as int].node_id != node_id && spec_time_eligible(
                        metas[i as int],
                        plan,
                    ) {
                        assert(spec_marked(processed@, metas[i as int].id, node_id));
                    }
                }
            }
            i = i + 1;
        }

        proof {
            assert(metas.take(table@.len() as int) =~= metas);
            assert(table@.take(table@.len() as int) =~= table@);
        }

        let ghost old_processed = processed@;

        if plan.mark {
            let mut k: usize = 0;
            while k < pending.len()
                invariant
                    k <= pending@.len(),
                    processed@ == old_processed + pending@.take(k as int),
                    spec_markers_unique(old_processed + pending@),
                decreases pending@.len() - k,
            {
                processed.push(pending[k]);
                proof {
                    assert(processed@ =~= old_processed + pending@.take(k + 1));
                }
                k = k + 1;
            }
            proof {
                assert(pending@.take(pending@.len() as int) =~= pending@);
                assert(processed@ =~= old_processed + pending@);
            }
        }

        proof {
            if plan.mark {
                assert forall|k: int|
                    0 <= k < metas.len() && ((#[trigger] metas[k]).node_id != node_id
                        && spec_time_eligible(metas[k], plan)) implies spec_marked(
                    processed@,
                    metas[k].id,
                    node_id,
                ) by {
                    if spec_marked(old_processed, metas[k].id, node_id) {
                        lemma_marked_append(old_processed, pending@, metas[k].id, node_id);
                    } else {
                        assert(spec_marked(pending@, metas[k].id, node_id));
                        let m = choose|m: int|
                            0 <= m < pending@.len() && #[trigger] pending@[m]
                                == (ProcessedMarker { packet_id: metas[k].id, node_id });
                        assert(processed@[old_processed.len() + m] == pending@[m]);
                    }
                }
            }
        }

        if !sent.is_empty() {
            self.last_timestamp_micros = Some(max_ts);
        }
        self.is_first_fetch = false;

        sent
    }
}

} // verus!

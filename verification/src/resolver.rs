//! The date-to-block search: estimation, iterative refinement, and a final
//! boundary scan.
//!
//! The resolver is a state machine that owns the block cache and asks its
//! caller for one value at a time: the chain head number, then single
//! blocks. The caller performs the remote fetches and reports each answer
//! back; memoized blocks are consumed without any request. The search runs
//! through these stations:
//!
//! 1. validation: fetch the genesis and head blocks; a target instant
//!    outside `[genesis.timestamp, head.timestamp]` fails with `OutOfRange`;
//! 2. initial estimate: a coarse average block time over a window ending at
//!    the head predicts a first candidate, and a small window around that
//!    candidate yields a locally accurate rate (every window is clamped to
//!    the blocks that exist below its anchor, so short chains and anchors
//!    near genesis still resolve);
//! 3. coarse refinement: while the candidate's timestamp is at least 100
//!    block times away from the target, re-predict from the candidate with
//!    a re-anchored coarse rate, at most [`COARSE_REFINE_CAP`] times;
//! 4. fine adjustment: one extra prediction step if the difference still
//!    exceeds 5 block times;
//! 5. boundary scan: walk down while the current block is after the target,
//!    then walk up until the target sits between two adjacent blocks, and
//!    pick the floor or ceiling block as the caller asked.
//!
//! [`Web3Dater::resolve_block_by_date`] drives the same machine against a
//! chain held in memory and carries the proof that a finished resolution
//! returns exactly the floor or ceiling block.

use vstd::prelude::*;
use crate::block::{
    BlockRecord, TargetDate, chain_wf, in_dom, resolves_to, lemma_ts_strictly_increasing,
    lemma_resolution_unique,
};
use crate::cache::BlockCache;
use crate::error::ResolveError;
use crate::estimator::{
    AvgBlockTime, average_block_time, constant_spacing, diff_at_least, diff_more_than,
    diff_reaches, diff_exceeds, lemma_estimate_exact_on_constant_spacing,
    DEFAULT_ESTIMATE_WINDOW, REFINED_ESTIMATE_WINDOW,
};
use crate::predictor::{
    predict_block_number, predict_spec, lemma_predict_exact_on_constant_spacing,
};
use vstd::math::abs;

verus! {

/// Iteration bound of the coarse refinement loop; exceeding it fails the
/// resolution with `ConvergenceFailure`.
pub const COARSE_REFINE_CAP: u64 = 64;

/// The coarse loop keeps refining while the time difference is at least
/// this many block times.
pub const COARSE_REFINE_THRESHOLD: u64 = 100;

/// One fine adjustment is made when the difference still strictly exceeds
/// this many block times.
pub const FINE_ADJUST_THRESHOLD: u64 = 5;

/// On a chain whose blocks sit exactly `d` seconds apart, the refinement
/// loop converges at once: the first predicted candidate is already less
/// than [`COARSE_REFINE_THRESHOLD`] block times away from the target, so
/// no refinement round runs, and it is within [`FINE_ADJUST_THRESHOLD`]
/// block times as well, so not even the single fine adjustment is taken.
/// The search goes straight to the boundary scan, at most one block away
/// from its destination.
pub proof fn lemma_constant_spacing_converges_at_once(
    g: int,
    d: int,
    anchor: int,
    head: int,
    t: int,
    bt_coarse: AvgBlockTime,
    bt_fine: AvgBlockTime,
)
    requires
        1 <= d,
        0 <= anchor <= head,
        g <= t <= g + head * d,
        1 <= bt_coarse.window_blocks,
        bt_coarse.span_seconds == bt_coarse.window_blocks * d,
        1 <= bt_fine.window_blocks,
        bt_fine.span_seconds == bt_fine.window_blocks * d,
    ensures
        ({
            let p = predict_spec(anchor, g + anchor * d, t, bt_coarse, head);
            &&& !diff_reaches(t, g + p * d, bt_fine, COARSE_REFINE_THRESHOLD as int)
            &&& !diff_exceeds(t, g + p * d, bt_fine, FINE_ADJUST_THRESHOLD as int)
        }),
{
    lemma_predict_exact_on_constant_spacing(g, d, anchor, head, t, bt_coarse);
    let p = predict_spec(anchor, g + anchor * d, t, bt_coarse, head);
    let w2 = bt_fine.window_blocks as int;
    assert(abs(t - (g + p * d)) <= d);
    assert(bt_fine.span_seconds as int == d * w2) by (nonlinear_arith)
        requires
            bt_fine.span_seconds == bt_fine.window_blocks * d,
            w2 == bt_fine.window_blocks as int,
    ;
    assert(abs(t - (g + p * d)) * w2 < 100 * (d * w2)) by (nonlinear_arith)
        requires
            abs(t - (g + p * d)) <= d,
            1 <= w2,
            1 <= d,
    ;
    assert(abs(t - (g + p * d)) * w2 <= 5 * (d * w2)) by (nonlinear_arith)
        requires
            abs(t - (g + p * d)) <= d,
            1 <= w2,
            1 <= d,
    ;
}

/// What the resolver asks of its caller next.
#[derive(Clone, Copy, Debug)]
pub enum Action {
    /// No resolution is underway.
    Idle,
    /// Ask the collaborator for the current chain head number and report it
    /// with [`Web3Dater::on_head`].
    NeedHead,
    /// Ask the collaborator for this block and report it with
    /// [`Web3Dater::on_block`] or [`Web3Dater::on_not_found`].
    NeedBlock(u64),
    /// The machine advanced on a memoized block; poll again.
    Progress,
    /// The resolution finished with this block.
    Done(BlockRecord),
    /// The resolution failed; nothing is retried.
    Failed(ResolveError),
}

/// Where the search stands, together with the data the next step needs.
#[derive(Clone, Copy, Debug)]
enum Phase {
    Idle,
    NeedHead,
    FetchGenesis,
    FetchHead,
    CoarseFirst { head_ts: u64, w: u64 },
    FineEstFirst { p: u64, w2: u64 },
    FineEstLast { p: u64, w2: u64, first_ts: u64 },
    RefineFirst { sbn: u64, cur_ts: u64, bt: AvgBlockTime, w3: u64 },
    Candidate { sbn: u64, bt: AvgBlockTime },
    ScanDown { sbn: u64 },
    ScanUp { sbn: u64, cur: BlockRecord },
    Done { rec: BlockRecord },
    Failed { err: ResolveError },
}

/// Resolves a target instant to the chain block closest to it, caching
/// every block it has seen within the session.
pub struct Web3Dater {
    cache: BlockCache,
    target_ts: u64,
    after: bool,
    head: u64,
    attempts: u64,
    phase: Phase,
}

/// The block number the machine is waiting for, if any.
pub closed spec fn needs(m: Web3Dater) -> Option<u64> {
    match m.phase {
        Phase::FetchGenesis => Some(0u64),
        Phase::FetchHead => Some(m.head),
        Phase::CoarseFirst { head_ts, w } => Some((m.head - w) as u64),
        Phase::FineEstFirst { p, w2 } => Some((p - w2) as u64),
        Phase::FineEstLast { p, w2, first_ts } => Some(p),
        Phase::RefineFirst { sbn, cur_ts, bt, w3 } => Some((sbn - w3) as u64),
        Phase::Candidate { sbn, bt } => Some(sbn),
        Phase::ScanDown { sbn } => Some(sbn),
        Phase::ScanUp { sbn, cur } => Some((sbn + 1) as u64),
        _ => None,
    }
}

/// The machine with another phase and everything else unchanged.
spec fn with_phase(m: Web3Dater, ph: Phase) -> Web3Dater {
    Web3Dater { phase: ph, ..m }
}

/// The machine failed with `err`.
spec fn fail_spec(m: Web3Dater, err: ResolveError) -> Web3Dater {
    with_phase(m, Phase::Failed { err })
}

/// End of the scan at the chain head: the head block is at or before the
/// target, so it is the floor; it is also the ceiling exactly when its
/// timestamp equals the target, and otherwise no ceiling exists.
spec fn finish_at_head_spec(m: Web3Dater, rec: BlockRecord) -> Web3Dater {
    if m.after && rec.timestamp < m.target_ts {
        fail_spec(m, ResolveError::OutOfRange)
    } else {
        with_phase(m, Phase::Done { rec })
    }
}

/// The decision taken after each candidate block: stop refining and scan
/// (with one optional fine adjustment), keep refining, or give up.
spec fn loop_check_spec(m: Web3Dater, sbn: u64, cur_ts: u64, bt: AvgBlockTime) -> Web3Dater {
    if !diff_reaches(m.target_ts as int, cur_ts as int, bt, COARSE_REFINE_THRESHOLD as int) {
        if diff_exceeds(m.target_ts as int, cur_ts as int, bt, FINE_ADJUST_THRESHOLD as int) {
            let s2: u64 = predict_spec(
                sbn as int,
                cur_ts as int,
                m.target_ts as int,
                bt,
                m.head as int,
            ) as u64;
            with_phase(m, Phase::ScanDown { sbn: s2 })
        } else {
            with_phase(m, Phase::ScanDown { sbn })
        }
    } else if m.attempts == 0 {
        fail_spec(m, ResolveError::ConvergenceFailure)
    } else {
        let w3: u64 = if DEFAULT_ESTIMATE_WINDOW < sbn {
            DEFAULT_ESTIMATE_WINDOW
        } else {
            sbn
        };
        if w3 == 0 {
            with_phase(m, Phase::ScanDown { sbn: 0 })
        } else {
            Web3Dater {
                attempts: (m.attempts - 1) as u64,
                phase: Phase::RefineFirst { sbn, cur_ts, bt, w3 },
                ..m
            }
        }
    }
}

/// The whole transition relation of the machine: what one reported block
/// does to the phase and the attempt budget. The cache and the frozen
/// inputs (target, flag, head) never change here.
spec fn advance_spec(m: Web3Dater, rec: BlockRecord) -> Web3Dater {
    match m.phase {
        Phase::FetchGenesis => {
            if m.target_ts < rec.timestamp {
                fail_spec(m, ResolveError::OutOfRange)
            } else {
                with_phase(m, Phase::FetchHead)
            }
        },
        Phase::FetchHead => {
            if m.target_ts > rec.timestamp {
                fail_spec(m, ResolveError::OutOfRange)
            } else if m.head == 0 {
                with_phase(m, Phase::Done { rec })
            } else {
                let w: u64 = if DEFAULT_ESTIMATE_WINDOW < m.head {
                    DEFAULT_ESTIMATE_WINDOW
                } else {
                    m.head
                };
                with_phase(m, Phase::CoarseFirst { head_ts: rec.timestamp, w })
            }
        },
        Phase::CoarseFirst { head_ts, w } => {
            if head_ts <= rec.timestamp {
                fail_spec(m, ResolveError::ZeroBlockTime)
            } else {
                let bt = AvgBlockTime {
                    span_seconds: (head_ts - rec.timestamp) as u64,
                    window_blocks: w,
                };
                let p: u64 = predict_spec(
                    m.head as int,
                    head_ts as int,
                    m.target_ts as int,
                    bt,
                    m.head as int,
                ) as u64;
                if p == 0 {
                    with_phase(m, Phase::ScanDown { sbn: 0 })
                } else {
                    let w2: u64 = if REFINED_ESTIMATE_WINDOW < p {
                        REFINED_ESTIMATE_WINDOW
                    } else {
                        p
                    };
                    with_phase(m, Phase::FineEstFirst { p, w2 })
                }
            }
        },
        Phase::FineEstFirst { p, w2 } => {
            with_phase(m, Phase::FineEstLast { p, w2, first_ts: rec.timestamp })
        },
        Phase::FineEstLast { p, w2, first_ts } => {
            if rec.timestamp <= first_ts {
                fail_spec(m, ResolveError::ZeroBlockTime)
            } else {
                let bt = AvgBlockTime {
                    span_seconds: (rec.timestamp - first_ts) as u64,
                    window_blocks: w2,
                };
                loop_check_spec(m, p, rec.timestamp, bt)
            }
        },
        Phase::RefineFirst { sbn, cur_ts, bt, w3 } => {
            if cur_ts <= rec.timestamp {
                fail_spec(m, ResolveError::ZeroBlockTime)
            } else {
                let bt3 = AvgBlockTime {
                    span_seconds: (cur_ts - rec.timestamp) as u64,
                    window_blocks: w3,
                };
                let nsbn: u64 = predict_spec(
                    sbn as int,
                    cur_ts as int,
                    m.target_ts as int,
                    bt3,
                    m.head as int,
                ) as u64;
                with_phase(m, Phase::Candidate { sbn: nsbn, bt })
            }
        },
        Phase::Candidate { sbn, bt } => loop_check_spec(m, sbn, rec.timestamp, bt),
        Phase::ScanDown { sbn } => {
            if rec.timestamp > m.target_ts {
                if sbn == 0 {
                    fail_spec(m, ResolveError::OutOfRange)
                } else {
                    with_phase(m, Phase::ScanDown { sbn: (sbn - 1) as u64 })
                }
            } else if sbn == m.head {
                finish_at_head_spec(m, rec)
            } else {
                with_phase(m, Phase::ScanUp { sbn, cur: rec })
            }
        },
        Phase::ScanUp { sbn, cur } => {
            if rec.timestamp <= m.target_ts {
                if sbn + 1 == m.head {
                    finish_at_head_spec(m, rec)
                } else {
                    with_phase(m, Phase::ScanUp { sbn: (sbn + 1) as u64, cur: rec })
                }
            } else {
                if !m.after {
                    with_phase(m, Phase::Done { rec: cur })
                } else if cur.timestamp >= m.target_ts {
                    with_phase(m, Phase::Done { rec: cur })
                } else {
                    with_phase(m, Phase::Done { rec })
                }
            }
        },
        _ => m,
    }
}

/// Rank of a phase in the fixed forward order of the search; together with
/// the attempt budget and the scan position it bounds the number of steps
/// a resolution can take.
spec fn phase_rank(m: Web3Dater) -> int {
    match m.phase {
        Phase::Idle => 13,
        Phase::NeedHead => 12,
        Phase::FetchGenesis => 11,
        Phase::FetchHead => 10,
        Phase::CoarseFirst { head_ts, w } => 9,
        Phase::FineEstFirst { p, w2 } => 8,
        Phase::FineEstLast { p, w2, first_ts } => 7,
        Phase::RefineFirst { sbn, cur_ts, bt, w3 } => 6,
        Phase::Candidate { sbn, bt } => 5,
        Phase::ScanDown { sbn } => 4,
        Phase::ScanUp { sbn, cur } => 3,
        Phase::Done { rec } => 1,
        Phase::Failed { err } => 0,
    }
}

/// Remaining room of the boundary scan in its current direction.
spec fn scan_pos(m: Web3Dater) -> int {
    match m.phase {
        Phase::ScanDown { sbn } => sbn as int,
        Phase::ScanUp { sbn, cur } => m.head - sbn,
        _ => 0,
    }
}

/// 1 while the machine waits for a block that is not memoized yet.
spec fn pending_miss(m: Web3Dater) -> int {
    if needs(m) matches Some(n) && !m.cache@.contains_key(n) {
        1
    } else {
        0
    }
}

/// A resolution finished with `r` for instant `e` on chain `c`: a returned
/// block is exactly the floor or ceiling block of `e`, `OutOfRange` is
/// returned exactly when `e` misses the chain's time span, and the only
/// other outcome is `ConvergenceFailure` of the refinement loop.
pub open spec fn resolution_post(
    c: Seq<BlockRecord>,
    e: int,
    after: bool,
    r: Result<BlockRecord, ResolveError>,
) -> bool {
    match r {
        Ok(b) => in_dom(c, e) && resolves_to(c, e, after, b),
        Err(err) => {
            ||| (err == ResolveError::OutOfRange && !in_dom(c, e))
            ||| (err == ResolveError::ConvergenceFailure && in_dom(c, e))
        },
    }
}

/// Resolution is idempotent: chain state and inputs alone determine the
/// answer. Any two outcomes that the resolution contract admits for the
/// same chain, instant, and flag are equal, short of a refinement loop
/// that gave up; in particular neither a warm cache nor a repeated call
/// can change a returned block.
pub proof fn lemma_resolution_deterministic(
    c: Seq<BlockRecord>,
    e: int,
    after: bool,
    r1: Result<BlockRecord, ResolveError>,
    r2: Result<BlockRecord, ResolveError>,
)
    requires
        chain_wf(c),
        resolution_post(c, e, after, r1),
        resolution_post(c, e, after, r2),
        r1 != Result::<BlockRecord, ResolveError>::Err(ResolveError::ConvergenceFailure),
        r2 != Result::<BlockRecord, ResolveError>::Err(ResolveError::ConvergenceFailure),
    ensures
        r1 == r2,
{
    if in_dom(c, e) {
        lemma_resolution_unique(c, e, after, r1->Ok_0, r2->Ok_0);
    }
}

impl Web3Dater {
    /// The memoized blocks, as a map from block number to record.
    pub closed spec fn cache_view(&self) -> Map<u64, BlockRecord> {
        self.cache@
    }

    /// Structural soundness of the machine: the cache keys its records by
    /// their own numbers and every phase's stored data is in range.
    pub closed spec fn wf(&self) -> bool {
        &&& self.cache.wf()
        &&& match self.phase {
            Phase::CoarseFirst { head_ts, w } => {
                1 <= w <= self.head && w <= DEFAULT_ESTIMATE_WINDOW
            },
            Phase::FineEstFirst { p, w2 } => {
                p <= self.head && 1 <= w2 <= p && w2 <= REFINED_ESTIMATE_WINDOW
            },
            Phase::FineEstLast { p, w2, first_ts } => {
                p <= self.head && 1 <= w2 <= p && w2 <= REFINED_ESTIMATE_WINDOW
            },
            Phase::RefineFirst { sbn, cur_ts, bt, w3 } => {
                sbn <= self.head && 1 <= w3 <= sbn && w3 <= DEFAULT_ESTIMATE_WINDOW && bt.wf()
            },
            Phase::Candidate { sbn, bt } => sbn <= self.head && bt.wf(),
            Phase::ScanDown { sbn } => sbn <= self.head,
            Phase::ScanUp { sbn, cur } => sbn < self.head && cur.number == sbn,
            _ => true,
        }
    }

    /// A fresh resolver with an empty cache and no resolution underway.
    pub fn new() -> (d: Web3Dater)
        ensures
            d.wf(),
            d.cache_view() == Map::<u64, BlockRecord>::empty(),
    {
        Web3Dater {
            cache: BlockCache::new(),
            target_ts: 0,
            after: false,
            head: 0,
            attempts: 0,
            phase: Phase::Idle,
        }
    }

    /// Empties the session cache; the next resolution re-queries the
    /// collaborator for every block instead of serving stale data. Nothing
    /// else about the resolver changes.
    pub fn clear_cache(&mut self)
        requires
            old(self).wf(),
        ensures
            final(self).wf(),
            final(self).cache_view() == Map::<u64, BlockRecord>::empty(),
            same_ctrl(*old(self), *final(self)),
    {
        self.cache.clear();
    }

    /// How many blocks the session cache holds.
    pub fn cache_len(&self) -> (n: usize)
        ensures
            n == self.cache_view().len(),
    {
        self.cache.len()
    }

    /// Begins a resolution of `date` under the `after` flag. An instant
    /// before the Unix epoch precedes every block and fails immediately
    /// with `OutOfRange`; otherwise the machine first asks for the chain
    /// head. The cache keeps whatever earlier resolutions memoized.
    pub fn start(&mut self, date: TargetDate, after: bool)
        requires
            old(self).wf(),
        ensures
            *final(self) == start_spec(*old(self), date, after),
            final(self).wf(),
    {
        self.after = after;
        self.head = 0;
        self.attempts = COARSE_REFINE_CAP;
        if date.epoch_seconds < 0 {
            self.target_ts = 0;
            self.phase = Phase::Failed { err: ResolveError::OutOfRange };
        } else {
            self.target_ts = date.epoch_seconds as u64;
            self.phase = Phase::NeedHead;
        }
    }

    /// Reports the collaborator's current chain head number; consumed only
    /// while the machine asks for it.
    pub fn on_head(&mut self, head_number: u64)
        requires
            old(self).wf(),
        ensures
            *final(self) == on_head_spec(*old(self), head_number),
            final(self).wf(),
    {
        if let Phase::NeedHead = self.phase {
            self.head = head_number;
            self.phase = Phase::FetchGenesis;
        }
    }

    /// Reports a fetched block. Only the block the machine asked for is
    /// consumed: it is memoized and the next poll advances on it; any
    /// other record is ignored.
    pub fn on_block(&mut self, rec: BlockRecord)
        requires
            old(self).wf(),
        ensures
            final(self).wf(),
            needs(*old(self)) == Some(rec.number) ==> final(self).cache_view() == old(
                self,
            ).cache_view().insert(rec.number, rec) && same_ctrl(*old(self), *final(self)),
            needs(*old(self)) != Some(rec.number) ==> *final(self) == *old(self),
    {
        if self.is_awaiting_block() {
            let n: u64 = self.needed_block();
            if n == rec.number {
                self.cache.insert(rec);
            }
        }
    }

    /// Reports that the collaborator has no block at the number the
    /// machine asked for: the resolution fails with `NotFound`.
    pub fn on_not_found(&mut self)
        requires
            old(self).wf(),
        ensures
            *final(self) == on_not_found_spec(*old(self)),
            final(self).wf(),
    {
        if self.is_awaiting_block() {
            self.phase = Phase::Failed { err: ResolveError::NotFound };
        }
    }

    /// Takes the machine one step: answers with the next request, consumes
    /// one memoized block, or reports the outcome of the resolution.
    pub fn poll(&mut self) -> (a: Action)
        requires
            old(self).wf(),
        ensures
            final(self).wf(),
            poll_post(*old(self), *final(self), a),
    {
        match self.phase {
            Phase::Idle => Action::Idle,
            Phase::NeedHead => Action::NeedHead,
            Phase::Done { rec } => Action::Done(rec),
            Phase::Failed { err } => Action::Failed(err),
            _ => {
                let n: u64 = self.needed_block();
                match self.cache.get(n) {
                    Some(rec) => {
                        self.advance(rec);
                        Action::Progress
                    },
                    None => Action::NeedBlock(n),
                }
            },
        }
    }

    /// True while the machine waits for a block.
    fn is_awaiting_block(&self) -> (b: bool)
        ensures
            b == (needs(*self) is Some),
    {
        match self.phase {
            Phase::FetchGenesis => true,
            Phase::FetchHead => true,
            Phase::CoarseFirst { .. } => true,
            Phase::FineEstFirst { .. } => true,
            Phase::FineEstLast { .. } => true,
            Phase::RefineFirst { .. } => true,
            Phase::Candidate { .. } => true,
            Phase::ScanDown { .. } => true,
            Phase::ScanUp { .. } => true,
            _ => false,
        }
    }

    /// The block number the machine waits for.
    fn needed_block(&self) -> (n: u64)
        requires
            self.wf(),
            needs(*self) is Some,
        ensures
            needs(*self) == Some(n),
    {
        match self.phase {
            Phase::FetchGenesis => 0,
            Phase::FetchHead => self.head,
            Phase::CoarseFirst { head_ts: _, w } => self.head - w,
            Phase::FineEstFirst { p, w2 } => p - w2,
            Phase::FineEstLast { p, w2: _, first_ts: _ } => p,
            Phase::RefineFirst { sbn, cur_ts: _, bt: _, w3 } => sbn - w3,
            Phase::Candidate { sbn, bt: _ } => sbn,
            Phase::ScanDown { sbn } => sbn,
            Phase::ScanUp { sbn, cur: _ } => sbn + 1,
            _ => 0,
        }
    }

    /// Applies the transition for the block the machine waited for.
    fn advance(&mut self, rec: BlockRecord)
        requires
            old(self).wf(),
            needs(*old(self)) == Some(rec.number),
        ensures
            *final(self) == advance_spec(*old(self), rec),
            final(self).wf(),
    {
        let ph = self.phase;
        match ph {
            Phase::FetchGenesis => {
                if self.target_ts < rec.timestamp {
                    self.phase = Phase::Failed { err: ResolveError::OutOfRange };
                } else {
                    self.phase = Phase::FetchHead;
                }
            },
            Phase::FetchHead => {
                if self.target_ts > rec.timestamp {
                    self.phase = Phase::Failed { err: ResolveError::OutOfRange };
                } else if self.head == 0 {
                    self.phase = Phase::Done { rec };
                } else {
                    let w: u64 = if DEFAULT_ESTIMATE_WINDOW < self.head {
                        DEFAULT_ESTIMATE_WINDOW
                    } else {
                        self.head
                    };
                    self.phase = Phase::CoarseFirst { head_ts: rec.timestamp, w };
                }
            },
            Phase::CoarseFirst { head_ts, w } => {
                match average_block_time(rec.timestamp, head_ts, w) {
                    Err(err) => {
                        self.phase = Phase::Failed { err };
                    },
                    Ok(bt) => {
                        let p: u64 = predict_block_number(
                            self.head,
                            head_ts,
                            self.target_ts,
                            &bt,
                            self.head,
                        );
                        if p == 0 {
                            self.phase = Phase::ScanDown { sbn: 0 };
                        } else {
                            let w2: u64 = if REFINED_ESTIMATE_WINDOW < p {
                                REFINED_ESTIMATE_WINDOW
                            } else {
                                p
                            };
                            self.phase = Phase::FineEstFirst { p, w2 };
                        }
                    },
                }
            },
            Phase::FineEstFirst { p, w2 } => {
                self.phase = Phase::FineEstLast { p, w2, first_ts: rec.timestamp };
            },
            Phase::FineEstLast { p, w2, first_ts } => {
                match average_block_time(first_ts, rec.timestamp, w2) {
                    Err(err) => {
                        self.phase = Phase::Failed { err };
                    },
                    Ok(bt) => {
                        self.apply_loop_check(p, rec.timestamp, bt);
                    },
                }
            },
            Phase::RefineFirst { sbn, cur_ts, bt, w3 } => {
                match average_block_time(rec.timestamp, cur_ts, w3) {
                    Err(err) => {
                        self.phase = Phase::Failed { err };
                    },
                    Ok(bt3) => {
                        let nsbn: u64 = predict_block_number(
                            sbn,
                            cur_ts,
                            self.target_ts,
                            &bt3,
                            self.head,
                        );
                        self.phase = Phase::Candidate { sbn: nsbn, bt };
                    },
                }
            },
            Phase::Candidate { sbn, bt } => {
                self.apply_loop_check(sbn, rec.timestamp, bt);
            },
            Phase::ScanDown { sbn } => {
                if rec.timestamp > self.target_ts {
                    if sbn == 0 {
                        self.phase = Phase::Failed { err: ResolveError::OutOfRange };
                    } else {
                        self.phase = Phase::ScanDown { sbn: sbn - 1 };
                    }
                } else if sbn == self.head {
                    self.finish_at_head(rec);
                } else {
                    self.phase = Phase::ScanUp { sbn, cur: rec };
                }
            },
            Phase::ScanUp { sbn, cur } => {
                if rec.timestamp <= self.target_ts {
                    if sbn + 1 == self.head {
                        self.finish_at_head(rec);
                    } else {
                        self.phase = Phase::ScanUp { sbn: sbn + 1, cur: rec };
                    }
                } else {
                    if !self.after {
                        self.phase = Phase::Done { rec: cur };
                    } else if cur.timestamp >= self.target_ts {
                        self.phase = Phase::Done { rec: cur };
                    } else {
                        self.phase = Phase::Done { rec };
                    }
                }
            },
            _ => {
                proof {
                    assert(false);
                }
            },
        }
    }

    /// The scan reached the chain head while still at or before the
    /// target: the head block is the floor; a ceiling exists only when the
    /// head block's timestamp equals the target.
    fn finish_at_head(&mut self, rec: BlockRecord)
        requires
            old(self).wf(),
        ensures
            *final(self) == finish_at_head_spec(*old(self), rec),
            final(self).wf(),
    {
        if self.after && rec.timestamp < self.target_ts {
            self.phase = Phase::Failed { err: ResolveError::OutOfRange };
        } else {
            self.phase = Phase::Done { rec };
        }
    }

    /// Applies [`loop_check_spec`]: decide between scanning, one more
    /// refinement round, and giving up.
    fn apply_loop_check(&mut self, sbn: u64, cur_ts: u64, bt: AvgBlockTime)
        requires
            old(self).wf(),
            bt.wf(),
            sbn <= old(self).head,
        ensures
            *final(self) == loop_check_spec(*old(self), sbn, cur_ts, bt),
            final(self).wf(),
    {
        if !diff_at_least(self.target_ts, cur_ts, &bt, COARSE_REFINE_THRESHOLD) {
            if diff_more_than(self.target_ts, cur_ts, &bt, FINE_ADJUST_THRESHOLD) {
                let s2: u64 = predict_block_number(sbn, cur_ts, self.target_ts, &bt, self.head);
                self.phase = Phase::ScanDown { sbn: s2 };
            } else {
                self.phase = Phase::ScanDown { sbn };
            }
        } else if self.attempts == 0 {
            self.phase = Phase::Failed { err: ResolveError::ConvergenceFailure };
        } else {
            let w3: u64 = if DEFAULT_ESTIMATE_WINDOW < sbn {
                DEFAULT_ESTIMATE_WINDOW
            } else {
                sbn
            };
            if w3 == 0 {
                self.phase = Phase::ScanDown { sbn: 0 };
            } else {
                self.attempts = self.attempts - 1;
                self.phase = Phase::RefineFirst { sbn, cur_ts, bt, w3 };
            }
        }
    }
}

/// The machine right after [`Web3Dater::start`].
pub closed spec fn start_spec(m: Web3Dater, date: TargetDate, after: bool) -> Web3Dater {
    if date.epoch_seconds < 0 {
        Web3Dater {
            target_ts: 0,
            after,
            head: 0,
            attempts: COARSE_REFINE_CAP,
            phase: Phase::Failed { err: ResolveError::OutOfRange },
            ..m
        }
    } else {
        Web3Dater {
            target_ts: date.epoch_seconds as u64,
            after,
            head: 0,
            attempts: COARSE_REFINE_CAP,
            phase: Phase::NeedHead,
            ..m
        }
    }
}

/// The machine right after [`Web3Dater::on_head`].
pub closed spec fn on_head_spec(m: Web3Dater, head_number: u64) -> Web3Dater {
    if m.phase is NeedHead {
        Web3Dater { head: head_number, phase: Phase::FetchGenesis, ..m }
    } else {
        m
    }
}

/// The machine right after [`Web3Dater::on_not_found`].
pub closed spec fn on_not_found_spec(m: Web3Dater) -> Web3Dater {
    if needs(m) is Some {
        fail_spec(m, ResolveError::NotFound)
    } else {
        m
    }
}

/// Everything but the cache is unchanged.
pub closed spec fn same_ctrl(m0: Web3Dater, m1: Web3Dater) -> bool {
    &&& m1.target_ts == m0.target_ts
    &&& m1.after == m0.after
    &&& m1.head == m0.head
    &&& m1.attempts == m0.attempts
    &&& m1.phase == m0.phase
}

/// Every memoized block is genuine: it sits on the chain at its own
/// number. Cache hits can then never change what a resolution returns.
pub open spec fn cache_consistent(m: Map<u64, BlockRecord>, c: Seq<BlockRecord>) -> bool {
    forall|n: u64| #[trigger] m.contains_key(n) ==> n < c.len() && m[n] == c[n as int]
}

/// Under every exact spacing the chain may have, the candidate block's
/// timestamp already sits within one spacing of the target instant.
spec fn near_target_when_spaced(c: Seq<BlockRecord>, e: int, p: u64) -> bool {
    forall|d: nat|
        1 <= d && #[trigger] constant_spacing(c, d) ==> abs(e - c[p as int].timestamp) <= d
}

/// The chain is not spaced evenly; only such a chain can make the
/// refinement loop run at all.
spec fn no_even_spacing(c: Seq<BlockRecord>) -> bool {
    forall|d: nat| 1 <= d ==> !#[trigger] constant_spacing(c, d)
}

impl Web3Dater {
    /// The frozen inputs of a running resolution: a non-negative target
    /// instant and the head position of the chain being searched.
    spec fn frozen(&self, c: Seq<BlockRecord>, e: int) -> bool {
        &&& 0 <= e
        &&& self.target_ts == e
        &&& self.head == c.len() - 1
    }

    /// The search invariant against chain `c`: what each phase has already
    /// established about the target instant `e`.
    spec fn inv(&self, c: Seq<BlockRecord>, e: int, after: bool) -> bool {
        &&& self.after == after
        &&& match self.phase {
            Phase::Idle => false,
            Phase::NeedHead => 0 <= e && self.target_ts == e,
            Phase::FetchGenesis => self.frozen(c, e),
            Phase::FetchHead => self.frozen(c, e) && c[0].timestamp <= e,
            Phase::CoarseFirst { head_ts, w } => self.frozen(c, e) && in_dom(c, e) && head_ts
                == c[self.head as int].timestamp,
            Phase::FineEstFirst { p, w2 } => self.frozen(c, e) && in_dom(c, e)
                && near_target_when_spaced(c, e, p),
            Phase::FineEstLast { p, w2, first_ts } => self.frozen(c, e) && in_dom(c, e)
                && first_ts == c[p - w2].timestamp && near_target_when_spaced(c, e, p),
            Phase::RefineFirst { sbn, cur_ts, bt, w3 } => self.frozen(c, e) && in_dom(c, e)
                && cur_ts == c[sbn as int].timestamp && no_even_spacing(c),
            Phase::Candidate { sbn, bt } => self.frozen(c, e) && in_dom(c, e)
                && no_even_spacing(c),
            Phase::ScanDown { sbn } => self.frozen(c, e) && in_dom(c, e),
            Phase::ScanUp { sbn, cur } => self.frozen(c, e) && in_dom(c, e)
                && cur == c[sbn as int] && cur.timestamp <= e,
            Phase::Done { rec } => in_dom(c, e) && resolves_to(c, e, after, rec),
            Phase::Failed { err } => {
                ||| (err == ResolveError::OutOfRange && !in_dom(c, e))
                ||| (err == ResolveError::ConvergenceFailure && in_dom(c, e) && no_even_spacing(
                    c,
                ))
            },
        }
    }
}

/// A waiting machine only ever asks for block numbers on the chain.
proof fn lemma_needs_bounded(m: Web3Dater, c: Seq<BlockRecord>, e: int, after: bool)
    requires
        m.wf(),
        m.inv(c, e, after),
        needs(m) is Some,
    ensures
        needs(m)->Some_0 < c.len(),
{
}

/// The refinement decision keeps the search invariant. In particular, a
/// decision to refine (or to give up) can only be taken on a chain that is
/// not evenly spaced: under an exact spacing the candidate is already
/// within one block time of the target, below every threshold.
proof fn lemma_loop_check_preserves(
    m: Web3Dater,
    c: Seq<BlockRecord>,
    e: int,
    after: bool,
    sbn: u64,
    cur_ts: u64,
    bt: AvgBlockTime,
)
    requires
        m.wf(),
        chain_wf(c),
        m.after == after,
        m.frozen(c, e),
        in_dom(c, e),
        sbn <= m.head,
        cur_ts == c[sbn as int].timestamp,
        bt.wf(),
        forall|d: nat|
            1 <= d && #[trigger] constant_spacing(c, d) ==> abs(e - cur_ts) <= d
                && bt.span_seconds == bt.window_blocks * d,
    ensures
        loop_check_spec(m, sbn, cur_ts, bt).inv(c, e, after),
{
    if diff_reaches(m.target_ts as int, cur_ts as int, bt, COARSE_REFINE_THRESHOLD as int) {
        assert forall|d: nat| 1 <= d implies !constant_spacing(c, d) by {
            if constant_spacing(c, d) {
                let w2 = bt.window_blocks as int;
                assert(bt.span_seconds as int == d * w2) by (nonlinear_arith)
                    requires
                        bt.span_seconds == bt.window_blocks * d,
                        w2 == bt.window_blocks as int,
                ;
                assert(abs(e - cur_ts) * w2 < 100 * (d * w2)) by (nonlinear_arith)
                    requires
                        abs(e - cur_ts) <= d,
                        1 <= w2,
                        1 <= d,
                ;
            }
        }
    }
}

/// One transition on a genuine chain block keeps the search invariant; in
/// particular a machine that reaches `Done` holds exactly the floor or
/// ceiling block, and one that fails out of range saw a target instant
/// outside the chain's time span.
#[verifier::rlimit(100)]
proof fn lemma_advance_preserves(
    m: Web3Dater,
    c: Seq<BlockRecord>,
    e: int,
    after: bool,
    rec: BlockRecord,
)
    requires
        m.wf(),
        chain_wf(c),
        m.inv(c, e, after),
        needs(m) is Some,
        needs(m)->Some_0 < c.len(),
        rec == c[needs(m)->Some_0 as int],
    ensures
        advance_spec(m, rec).inv(c, e, after),
{
    let hd: int = m.head as int;
    match m.phase {
        Phase::FetchHead => {
            if m.target_ts <= rec.timestamp && m.head == 0 {
                assert(c[0].number == 0);
            }
        },
        Phase::CoarseFirst { head_ts, w } => {
            lemma_ts_strictly_increasing(c, hd - w, hd);
            if head_ts > rec.timestamp {
                let bt = AvgBlockTime {
                    span_seconds: (head_ts - rec.timestamp) as u64,
                    window_blocks: w,
                };
                let p = predict_spec(hd, head_ts as int, m.target_ts as int, bt, hd) as u64;
                assert forall|d: nat| 1 <= d && #[trigger] constant_spacing(c, d) implies abs(
                    e - c[p as int].timestamp,
                ) <= d by {
                    let g = c[0].timestamp as int;
                    lemma_estimate_exact_on_constant_spacing(c, d, 0, hd);
                    lemma_estimate_exact_on_constant_spacing(c, d, hd - w, hd);
                    lemma_predict_exact_on_constant_spacing(g, d as int, hd, hd, e, bt);
                    let pi = predict_spec(hd, g + hd * d, e, bt, hd);
                    lemma_estimate_exact_on_constant_spacing(c, d, 0, pi);
                }
            }
        },
        Phase::FineEstLast { p, w2, first_ts } => {
            lemma_ts_strictly_increasing(c, p - w2, p as int);
            if rec.timestamp > first_ts {
                let bt = AvgBlockTime {
                    span_seconds: (rec.timestamp - first_ts) as u64,
                    window_blocks: w2,
                };
                assert forall|d: nat| 1 <= d && #[trigger] constant_spacing(c, d) implies abs(
                    e - rec.timestamp,
                ) <= d && bt.span_seconds == bt.window_blocks * d by {
                    lemma_estimate_exact_on_constant_spacing(c, d, p - w2, p as int);
                }
                lemma_loop_check_preserves(m, c, e, after, p, rec.timestamp, bt);
            }
        },
        Phase::RefineFirst { sbn, cur_ts, bt, w3 } => {
            lemma_ts_strictly_increasing(c, sbn - w3, sbn as int);
        },
        Phase::Candidate { sbn, bt } => {
            lemma_loop_check_preserves(m, c, e, after, sbn, rec.timestamp, bt);
        },
        Phase::ScanDown { sbn } => {
            if rec.timestamp <= m.target_ts && sbn == m.head {
                assert(c[sbn as int].number == sbn);
                assert forall|j: int| 0 <= j < sbn as int implies c[j].timestamp < e by {
                    lemma_ts_strictly_increasing(c, j, sbn as int);
                }
            }
        },
        Phase::ScanUp { sbn, cur } => {
            let s: int = sbn as int;
            assert(c[s].number == sbn);
            assert(c[s + 1].number == sbn + 1);
            if rec.timestamp <= m.target_ts {
                if sbn + 1 == m.head {
                    assert forall|j: int| 0 <= j < s + 1 implies c[j].timestamp < e by {
                        lemma_ts_strictly_increasing(c, j, s + 1);
                    }
                }
            } else {
                assert forall|j: int| s < j < c.len() implies c[j].timestamp > e by {
                    if j > s + 1 {
                        lemma_ts_strictly_increasing(c, s + 1, j);
                    }
                }
                assert forall|j: int| 0 <= j < s implies c[j].timestamp < c[s].timestamp by {
                    lemma_ts_strictly_increasing(c, j, s);
                }
            }
        },
        _ => {},
    }
}

/// Every transition shrinks the bound on the remaining steps: first the
/// refinement budget, then the station order, then the scan distance.
proof fn lemma_advance_decreases(m: Web3Dater, rec: BlockRecord)
    requires
        m.wf(),
        needs(m) is Some,
    ensures
        ({
            let m2 = advance_spec(m, rec);
            ||| m2.attempts < m.attempts
            ||| (m2.attempts == m.attempts && phase_rank(m2) < phase_rank(m))
            ||| (m2.attempts == m.attempts && phase_rank(m2) == phase_rank(m) && scan_pos(m2)
                < scan_pos(m))
        }),
{
}

impl Web3Dater {
    /// Resolves the block closest to `date` on a chain held in memory,
    /// driving the search machine until it finishes. With `after` set the
    /// answer is the earliest block whose timestamp is at or after the
    /// instant; otherwise it is the latest block whose timestamp is at or
    /// before it. A target instant outside the chain's time span fails
    /// with `OutOfRange`, exactly then; the only other possible failure is
    /// `ConvergenceFailure` of the bounded refinement loop, and on a chain
    /// whose blocks are spaced exactly evenly even that cannot happen: for
    /// every in-range instant the exact floor or ceiling block is owed.
    /// Memoized blocks from earlier resolutions are reused and, being
    /// genuine, cannot change the answer.
    #[verifier::rlimit(100)]
    pub fn resolve_block_by_date(
        &mut self,
        chain: &Vec<BlockRecord>,
        date: TargetDate,
        after: bool,
    ) -> (r: Result<BlockRecord, ResolveError>)
        requires
            old(self).wf(),
            chain_wf(chain@),
            cache_consistent(old(self).cache_view(), chain@),
        ensures
            final(self).wf(),
            cache_consistent(final(self).cache_view(), chain@),
            old(self).cache_view().dom().subset_of(final(self).cache_view().dom()),
            resolution_post(chain@, date.epoch_seconds as int, after, r),
            forall|d: nat|
                1 <= d && #[trigger] constant_spacing(chain@, d) ==> r != Result::<
                    BlockRecord,
                    ResolveError,
                >::Err(ResolveError::ConvergenceFailure),
    {
        let ghost e: int = date.epoch_seconds as int;
        let ghost entry_cache = self.cache_view();
        self.start(date, after);
        loop
            invariant
                self.wf(),
                chain_wf(chain@),
                cache_consistent(self.cache_view(), chain@),
                entry_cache.dom().subset_of(self.cache_view().dom()),
                entry_cache == old(self).cache_view(),
                self.inv(chain@, e, after),
                e == date.epoch_seconds as int,
            decreases self.attempts, phase_rank(*self), scan_pos(*self), pending_miss(*self),
        {
            let ghost m0 = *self;
            let a = self.poll();
            match a {
                Action::NeedHead => {
                    let h: usize = chain.len() - 1;
                    self.on_head(h as u64);
                },
                Action::NeedBlock(n) => {
                    let total: usize = chain.len();
                    proof {
                        lemma_needs_bounded(m0, chain@, e, after);
                        assert(n < total);
                        assert(chain@[n as int].number == n);
                    }
                    let rec: BlockRecord = chain[n as usize];
                    self.on_block(rec);
                    proof {
                        assert(needs(*self) == needs(m0));
                        assert(pending_miss(*self) == 0);
                        assert(pending_miss(m0) == 1);
                        assert(phase_rank(*self) == phase_rank(m0));
                        assert(scan_pos(*self) == scan_pos(m0));
                    }
                },
                Action::Progress => {
                    proof {
                        let n = needs(m0)->Some_0;
                        assert(m0.cache@.contains_key(n));
                        lemma_advance_preserves(m0, chain@, e, after, m0.cache@[n]);
                        lemma_advance_decreases(m0, m0.cache@[n]);
                    }
                },
                Action::Done(b) => {
                    return Ok(b);
                },
                Action::Failed(err) => {
                    return Err(err);
                },
                Action::Idle => {
                    proof {
                        assert(false);
                    }
                    return Err(ResolveError::NotFound);
                },
            }
        }
    }
}

/// What one [`Web3Dater::poll`] call does, by returned action.
pub closed spec fn poll_post(m0: Web3Dater, m1: Web3Dater, a: Action) -> bool {
    match a {
        Action::Idle => m1 == m0 && m0.phase is Idle,
        Action::NeedHead => m1 == m0 && m0.phase is NeedHead,
        Action::NeedBlock(n) => m1 == m0 && needs(m0) == Some(n) && !m0.cache@.contains_key(n),
        Action::Progress => needs(m0) matches Some(n) && m0.cache@.contains_key(n) && m1
            == advance_spec(m0, m0.cache@[n]),
        Action::Done(b) => m1 == m0 && m0.phase == (Phase::Done { rec: b }),
        Action::Failed(err) => m1 == m0 && m0.phase == (Phase::Failed { err }),
    }
}

} // verus!

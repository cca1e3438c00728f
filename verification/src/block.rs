//! Blocks, target instants, and the mathematical model of a chain.
//!
//! A chain is modelled as a sequence of block records whose position equals
//! the block number and whose timestamps never decrease; the verified search
//! is proved against chains whose timestamps strictly increase. The answer
//! to a resolution is the ceiling block (earliest at or after the target
//! instant) or the floor block (latest at or before it).

use vstd::prelude::*;

verus! {

/// One unit of chain history: a number, an epoch-second timestamp, and an
/// opaque 32-byte identifier. Once fetched, a record never changes.
#[derive(Clone, Copy, Debug)]
pub struct BlockRecord {
    /// Position of the block on the chain, starting at 0 for genesis.
    pub number: u64,
    /// Seconds since the Unix epoch at which the block was produced.
    pub timestamp: u64,
    /// Opaque identifier of the block.
    pub hash: [u8; 32],
}

/// An absolute instant, compared only through its epoch-second value.
#[derive(Clone, Copy, Debug)]
pub struct TargetDate {
    /// Seconds since the Unix epoch; negative values lie before every block.
    pub epoch_seconds: i64,
}

impl TargetDate {
    /// The instant that many seconds after the Unix epoch.
    pub fn from_epoch_seconds(epoch_seconds: i64) -> (d: TargetDate)
        ensures
            d.epoch_seconds == epoch_seconds,
    {
        TargetDate { epoch_seconds }
    }
}

/// Every record of the sequence sits at the position its number names.
pub open spec fn chain_indexed(c: Seq<BlockRecord>) -> bool {
    forall|i: int| 0 <= i < c.len() ==> (#[trigger] c[i]).number == i
}

/// Adjacent blocks are strictly ordered in time.
pub open spec fn chain_strictly_timed(c: Seq<BlockRecord>) -> bool {
    forall|i: int| 0 <= i && i + 1 < c.len() ==> (#[trigger] c[i]).timestamp < c[i + 1].timestamp
}

/// A non-empty, position-indexed, strictly time-ordered chain.
pub open spec fn chain_wf(c: Seq<BlockRecord>) -> bool {
    &&& c.len() >= 1
    &&& chain_indexed(c)
    &&& chain_strictly_timed(c)
}

/// The instant `e` falls between the genesis timestamp and the head
/// timestamp of the chain, inclusive on both ends.
pub open spec fn in_dom(c: Seq<BlockRecord>, e: int) -> bool {
    &&& c[0].timestamp <= e
    &&& e <= c[c.len() - 1].timestamp
}

/// `b` is the earliest block of `c` whose timestamp is at or after `e`.
pub open spec fn is_ceiling(c: Seq<BlockRecord>, e: int, b: BlockRecord) -> bool {
    &&& b.number < c.len()
    &&& c[b.number as int] == b
    &&& b.timestamp >= e
    &&& forall|j: int| 0 <= j < b.number ==> (#[trigger] c[j]).timestamp < e
}

/// `b` is the latest block of `c` whose timestamp is at or before `e`.
pub open spec fn is_floor(c: Seq<BlockRecord>, e: int, b: BlockRecord) -> bool {
    &&& b.number < c.len()
    &&& c[b.number as int] == b
    &&& b.timestamp <= e
    &&& forall|j: int| b.number < j < c.len() ==> (#[trigger] c[j]).timestamp > e
}

/// The block a resolution owes for instant `e` under the `after` flag:
/// the ceiling block when `after` is set, the floor block otherwise.
pub open spec fn resolves_to(c: Seq<BlockRecord>, e: int, after: bool, b: BlockRecord) -> bool {
    if after {
        is_ceiling(c, e, b)
    } else {
        is_floor(c, e, b)
    }
}

/// On a strictly time-ordered chain, timestamps grow with the position.
pub proof fn lemma_ts_strictly_increasing(c: Seq<BlockRecord>, i: int, j: int)
    requires
        chain_strictly_timed(c),
        0 <= i < j < c.len(),
    ensures
        c[i].timestamp < c[j].timestamp,
    decreases j - i,
{
    if i + 1 < j {
        lemma_ts_strictly_increasing(c, i + 1, j);
    }
}

/// At most one block of a chain can be the answer to a resolution: the
/// ceiling and the floor of an instant are unique.
pub proof fn lemma_resolution_unique(
    c: Seq<BlockRecord>,
    e: int,
    after: bool,
    b1: BlockRecord,
    b2: BlockRecord,
)
    requires
        chain_wf(c),
        resolves_to(c, e, after, b1),
        resolves_to(c, e, after, b2),
    ensures
        b1 == b2,
{
    if b1.number < b2.number {
        if after {
            assert(c[b1.number as int].timestamp < e);
        } else {
            assert(c[b2.number as int].timestamp > e);
        }
    } else if b2.number < b1.number {
        if after {
            assert(c[b2.number as int].timestamp < e);
        } else {
            assert(c[b1.number as int].timestamp > e);
        }
    }
}

} // verus!

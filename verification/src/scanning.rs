//! Block ranges of the scan queue, and the ranges a new chain tip asks to scan.
use vstd::prelude::*;
use crate::proto::ScanPriority;
use crate::types::BlockHeight;
use crate::{PRUNING_DEPTH, VERIFY_LOOKAHEAD};

verus! {

/// A range of block heights, `start` included and `end` excluded, with the
/// priority at which it should be scanned.
#[derive(Clone, Copy, Debug, PartialEq, Eq, Structural)]
pub struct ScanRange {
    pub start: BlockHeight,
    pub end: BlockHeight,
    pub priority: ScanPriority,
}

impl ScanRange {
    /// A scan range over `start..end`.
    pub fn from_parts(start: BlockHeight, end: BlockHeight, priority: ScanPriority) -> (r: Self)
        requires
            start <= end,
        ensures
            r == (ScanRange { start, end, priority }),
    {
        ScanRange { start, end, priority }
    }

    /// Whether the range holds no block.
    pub fn is_empty(&self) -> (r: bool)
        ensures
            r == (self.start == self.end),
    {
        self.start == self.end
    }
}

/// The smaller of two heights.
pub open spec fn min_height(a: int, b: int) -> int {
    if a <= b { a } else { b }
}

/// The larger of two heights.
pub open spec fn max_height(a: int, b: int) -> int {
    if a >= b { a } else { b }
}

/// The range that brings the latest note commitment tree shard up to the new tip,
/// where the shard ends below the new tip: it starts at the shard's end height, or
/// at the wallet birthday where that is later.
pub open spec fn tip_shard_entry(
    tip_height: int,
    wallet_birthday: Option<BlockHeight>,
    shard_tip: Option<BlockHeight>,
) -> Option<ScanRange> {
    match shard_tip {
        Some(h) if h < tip_height + 1 => {
            let start = match wallet_birthday {
                Some(b) if b > h => b,
                _ => h,
            };
            Some(ScanRange { start, end: (tip_height + 1) as u32, priority: ScanPriority::ChainTip })
        },
        _ => None,
    }
}

/// The range that connects the wallet's scanned blocks to the new tip.
///
/// With nothing scanned it covers everything from the wallet birthday, as
/// `Historic`, or from the Sapling activation height, as `Ignored`, where the
/// wallet has no account. With blocks scanned up to `max_scanned` it starts just
/// above them: as `Historic` where no shard information is known, as `ChainTip`
/// where `max_scanned` is within the pruning depth of the tip, and otherwise as
/// `Verify` over at most the `VERIFY_LOOKAHEAD` blocks that remain stable.
pub open spec fn tip_entry(
    sapling_activation: BlockHeight,
    tip_height: int,
    max_scanned: Option<BlockHeight>,
    wallet_birthday: Option<BlockHeight>,
    has_shard_entry: bool,
) -> ScanRange {
    let chain_end = (tip_height + 1) as u32;
    match max_scanned {
        None => match wallet_birthday {
            None => ScanRange { start: sapling_activation, end: chain_end, priority: ScanPriority::Ignored },
            Some(b) => ScanRange { start: b, end: chain_end, priority: ScanPriority::Historic },
        },
        Some(m) => {
            let min_unscanned = (m + 1) as u32;
            if !has_shard_entry {
                ScanRange { start: min_unscanned, end: chain_end, priority: ScanPriority::Historic }
            } else {
                let stable_height = if tip_height >= PRUNING_DEPTH { tip_height - PRUNING_DEPTH } else { 0 };
                if m > stable_height {
                    ScanRange { start: min_unscanned, end: chain_end, priority: ScanPriority::ChainTip }
                } else {
                    ScanRange {
                        start: min_unscanned,
                        end: min_height(stable_height + 1, min_unscanned + VERIFY_LOOKAHEAD) as u32,
                        priority: ScanPriority::Verify,
                    }
                }
            }
        },
    }
}

/// What a new chain tip asks of the scan queue: nothing where the tip is before
/// Sapling activation or below the highest scanned block; otherwise the range of
/// the queue to replace and the entries to put there.
pub open spec fn chain_tip_update(
    sapling_activation: Option<BlockHeight>,
    tip_height: BlockHeight,
    max_scanned: Option<BlockHeight>,
    wallet_birthday: Option<BlockHeight>,
    shard_tip: Option<BlockHeight>,
) -> Option<(ScanRange, Seq<ScanRange>)> {
    match sapling_activation {
        Some(a) if a <= tip_height => {
            if max_scanned is Some && tip_height < max_scanned->0 {
                None
            } else {
                let shard_entry = tip_shard_entry(tip_height as int, wallet_birthday, shard_tip);
                let entry = tip_entry(a, tip_height as int, max_scanned, wallet_birthday, shard_entry is Some);
                match shard_entry {
                    Some(se) => Some((
                        ScanRange {
                            start: min_height(se.start as int, entry.start as int) as u32,
                            end: max_height(se.end as int, entry.end as int) as u32,
                            priority: ScanPriority::ChainTip,
                        },
                        seq![se, entry],
                    )),
                    None => Some((entry, seq![entry])),
                }
            }
        },
        _ => None,
    }
}

/// The inputs on which a chain tip update builds only well-formed ranges: the tip
/// leaves room for the ranges above it, and the wallet birthday is not beyond the
/// new chain end where a range would start at it.
pub open spec fn chain_tip_update_defined(
    tip_height: BlockHeight,
    max_scanned: Option<BlockHeight>,
    wallet_birthday: Option<BlockHeight>,
    shard_tip: Option<BlockHeight>,
) -> bool {
    &&& tip_height + VERIFY_LOOKAHEAD + 1 <= u32::MAX
    &&& match wallet_birthday {
        Some(b) => b <= tip_height + 1 || (max_scanned is Some && (shard_tip is None
            || shard_tip->0 >= tip_height + 1 || shard_tip->0 >= b)),
        None => true,
    }
}

/// The scan queue entries that a new chain tip calls for, with the part of the
/// queue they replace; `None` where the queue is to be left as it is.
///
/// `sapling_activation` is the network's Sapling activation height, `max_scanned`
/// the highest block the wallet holds, `wallet_birthday` the earliest account
/// birthday and `shard_tip` the end height of the latest complete shard of the
/// Sapling note commitment tree.
pub fn chain_tip_scan_ranges(
    sapling_activation: Option<BlockHeight>,
    tip_height: BlockHeight,
    max_scanned: Option<BlockHeight>,
    wallet_birthday: Option<BlockHeight>,
    shard_tip: Option<BlockHeight>,
) -> (r: Option<(ScanRange, Vec<ScanRange>)>)
    requires
        chain_tip_update(sapling_activation, tip_height, max_scanned, wallet_birthday, shard_tip) is Some
            ==> chain_tip_update_defined(tip_height, max_scanned, wallet_birthday, shard_tip),
    ensures
        match r {
            Some((q, v)) => chain_tip_update(sapling_activation, tip_height, max_scanned, wallet_birthday, shard_tip)
                == Some((q, v@)),
            None => chain_tip_update(sapling_activation, tip_height, max_scanned, wallet_birthday, shard_tip) is None,
        },
{
    let activation = match sapling_activation {
        Some(h) if h <= tip_height => h,
        _ => return None,
    };
    match max_scanned {
        Some(h) if tip_height < h => return None,
        _ => {},
    }
    let chain_end = tip_height + 1;
    let shard_entry: Option<ScanRange> = match shard_tip {
        Some(h) if h < chain_end => {
            let min_to_scan = match wallet_birthday {
                Some(b) if b > h => b,
                _ => h,
            };
            Some(ScanRange::from_parts(min_to_scan, chain_end, ScanPriority::ChainTip))
        },
        _ => None,
    };
    let entry = match max_scanned {
        None => match wallet_birthday {
            None => ScanRange::from_parts(activation, chain_end, ScanPriority::Ignored),
            Some(b) => ScanRange::from_parts(b, chain_end, ScanPriority::Historic),
        },
        Some(m) => {
            let min_unscanned = m + 1;
            if shard_entry.is_none() {
                ScanRange::from_parts(min_unscanned, chain_end, ScanPriority::Historic)
            } else {
                let stable_height = tip_height.saturating_sub(PRUNING_DEPTH);
                if m > stable_height {
                    ScanRange::from_parts(min_unscanned, chain_end, ScanPriority::ChainTip)
                } else {
                    let lookahead_end = min_unscanned + VERIFY_LOOKAHEAD;
                    let end = if stable_height + 1 <= lookahead_end {
                        stable_height + 1
                    } else {
                        lookahead_end
                    };
                    ScanRange::from_parts(min_unscanned, end, ScanPriority::Verify)
                }
            }
        },
    };
    let mut entries: Vec<ScanRange> = Vec::new();
    let query = match shard_entry {
        Some(se) => {
            entries.push(se);
            ScanRange {
                start: if se.start <= entry.start { se.start } else { entry.start },
                end: if se.end >= entry.end { se.end } else { entry.end },
                priority: ScanPriority::ChainTip,
            }
        },
        None => entry,
    };
    entries.push(entry);
    assert(entries@ =~= match shard_entry {
        Some(se) => seq![se, entry],
        None => seq![entry],
    });
    Some((query, entries))
}

/// Every entry that a chain tip update asks for ends no later than just above the
/// new tip, and lies within the part of the queue that it replaces, which also
/// ends just above the tip.
pub proof fn lemma_chain_tip_entries_within_query(
    sapling_activation: Option<BlockHeight>,
    tip_height: BlockHeight,
    max_scanned: Option<BlockHeight>,
    wallet_birthday: Option<BlockHeight>,
    shard_tip: Option<BlockHeight>,
)
    requires
        chain_tip_update_defined(tip_height, max_scanned, wallet_birthday, shard_tip),
        chain_tip_update(sapling_activation, tip_height, max_scanned, wallet_birthday, shard_tip) is Some,
    ensures
        ({
            let (q, es) = chain_tip_update(sapling_activation, tip_height, max_scanned, wallet_birthday, shard_tip)->0;
            &&& q.end == tip_height + 1
            &&& 1 <= es.len() <= 2
            &&& forall|i: int| 0 <= i < es.len() ==> q.start <= #[trigger] es[i].start <= es[i].end <= q.end
        }),
{
}

} // verus!

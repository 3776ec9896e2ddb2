//! Updating the scan queue for a new chain tip.
use vstd::prelude::*;
use crate::scanning::{chain_tip_update, chain_tip_update_defined, ScanRange};
use crate::types::BlockHeight;
use crate::wallet::{wallet_birthday, MemoryWalletDb};
use crate::wallet_write::{max_scanned_height, tip_shard_end};

verus! {

/// What is left of a queue range outside the span `q`: the range itself where it
/// does not meet `q`, else its parts below and above `q`, where there are any.
pub open spec fn range_outside(r: ScanRange, q: ScanRange) -> Seq<ScanRange> {
    if r.end <= q.start || q.end <= r.start {
        seq![r]
    } else {
        (if r.start < q.start { seq![ScanRange { start: r.start, end: q.start, priority: r.priority }] } else { seq![] })
            + (if q.end < r.end { seq![ScanRange { start: q.end, end: r.end, priority: r.priority }] } else { seq![] })
    }
}

/// What is left of the queue outside the span `q`, range by range, in order.
pub open spec fn queue_outside(queue: Seq<ScanRange>, q: ScanRange) -> Seq<ScanRange>
    decreases queue.len(),
{
    if queue.len() == 0 {
        Seq::empty()
    } else {
        queue_outside(queue.drop_last(), q) + range_outside(queue.last(), q)
    }
}

/// The ranges that hold at least one block, in order.
pub open spec fn nonempty_ranges(es: Seq<ScanRange>) -> Seq<ScanRange>
    decreases es.len(),
{
    if es.len() == 0 {
        Seq::empty()
    } else if es.last().start < es.last().end {
        nonempty_ranges(es.drop_last()).push(es.last())
    } else {
        nonempty_ranges(es.drop_last())
    }
}

/// The queue with its ranges over the span `q` replaced by the entries: what is
/// left of it outside `q`, then the entries that hold a block.
pub open spec fn queue_replaced(queue: Seq<ScanRange>, q: ScanRange, es: Seq<ScanRange>) -> Seq<ScanRange> {
    queue_outside(queue, q) + nonempty_ranges(es)
}

/// Every range holds at least one block.
pub open spec fn ranges_nonempty(s: Seq<ScanRange>) -> bool {
    forall|i: int| 0 <= i < s.len() ==> (#[trigger] s[i]).start < s[i].end
}

impl MemoryWalletDb {
    /// Takes in a new chain tip: the scan queue over the span that
    /// [`MemoryWalletDb::chain_tip_plan`] gives is replaced by the entries it gives
    /// (see [`queue_replaced`]); where it gives none, the queue is left as it is.
    /// Nothing else changes. Gives the span and the entries.
    pub fn update_chain_tip(&mut self, tip_height: BlockHeight) -> (r: Option<(ScanRange, Vec<ScanRange>)>)
        requires
            old(self).wf(),
            chain_tip_update(
                if old(self).network == crate::types::Network::MainNetwork { Some(419_200u32) } else { Some(280_000u32) },
                tip_height,
                max_scanned_height(old(self).blocks.blocks()),
                wallet_birthday(old(self).accounts.accounts@),
                tip_shard_end(old(self).sapling_tree_shard_end_heights.entries@),
            ) is Some ==> chain_tip_update_defined(
                tip_height,
                max_scanned_height(old(self).blocks.blocks()),
                wallet_birthday(old(self).accounts.accounts@),
                tip_shard_end(old(self).sapling_tree_shard_end_heights.entries@),
            ),
        ensures
            final(self).wf(),
            *final(self) == (MemoryWalletDb { scan_queue: final(self).scan_queue, ..*old(self) }),
            match chain_tip_update(
                if old(self).network == crate::types::Network::MainNetwork { Some(419_200u32) } else { Some(280_000u32) },
                tip_height,
                max_scanned_height(old(self).blocks.blocks()),
                wallet_birthday(old(self).accounts.accounts@),
                tip_shard_end(old(self).sapling_tree_shard_end_heights.entries@),
            ) {
                Some((q, es)) => (r matches Some((q2, v)) && q2 == q && v@ == es)
                    && final(self).scan_queue@ == queue_replaced(old(self).scan_queue@, q, es),
                None => r is None && final(self).scan_queue@ == old(self).scan_queue@,
            },
    {
        let plan = self.chain_tip_plan(tip_height);
        let (q, entries) = match plan {
            Some(p) => p,
            None => return None,
        };
        let mut queue: Vec<ScanRange> = Vec::new();
        let mut i: usize = 0;
        while i < self.scan_queue.len()
            invariant
                i <= self.scan_queue@.len(),
                ranges_nonempty(self.scan_queue@),
                ranges_nonempty(queue@),
                queue@ == queue_outside(self.scan_queue@.take(i as int), q),
            decreases self.scan_queue@.len() - i,
        {
            assert(self.scan_queue@.take(i + 1).drop_last() =~= self.scan_queue@.take(i as int));
            let r = self.scan_queue[i];
            assert(r.start < r.end);
            if r.end <= q.start || q.end <= r.start {
                queue.push(r);
            } else {
                if r.start < q.start {
                    queue.push(ScanRange { start: r.start, end: q.start, priority: r.priority });
                }
                if q.end < r.end {
                    queue.push(ScanRange { start: q.end, end: r.end, priority: r.priority });
                }
            }
            assert(queue@ =~= queue_outside(self.scan_queue@.take(i + 1), q));
            i = i + 1;
        }
        assert(self.scan_queue@.take(i as int) =~= self.scan_queue@);
        let ghost outside = queue@;
        let mut k: usize = 0;
        while k < entries.len()
            invariant
                k <= entries@.len(),
                ranges_nonempty(queue@),
                queue@ == outside + nonempty_ranges(entries@.take(k as int)),
            decreases entries@.len() - k,
        {
            assert(entries@.take(k + 1).drop_last() =~= entries@.take(k as int));
            let e = entries[k];
            if e.start < e.end {
                queue.push(e);
            }
            assert(queue@ =~= outside + nonempty_ranges(entries@.take(k + 1)));
            k = k + 1;
        }
        assert(entries@.take(k as int) =~= entries@);
        self.scan_queue = queue;
        Some((q, entries))
    }
}

} // verus!

//! Blocks: those the wallet has scanned, and the in-memory cache of compact
//! blocks waiting to be scanned.
use vstd::prelude::*;
use crate::types::{BlockHeight, NoteId, TxId};

verus! {

/// A block the wallet has scanned.
#[derive(Debug)]
pub struct MemoryWalletBlock {
    pub height: BlockHeight,
    pub hash: [u8; 32],
    pub block_time: u32,
    /// The transactions of the block that involve an account of the wallet.
    pub transactions: Vec<TxId>,
    /// The memos of the wallet's notes in the block.
    pub memos: Vec<(NoteId, [u8; 512])>,
    pub sapling_commitment_tree_size: Option<u32>,
    pub sapling_output_count: Option<u32>,
    pub orchard_commitment_tree_size: Option<u32>,
    pub orchard_action_count: Option<u32>,
}

/// A stored block, as a mathematical value.
#[verifier::ext_equal]
pub struct BlockView {
    pub height: BlockHeight,
    pub hash: [u8; 32],
    pub block_time: u32,
    pub transactions: Seq<TxId>,
    pub memos: Seq<(NoteId, [u8; 512])>,
    pub sapling_commitment_tree_size: Option<u32>,
    pub sapling_output_count: Option<u32>,
    pub orchard_commitment_tree_size: Option<u32>,
    pub orchard_action_count: Option<u32>,
}

impl View for MemoryWalletBlock {
    type V = BlockView;

    open spec fn view(&self) -> BlockView {
        BlockView {
            height: self.height,
            hash: self.hash,
            block_time: self.block_time,
            transactions: self.transactions@,
            memos: self.memos@,
            sapling_commitment_tree_size: self.sapling_commitment_tree_size,
            sapling_output_count: self.sapling_output_count,
            orchard_commitment_tree_size: self.orchard_commitment_tree_size,
            orchard_action_count: self.orchard_action_count,
        }
    }
}

/// The position at which a block of height `h` belongs in blocks sorted by
/// height: after every lower block, at the first block not lower.
pub open spec fn insertion_index(s: Seq<BlockView>, h: BlockHeight) -> int {
    choose|i: int| 0 <= i <= s.len() && (forall|j: int| 0 <= j < i ==> #[trigger] s[j].height < h)
        && (i == s.len() || s[i].height >= h)
}

/// The blocks after `b` is stored: it replaces the block of its height where
/// there is one, else it goes in at its place by height.
pub open spec fn blocks_inserted(s: Seq<BlockView>, b: BlockView) -> Seq<BlockView> {
    let i = insertion_index(s, b.height);
    if i < s.len() && s[i].height == b.height {
        s.update(i, b)
    } else {
        s.insert(i, b)
    }
}

/// The metadata of a scanned block: height, hash and note commitment tree sizes
/// at its end.
#[derive(Clone, Copy, Debug, PartialEq, Eq)]
pub struct BlockMetadata {
    pub block_height: BlockHeight,
    pub block_hash: [u8; 32],
    pub sapling_tree_size: Option<u32>,
    pub orchard_tree_size: Option<u32>,
}

/// The metadata of a stored block.
pub open spec fn metadata_of(b: MemoryWalletBlock) -> BlockMetadata {
    BlockMetadata {
        block_height: b.height,
        block_hash: b.hash,
        sapling_tree_size: b.sapling_commitment_tree_size,
        orchard_tree_size: b.orchard_commitment_tree_size,
    }
}

/// The scanned blocks, by strictly increasing height.
pub struct BlockTable(pub Vec<MemoryWalletBlock>);

impl BlockTable {
    /// Heights increase strictly.
    pub open spec fn wf(&self) -> bool {
        forall|i: int, j: int| 0 <= i < j < self.0@.len() ==> self.0@[i].height < self.0@[j].height
    }

    /// The stored blocks, as values, by increasing height.
    pub open spec fn blocks(&self) -> Seq<BlockView> {
        self.0@.map_values(|b: MemoryWalletBlock| b@)
    }

    /// Whether a block of the given height is stored.
    pub open spec fn has(&self, h: BlockHeight) -> bool {
        exists|i: int| 0 <= i < self.0@.len() && #[trigger] self.0@[i].height == h
    }

    /// No blocks.
    pub fn new() -> (r: Self)
        ensures
            r.wf(),
            r.0@.len() == 0,
    {
        BlockTable(Vec::new())
    }

    /// The position of the block of height `h`, if stored.
    pub fn position(&self, h: BlockHeight) -> (r: Option<usize>)
        ensures
            match r {
                Some(i) => i < self.0@.len() && self.0@[i as int].height == h,
                None => !self.has(h),
            },
    {
        let mut i: usize = 0;
        while i < self.0.len()
            invariant
                i <= self.0@.len(),
                forall|j: int| 0 <= j < i ==> #[trigger] self.0@[j].height != h,
            decreases self.0@.len() - i,
        {
            if self.0[i].height == h {
                return Some(i);
            }
            i = i + 1;
        }
        None
    }

    /// The block of height `h`, if stored.
    pub fn get(&self, h: BlockHeight) -> (r: Option<&MemoryWalletBlock>)
        ensures
            match r {
                Some(b) => b.height == h && self.0@.contains(*b),
                None => !self.has(h),
            },
    {
        match self.position(h) {
            Some(i) => Some(&self.0[i]),
            None => None,
        }
    }

    /// The block of greatest height, if any.
    pub fn last(&self) -> (r: Option<&MemoryWalletBlock>)
        requires
            self.wf(),
        ensures
            match r {
                Some(b) => self.0@.len() > 0 && *b == self.0@.last()
                    && forall|i: int| 0 <= i < self.0@.len() ==> #[trigger] self.0@[i].height <= b.height,
                None => self.0@.len() == 0,
            },
    {
        let n = self.0.len();
        if n == 0 {
            None
        } else {
            Some(&self.0[n - 1])
        }
    }

    /// Stores a block, replacing a stored block of the same height.
    pub fn insert(&mut self, block: MemoryWalletBlock)
        requires
            old(self).wf(),
        ensures
            final(self).wf(),
            final(self).has(block.height),
            forall|h: BlockHeight| h != block.height ==> (final(self).has(h) == old(self).has(h)),
            forall|i: int| 0 <= i < final(self).0@.len() && final(self).0@[i].height == block.height
                ==> #[trigger] final(self).0@[i] == block,
            forall|i: int| 0 <= i < old(self).0@.len() && old(self).0@[i].height != block.height
                ==> final(self).0@.contains(#[trigger] old(self).0@[i]),
            final(self).blocks() == blocks_inserted(old(self).blocks(), block@),
    {
        let h = block.height;
        let mut i: usize = 0;
        while i < self.0.len() && self.0[i].height < h
            invariant
                i <= self.0@.len(),
                self.0@ == old(self).0@,
                forall|j: int| 0 <= j < i ==> #[trigger] self.0@[j].height < h,
            decreases self.0@.len() - i,
        {
            i = i + 1;
        }
        let ghost before = self.0@;
        let ghost bv = block@;
        proof {
            let vs = old(self).blocks();
            assert(0 <= i <= vs.len() && (forall|j: int| 0 <= j < i ==> #[trigger] vs[j].height < h)
                && (i == vs.len() || vs[i as int].height >= h));
            let c = insertion_index(vs, h);
            if c != i as int {
                if c < i as int {
                    assert(vs[c].height < h);
                } else {
                    assert(vs[i as int].height < h);
                }
            }
            assert(insertion_index(vs, h) == i as int);
        }
        if i < self.0.len() && self.0[i].height == h {
            self.0.set(i, block);
            proof {
                assert forall|h2: BlockHeight| h2 != h implies (self.has(h2) == old(self).has(h2)) by {
                    if self.has(h2) {
                        let k = choose|k: int| 0 <= k < self.0@.len() && #[trigger] self.0@[k].height == h2;
                        assert(k != i);
                        assert(before[k].height == h2);
                    }
                    if old(self).has(h2) {
                        let k = choose|k: int| 0 <= k < before.len() && #[trigger] before[k].height == h2;
                        assert(self.0@[k].height == h2);
                    }
                }
                assert(self.0@[i as int].height == h);
                assert forall|k: int| 0 <= k < old(self).0@.len() && old(self).0@[k].height != h
                    implies self.0@.contains(#[trigger] old(self).0@[k]) by {
                    assert(self.0@[k] == old(self).0@[k]);
                }
                assert(self.blocks() =~= old(self).blocks().update(i as int, bv));
            }
        } else {
            self.0.insert(i, block);
            proof {
                let s = self.0@;
                assert forall|x: int, y: int| 0 <= x < y < s.len() implies s[x].height < s[y].height by {
                    if x < i && y < i {
                        assert(s[x] == before[x] && s[y] == before[y]);
                    } else if x < i && y == i {
                        assert(before[x].height < h);
                    } else if x < i && y > i {
                        assert(s[x] == before[x] && s[y] == before[y - 1]);
                    } else if x == i {
                        assert(s[y] == before[y - 1]);
                        assert(i < before.len());
                        assert(before[i as int].height >= h);
                        assert(before[i as int].height != h);
                        if y - 1 > i {
                            assert(before[i as int].height < before[y - 1].height);
                        }
                    } else {
                        assert(s[x] == before[x - 1] && s[y] == before[y - 1]);
                    }
                }
                assert(s[i as int].height == h);
                assert forall|h2: BlockHeight| h2 != h implies (self.has(h2) == old(self).has(h2)) by {
                    if self.has(h2) {
                        let k = choose|k: int| 0 <= k < s.len() && #[trigger] s[k].height == h2;
                        if k < i {
                            assert(before[k].height == h2);
                        } else {
                            assert(k != i);
                            assert(before[k - 1].height == h2);
                        }
                    }
                    if old(self).has(h2) {
                        let k = choose|k: int| 0 <= k < before.len() && #[trigger] before[k].height == h2;
                        if k < i {
                            assert(s[k].height == h2);
                        } else {
                            assert(s[k + 1].height == h2);
                        }
                    }
                }
                assert forall|k: int| 0 <= k < s.len() && s[k].height == h implies #[trigger] s[k] == block by {
                    if k < i {
                        assert(before[k].height < h);
                    } else if k > i {
                        assert(s[k] == before[k - 1]);
                        assert(s[i as int].height < s[k].height);
                    }
                }
                assert forall|k: int| 0 <= k < before.len() && before[k].height != h
                    implies s.contains(#[trigger] before[k]) by {
                    if k < i {
                        assert(s[k] == before[k]);
                    } else {
                        assert(s[k + 1] == before[k]);
                    }
                }
                assert(self.blocks() =~= old(self).blocks().insert(i as int, bv));
            }
        }
    }
}

/// A compact block waiting in the cache, with its encoding.
#[derive(Debug)]
pub struct CachedBlock {
    pub height: BlockHeight,
    /// The compact block, encoded.
    pub data: Vec<u8>,
}

/// A block cache that holds blocks in memory, by increasing height.
pub struct MemBlockCache(pub Vec<CachedBlock>);

/// The blocks from `from_height` on (all where none is given), at most `limit` of
/// them where a limit is given, in order.
pub open spec fn blocks_to_scan(s: Seq<CachedBlock>, from_height: Option<BlockHeight>, limit: Option<usize>) -> Seq<CachedBlock> {
    let filtered = s.filter(|b: CachedBlock| match from_height {
        Some(h) => b.height >= h,
        None => true,
    });
    match limit {
        Some(l) if l < filtered.len() => filtered.take(l as int),
        _ => filtered,
    }
}

impl MemBlockCache {
    /// Heights increase strictly.
    pub open spec fn wf(&self) -> bool {
        forall|i: int, j: int| 0 <= i < j < self.0@.len() ==> self.0@[i].height < self.0@[j].height
    }

    /// An empty cache.
    pub fn new() -> (r: Self)
        ensures
            r.wf(),
            r.0@.len() == 0,
    {
        MemBlockCache(Vec::new())
    }

    /// The cached blocks the scanner reads from `from_height` on (all where none is
    /// given), at most `limit` of them, in order of height.
    pub fn with_blocks(&self, from_height: Option<BlockHeight>, limit: Option<usize>) -> (r: Vec<&CachedBlock>)
        ensures
            r@.len() == blocks_to_scan(self.0@, from_height, limit).len(),
            forall|i: int| 0 <= i < r@.len() ==> *(#[trigger] r@[i]) == blocks_to_scan(self.0@, from_height, limit)[i],
    {
        let ghost pred = |b: CachedBlock| match from_height {
            Some(h) => b.height >= h,
            None => true,
        };
        let mut r: Vec<&CachedBlock> = Vec::new();
        let mut i: usize = 0;
        let mut full: bool = match limit {
            Some(l) => l == 0,
            None => false,
        };
        while i < self.0.len() && !full
            invariant
                i <= self.0@.len(),
                pred == (|b: CachedBlock| match from_height {
                    Some(h) => b.height >= h,
                    None => true,
                }),
                r@.len() == self.0@.take(i as int).filter(pred).len(),
                forall|k: int| 0 <= k < r@.len() ==> *(#[trigger] r@[k]) == self.0@.take(i as int).filter(pred)[k],
                full == match limit {
                    Some(l) => r@.len() >= l,
                    None => false,
                },
                match limit {
                    Some(l) => r@.len() <= l,
                    None => true,
                },
            decreases self.0@.len() - i,
        {
            let b = &self.0[i];
            let keep = match from_height {
                Some(h) => b.height >= h,
                None => true,
            };
            proof {
                assert(self.0@.take(i + 1) =~= self.0@.take(i as int).push(self.0@[i as int]));
                self.0@.take(i as int).lemma_filter_push(self.0@[i as int], pred);
            }
            if keep {
                r.push(b);
            }
            i = i + 1;
            full = match limit {
                Some(l) => r.len() >= l,
                None => false,
            };
        }
        proof {
            lemma_filter_prefix(self.0@, pred, i as int);
            if i == self.0@.len() {
                assert(self.0@.take(i as int) =~= self.0@);
            }
        }
        r
    }
}

/// The walk over the blocks `bs` went this way: `with_block` returned `Ok` on the
/// first `n` of them, and then either there were no more and the walk gave `Ok`,
/// or it returned the error that the walk gave on the next one.
pub open spec fn walked<E, F: Fn(&CachedBlock) -> Result<(), E>>(with_block: F, bs: Seq<CachedBlock>, n: int, r: Result<(), E>) -> bool {
    &&& 0 <= n <= bs.len()
    &&& forall|k: int| 0 <= k < n ==> call_ensures(with_block, (&#[trigger] bs[k],), Ok(()))
    &&& match r {
        Ok(()) => n == bs.len(),
        Err(e) => n < bs.len() && call_ensures(with_block, (&bs[n],), Err(e)),
    }
}

impl MemBlockCache {
    /// Hands the cached blocks the scanner reads (see [`MemBlockCache::with_blocks`])
    /// to `with_block`, in order of height, stopping at the first error, which it
    /// returns. The cache is not changed.
    pub fn for_each_block<E, F: Fn(&CachedBlock) -> Result<(), E>>(
        &self,
        from_height: Option<BlockHeight>,
        limit: Option<usize>,
        with_block: F,
    ) -> (r: Result<(), E>)
        requires
            forall|k: int| 0 <= k < blocks_to_scan(self.0@, from_height, limit).len()
                ==> call_requires(with_block, (&#[trigger] blocks_to_scan(self.0@, from_height, limit)[k],)),
        ensures
            exists|n: int| walked(with_block, blocks_to_scan(self.0@, from_height, limit), n, r),
    {
        let ghost bs = blocks_to_scan(self.0@, from_height, limit);
        let blocks = self.with_blocks(from_height, limit);
        let mut i: usize = 0;
        while i < blocks.len()
            invariant
                i <= blocks@.len(),
                bs == blocks_to_scan(self.0@, from_height, limit),
                blocks@.len() == bs.len(),
                forall|k: int| 0 <= k < blocks@.len() ==> *(#[trigger] blocks@[k]) == bs[k],
                forall|k: int| 0 <= k < bs.len() ==> call_requires(with_block, (&#[trigger] bs[k],)),
                forall|k: int| 0 <= k < i ==> call_ensures(with_block, (&#[trigger] bs[k],), Ok(())),
            decreases blocks@.len() - i,
        {
            let b = blocks[i];
            assert(*b == bs[i as int]);
            let res = with_block(b);
            assert(call_ensures(with_block, (&bs[i as int],), res));
            match res {
                Ok(u) => {
                    assert(u == ());
                    assert(res == Ok::<(), E>(()));
                },
                Err(e) => {
                    assert(walked(with_block, bs, i as int, Err::<(), E>(e)));
                    return Err(e);
                },
            }
            i = i + 1;
        }
        assert(walked(with_block, bs, i as int, Ok::<(), E>(())));
        Ok(())
    }
}

/// Filtering a prefix of a sequence gives a prefix of the filtered sequence.
pub proof fn lemma_filter_prefix(s: Seq<CachedBlock>, pred: spec_fn(CachedBlock) -> bool, i: int)
    requires
        0 <= i <= s.len(),
    ensures
        s.take(i).filter(pred).len() <= s.filter(pred).len(),
        s.take(i).filter(pred) == s.filter(pred).take(s.take(i).filter(pred).len() as int),
{
    assert(s =~= s.take(i) + s.skip(i));
    Seq::filter_distributes_over_add(s.take(i), s.skip(i), pred);
    let a = s.take(i).filter(pred);
    let b = s.skip(i).filter(pred);
    assert((a + b).take(a.len() as int) =~= a);
}

/// A block source with no blocks.
pub struct MockBlockSource;

impl MockBlockSource {
    /// Hands the callback no block.
    pub fn with_blocks(&self, from_height: Option<BlockHeight>, limit: Option<u32>) -> (r: Result<(), ()>)
        ensures
            r is Ok,
    {
        Ok(())
    }
}

} // verus!

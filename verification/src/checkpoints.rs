//! Keeping the checkpoints of the two note commitment trees in step: each tree
//! gets a checkpoint at every height at which the other has one.
use vstd::prelude::*;
use crate::types::BlockHeight;

verus! {

/// A note commitment tree checkpoint: the tree is empty, or its last leaf is at
/// the given position.
#[derive(Clone, Copy, Debug, PartialEq, Eq, Structural)]
pub enum Checkpoint {
    TreeEmpty,
    AtPosition(u64),
}

/// The checkpoints are in strictly increasing order of height.
pub open spec fn heights_increase(existing: Seq<(BlockHeight, u64)>) -> bool {
    forall|i: int, j: int| 0 <= i < j < existing.len() ==> existing[i].0 < existing[j].0
}

/// The position of the last checkpoint at or below height `h`, if any.
pub open spec fn last_at_or_below(existing: Seq<(BlockHeight, u64)>, h: BlockHeight) -> Option<int>
    decreases existing.len(),
{
    if existing.len() == 0 {
        None
    } else if existing.last().0 <= h {
        Some(existing.len() - 1)
    } else {
        last_at_or_below(existing.drop_last(), h)
    }
}

/// The last checkpoint at or below `h` is one, and all after it are above `h`.
pub proof fn lemma_last_at_or_below(existing: Seq<(BlockHeight, u64)>, h: BlockHeight)
    ensures
        match last_at_or_below(existing, h) {
            Some(i) => 0 <= i < existing.len() && existing[i].0 <= h
                && forall|j: int| i < j < existing.len() ==> (#[trigger] existing[j]).0 > h,
            None => forall|j: int| 0 <= j < existing.len() ==> (#[trigger] existing[j]).0 > h,
        },
    decreases existing.len(),
{
    if existing.len() > 0 {
        lemma_last_at_or_below(existing.drop_last(), h);
        if existing.last().0 > h {
            assert forall|j: int| 0 <= j < existing.len() - 1 implies existing[j] == existing.drop_last()[j] by {}
        }
    }
}

/// The checkpoint to add at height `h`, if one is missing there: at the position
/// of the last checkpoint below `h`, or, where there is none at or below `h`, at
/// the position of the frontier the trees were started from (or empty).
pub open spec fn checkpoint_for(existing: Seq<(BlockHeight, u64)>, frontier_position: Option<u64>, h: BlockHeight) -> Option<(BlockHeight, Checkpoint)> {
    match last_at_or_below(existing, h) {
        None => Some((h, match frontier_position {
            Some(p) => Checkpoint::AtPosition(p),
            None => Checkpoint::TreeEmpty,
        })),
        Some(i) => if existing[i].0 < h { Some((h, Checkpoint::AtPosition(existing[i].1))) } else { None },
    }
}

/// The checkpoints to add so that there is one at each of the heights, in order.
pub open spec fn missing_checkpoints(
    ensure_heights: Seq<BlockHeight>,
    existing: Seq<(BlockHeight, u64)>,
    frontier_position: Option<u64>,
) -> Seq<(BlockHeight, Checkpoint)>
    decreases ensure_heights.len(),
{
    if ensure_heights.len() == 0 {
        Seq::empty()
    } else {
        let rest = missing_checkpoints(ensure_heights.drop_last(), existing, frontier_position);
        match checkpoint_for(existing, frontier_position, ensure_heights.last()) {
            Some(c) => rest.push(c),
            None => rest,
        }
    }
}

/// The checkpoints to add to a tree whose checkpoints are `existing`, so that it
/// has one at each of `ensure_heights`, as [`missing_checkpoints`] says.
pub fn ensure_checkpoints(
    ensure_heights: &Vec<BlockHeight>,
    existing: &Vec<(BlockHeight, u64)>,
    frontier_position: Option<u64>,
) -> (r: Vec<(BlockHeight, Checkpoint)>)
    requires
        heights_increase(existing@),
    ensures
        r@ == missing_checkpoints(ensure_heights@, existing@, frontier_position),
{
    let mut r: Vec<(BlockHeight, Checkpoint)> = Vec::new();
    let mut i: usize = 0;
    while i < ensure_heights.len()
        invariant
            i <= ensure_heights@.len(),
            heights_increase(existing@),
            r@ == missing_checkpoints(ensure_heights@.take(i as int), existing@, frontier_position),
        decreases ensure_heights@.len() - i,
    {
        let h = ensure_heights[i];
        assert(ensure_heights@.take(i + 1).drop_last() =~= ensure_heights@.take(i as int));
        let mut last: Option<usize> = None;
        let mut k: usize = 0;
        while k < existing.len()
            invariant
                k <= existing@.len(),
                match last {
                    Some(j) => last_at_or_below(existing@.take(k as int), h) == Some(j as int),
                    None => last_at_or_below(existing@.take(k as int), h) is None,
                },
            decreases existing@.len() - k,
        {
            assert(existing@.take(k + 1).drop_last() =~= existing@.take(k as int));
            if existing[k].0 <= h {
                last = Some(k);
            }
            k = k + 1;
        }
        assert(existing@.take(k as int) =~= existing@);
        proof {
            lemma_last_at_or_below(existing@, h);
        }
        let entry = match last {
            None => Some((h, match frontier_position {
                Some(p) => Checkpoint::AtPosition(p),
                None => Checkpoint::TreeEmpty,
            })),
            Some(j) => if existing[j].0 < h { Some((h, Checkpoint::AtPosition(existing[j].1))) } else { None },
        };
        match entry {
            Some(c) => r.push(c),
            None => {},
        }
        i = i + 1;
    }
    assert(ensure_heights@.take(i as int) =~= ensure_heights@);
    r
}


/// Some checkpoint in the list is at height `h`.
pub open spec fn has_checkpoint_at<C>(s: Seq<(BlockHeight, C)>, h: BlockHeight) -> bool {
    exists|i: int| 0 <= i < s.len() && (#[trigger] s[i]).0 == h
}

/// After the missing checkpoints are added, every one of the heights has a
/// checkpoint: an existing one or an added one.
pub proof fn lemma_every_height_checkpointed(
    ensure_heights: Seq<BlockHeight>,
    existing: Seq<(BlockHeight, u64)>,
    frontier_position: Option<u64>,
    k: int,
)
    requires
        0 <= k < ensure_heights.len(),
    ensures
        has_checkpoint_at(existing, ensure_heights[k])
            || has_checkpoint_at(missing_checkpoints(ensure_heights, existing, frontier_position), ensure_heights[k]),
    decreases ensure_heights.len(),
{
    let m = missing_checkpoints(ensure_heights, existing, frontier_position);
    let rest = missing_checkpoints(ensure_heights.drop_last(), existing, frontier_position);
    let h = ensure_heights[k];
    let c = checkpoint_for(existing, frontier_position, ensure_heights.last());
    assert(m == match c {
        Some(x) => rest.push(x),
        None => rest,
    });
    if k < ensure_heights.len() - 1 {
        lemma_every_height_checkpointed(ensure_heights.drop_last(), existing, frontier_position, k);
        assert(ensure_heights.drop_last()[k] == h);
        if has_checkpoint_at(rest, h) {
            let j = choose|j: int| 0 <= j < rest.len() && (#[trigger] rest[j]).0 == h;
            assert(m[j].0 == h);
        }
    } else {
        lemma_checkpoint_for(existing, frontier_position, h);
        if c is Some {
            assert(m[rest.len() as int] == c->0);
        }
    }
}

/// The height gets a checkpoint from [`checkpoint_for`] unless one already exists.
proof fn lemma_checkpoint_for(existing: Seq<(BlockHeight, u64)>, frontier_position: Option<u64>, h: BlockHeight)
    ensures
        has_checkpoint_at(existing, h) || (checkpoint_for(existing, frontier_position, h) matches Some(x) && x.0 == h),
{
    lemma_last_at_or_below(existing, h);
    if let Some(i) = last_at_or_below(existing, h) {
        if existing[i].0 >= h {
            assert(existing[i].0 == h);
        }
    }
}

} // verus!

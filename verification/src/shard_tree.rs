//! The serialized form of a pruned note commitment tree: a version, then the
//! nodes in prefix order, each a tag followed by its contents.
use vstd::prelude::*;

verus! {

/// The version of the serialized form.
pub const SER_V1: u8 = 1;

/// The tag of an empty subtree.
pub const NIL_TAG: u8 = 0;

/// The tag of a leaf.
pub const LEAF_TAG: u8 = 1;

/// The tag of a parent node.
pub const PARENT_TAG: u8 = 2;

/// A note commitment tree, pruned: empty subtrees, leaves with their retention
/// flags, and parents with an optional annotation (the hash of the subtree).
#[derive(Debug)]
pub enum PrunableTree {
    Nil,
    Leaf { value: [u8; 32], flags: u8 },
    Parent { ann: Option<[u8; 32]>, left: Box<PrunableTree>, right: Box<PrunableTree> },
}

/// One element of the serialized sequence.
#[derive(Clone, Copy, Debug)]
pub enum Element {
    /// A byte: a version, a tag or retention flags.
    Byte(u8),
    /// A node hash.
    Hash([u8; 32]),
    /// A node hash that may be missing.
    OptionalHash(Option<[u8; 32]>),
}

/// Why a sequence is not a serialized tree.
#[derive(Clone, Copy, Debug, PartialEq, Eq, Structural)]
pub enum TreeDecodeError {
    /// The sequence is empty.
    InvalidLength,
    /// The version is not the one this form has.
    InvalidVersion,
    /// An element is not of the kind its place calls for.
    InvalidType,
    /// A parent tag is not followed by its annotation.
    MissingNode,
    /// A leaf tag is not followed by its value.
    MissingValue,
    /// A leaf's value is not followed by its retention flags.
    MissingFlags,
    /// Retention flags have bits that no flag has.
    InvalidFlags,
    /// A tag is none of the three.
    InvalidTag,
    /// The nodes nest deeper than the sequence is long.
    TooDeep,
}

/// Retention flags are valid where they set only the checkpoint, marked and
/// reference bits.
pub open spec fn flags_valid(f: u8) -> bool {
    f < 8
}

/// Every leaf of the tree has valid retention flags.
pub open spec fn tree_wf(t: PrunableTree) -> bool
    decreases t,
{
    match t {
        PrunableTree::Nil => true,
        PrunableTree::Leaf { flags, .. } => flags_valid(flags),
        PrunableTree::Parent { left, right, .. } => tree_wf(*left) && tree_wf(*right),
    }
}

/// The elements of a tree, in prefix order.
pub open spec fn tree_elements(t: PrunableTree) -> Seq<Element>
    decreases t,
{
    match t {
        PrunableTree::Nil => seq![Element::Byte(NIL_TAG)],
        PrunableTree::Leaf { value, flags } => seq![Element::Byte(LEAF_TAG), Element::Hash(value), Element::Byte(flags)],
        PrunableTree::Parent { ann, left, right } => seq![Element::Byte(PARENT_TAG), Element::OptionalHash(ann)]
            + tree_elements(*left) + tree_elements(*right),
    }
}

/// The serialized form of a tree: the version, then its elements.
pub open spec fn serialized(t: PrunableTree) -> Seq<Element> {
    seq![Element::Byte(SER_V1)] + tree_elements(t)
}

/// The tree read from the elements at `pos`, with the position after it; a
/// sequence that ends where a node is due reads as an empty subtree. At most
/// `fuel` levels of nodes are read.
pub open spec fn parse_tree(s: Seq<Element>, pos: int, fuel: nat) -> Result<(PrunableTree, int), TreeDecodeError>
    decreases fuel,
{
    if fuel == 0 {
        Err(TreeDecodeError::TooDeep)
    } else if pos >= s.len() {
        Ok((PrunableTree::Nil, pos))
    } else {
        match s[pos] {
            Element::Byte(tag) => if tag == PARENT_TAG {
                if pos + 1 >= s.len() {
                    Err(TreeDecodeError::MissingNode)
                } else {
                    match s[pos + 1] {
                        Element::OptionalHash(ann) => match parse_tree(s, pos + 2, (fuel - 1) as nat) {
                            Err(e) => Err(e),
                            Ok((l, p1)) => match parse_tree(s, p1, (fuel - 1) as nat) {
                                Err(e) => Err(e),
                                Ok((r, p2)) => Ok((PrunableTree::Parent { ann, left: Box::new(l), right: Box::new(r) }, p2)),
                            },
                        },
                        _ => Err(TreeDecodeError::InvalidType),
                    }
                }
            } else if tag == LEAF_TAG {
                if pos + 1 >= s.len() {
                    Err(TreeDecodeError::MissingValue)
                } else {
                    match s[pos + 1] {
                        Element::Hash(value) => if pos + 2 >= s.len() {
                            Err(TreeDecodeError::MissingFlags)
                        } else {
                            match s[pos + 2] {
                                Element::Byte(flags) => if flags_valid(flags) {
                                    Ok((PrunableTree::Leaf { value, flags }, pos + 3))
                                } else {
                                    Err(TreeDecodeError::InvalidFlags)
                                },
                                _ => Err(TreeDecodeError::InvalidType),
                            }
                        },
                        _ => Err(TreeDecodeError::InvalidType),
                    }
                }
            } else if tag == NIL_TAG {
                Ok((PrunableTree::Nil, pos + 1))
            } else {
                Err(TreeDecodeError::InvalidTag)
            },
            _ => Err(TreeDecodeError::InvalidType),
        }
    }
}

/// The tree a serialized sequence holds: the version must come first; elements
/// after the tree are not read.
pub open spec fn decoded(s: Seq<Element>) -> Result<PrunableTree, TreeDecodeError> {
    if s.len() == 0 {
        Err(TreeDecodeError::InvalidLength)
    } else {
        match s[0] {
            Element::Byte(v) => if v != SER_V1 {
                Err(TreeDecodeError::InvalidVersion)
            } else {
                match parse_tree(s, 1, (s.len() + 1) as nat) {
                    Ok((t, _)) => Ok(t),
                    Err(e) => Err(e),
                }
            },
            _ => Err(TreeDecodeError::InvalidType),
        }
    }
}

/// Appends the elements of a tree, in prefix order.
fn serialize_inner(t: &PrunableTree, out: &mut Vec<Element>)
    ensures
        final(out)@ == old(out)@ + tree_elements(*t),
    decreases t,
{
    match t {
        PrunableTree::Nil => {
            out.push(Element::Byte(NIL_TAG));
        },
        PrunableTree::Leaf { value, flags } => {
            out.push(Element::Byte(LEAF_TAG));
            out.push(Element::Hash(*value));
            out.push(Element::Byte(*flags));
            assert(out@ =~= old(out)@ + tree_elements(*t));
        },
        PrunableTree::Parent { ann, left, right } => {
            out.push(Element::Byte(PARENT_TAG));
            out.push(Element::OptionalHash(*ann));
            let ghost mid = out@;
            serialize_inner(left, out);
            serialize_inner(right, out);
            assert(out@ =~= old(out)@ + tree_elements(*t));
        },
    }
}

/// The serialized form of a tree.
pub fn serialize_tree(t: &PrunableTree) -> (r: Vec<Element>)
    ensures
        r@ == serialized(*t),
{
    let mut out: Vec<Element> = Vec::new();
    out.push(Element::Byte(SER_V1));
    serialize_inner(t, &mut out);
    assert(out@ =~= serialized(*t));
    out
}

/// Reads a tree from the elements at `pos`, as [`parse_tree`] says.
fn parse_inner(s: &Vec<Element>, pos: usize, Ghost(fuel): Ghost<nat>) -> (r: Result<(PrunableTree, usize), TreeDecodeError>)
    requires
        pos <= s@.len(),
        fuel >= s@.len() - pos + 1,
    ensures
        match parse_tree(s@, pos as int, fuel) {
            Ok((t, p)) => r matches Ok((t2, p2)) && t2 == t && p2 == p,
            Err(e) => r == Err::<(PrunableTree, usize), TreeDecodeError>(e),
        },
        r matches Ok((_, p2)) ==> pos <= p2 <= s@.len(),
    decreases s@.len() - pos,
{
    if pos >= s.len() {
        return Ok((PrunableTree::Nil, pos));
    }
    match s[pos] {
        Element::Byte(tag) => {
            if tag == PARENT_TAG {
                if pos + 1 >= s.len() {
                    return Err(TreeDecodeError::MissingNode);
                }
                match s[pos + 1] {
                    Element::OptionalHash(ann) => {
                        let (l, p1) = match parse_inner(s, pos + 2, Ghost((fuel - 1) as nat)) {
                            Ok(x) => x,
                            Err(e) => return Err(e),
                        };
                        let (r, p2) = match parse_inner(s, p1, Ghost((fuel - 1) as nat)) {
                            Ok(x) => x,
                            Err(e) => return Err(e),
                        };
                        Ok((PrunableTree::Parent { ann, left: Box::new(l), right: Box::new(r) }, p2))
                    },
                    _ => Err(TreeDecodeError::InvalidType),
                }
            } else if tag == LEAF_TAG {
                if pos + 1 >= s.len() {
                    return Err(TreeDecodeError::MissingValue);
                }
                match s[pos + 1] {
                    Element::Hash(value) => {
                        if pos + 2 >= s.len() {
                            return Err(TreeDecodeError::MissingFlags);
                        }
                        match s[pos + 2] {
                            Element::Byte(flags) => {
                                if flags < 8 {
                                    Ok((PrunableTree::Leaf { value, flags }, pos + 3))
                                } else {
                                    Err(TreeDecodeError::InvalidFlags)
                                }
                            },
                            _ => Err(TreeDecodeError::InvalidType),
                        }
                    },
                    _ => Err(TreeDecodeError::InvalidType),
                }
            } else if tag == NIL_TAG {
                Ok((PrunableTree::Nil, pos + 1))
            } else {
                Err(TreeDecodeError::InvalidTag)
            }
        },
        _ => Err(TreeDecodeError::InvalidType),
    }
}

/// The tree a serialized sequence holds, as [`decoded`] says.
pub fn deserialize_tree(s: &Vec<Element>) -> (r: Result<PrunableTree, TreeDecodeError>)
    ensures
        r == decoded(s@),
{
    if s.len() == 0 {
        return Err(TreeDecodeError::InvalidLength);
    }
    match s[0] {
        Element::Byte(v) => {
            if v != SER_V1 {
                return Err(TreeDecodeError::InvalidVersion);
            }
            match parse_inner(s, 1, Ghost((s@.len() + 1) as nat)) {
                Ok((t, _)) => Ok(t),
                Err(e) => Err(e),
            }
        },
        _ => Err(TreeDecodeError::InvalidType),
    }
}


/// The number of levels of parent nodes in the tree.
pub open spec fn tree_height(t: PrunableTree) -> nat
    decreases t,
{
    match t {
        PrunableTree::Parent { left, right, .. } => {
            let hl = tree_height(*left);
            let hr = tree_height(*right);
            1 + if hl >= hr { hl } else { hr }
        },
        _ => 0,
    }
}

/// A tree has more elements than levels.
proof fn lemma_elements_outnumber_levels(t: PrunableTree)
    ensures
        tree_elements(t).len() >= tree_height(t) + 1,
    decreases t,
{
    match t {
        PrunableTree::Parent { left, right, .. } => {
            lemma_elements_outnumber_levels(*left);
            lemma_elements_outnumber_levels(*right);
        },
        _ => {},
    }
}

/// A tree's elements, wherever they stand in a sequence, read back as the tree.
proof fn lemma_parse_elements(t: PrunableTree, s: Seq<Element>, pos: int, fuel: nat)
    requires
        tree_wf(t),
        0 <= pos,
        pos + tree_elements(t).len() <= s.len(),
        s.subrange(pos, pos + tree_elements(t).len()) == tree_elements(t),
        fuel >= tree_height(t) + 1,
    ensures
        parse_tree(s, pos, fuel) == Ok::<(PrunableTree, int), TreeDecodeError>((t, pos + tree_elements(t).len())),
    decreases t,
{
    let te = tree_elements(t);
    assert(s[pos] == te[0]) by {
        assert(s.subrange(pos, pos + te.len())[0] == s[pos]);
    }
    match t {
        PrunableTree::Nil => {},
        PrunableTree::Leaf { value, flags } => {
            assert(s[pos + 1] == te[1]) by {
                assert(s.subrange(pos, pos + te.len())[1] == s[pos + 1]);
            }
            assert(s[pos + 2] == te[2]) by {
                assert(s.subrange(pos, pos + te.len())[2] == s[pos + 2]);
            }
        },
        PrunableTree::Parent { ann, left, right } => {
            let tl = tree_elements(*left);
            let tr = tree_elements(*right);
            let head = seq![Element::Byte(PARENT_TAG), Element::OptionalHash(ann)];
            assert(te == head + tl + tr);
            assert(s[pos + 1] == te[1]) by {
                assert(s.subrange(pos, pos + te.len())[1] == s[pos + 1]);
            }
            assert(s.subrange(pos + 2, pos + 2 + tl.len()) =~= tl) by {
                assert forall|k: int| 0 <= k < tl.len() implies s.subrange(pos + 2, pos + 2 + tl.len())[k] == tl[k] by {
                    assert(s.subrange(pos, pos + te.len())[2 + k] == s[pos + 2 + k]);
                    assert(te[2 + k] == tl[k]);
                }
            }
            assert(s.subrange(pos + 2 + tl.len(), pos + 2 + tl.len() + tr.len()) =~= tr) by {
                assert forall|k: int| 0 <= k < tr.len() implies s.subrange(pos + 2 + tl.len(), pos + 2 + tl.len() + tr.len())[k] == tr[k] by {
                    assert(s.subrange(pos, pos + te.len())[2 + tl.len() + k] == s[pos + 2 + tl.len() + k]);
                    assert(te[2 + tl.len() + k] == tr[k]);
                }
            }
            lemma_parse_elements(*left, s, pos + 2, (fuel - 1) as nat);
            lemma_parse_elements(*right, s, pos + 2 + tl.len(), (fuel - 1) as nat);
        },
    }
}

/// The values of the tree's leaves, from left to right.
pub open spec fn leaves(t: PrunableTree) -> Seq<[u8; 32]>
    decreases t,
{
    match t {
        PrunableTree::Nil => Seq::empty(),
        PrunableTree::Leaf { value, .. } => seq![value],
        PrunableTree::Parent { left, right, .. } => leaves(*left) + leaves(*right),
    }
}

/// The node hashes among the elements, in the order they stand.
pub open spec fn hashes_in(s: Seq<Element>) -> Seq<[u8; 32]>
    decreases s.len(),
{
    if s.len() == 0 {
        Seq::empty()
    } else {
        match s.last() {
            Element::Hash(h) => hashes_in(s.drop_last()).push(h),
            _ => hashes_in(s.drop_last()),
        }
    }
}

/// The hashes of two sequences joined are those of the first, then those of the
/// second.
pub proof fn lemma_hashes_in_concat(a: Seq<Element>, b: Seq<Element>)
    ensures
        hashes_in(a + b) == hashes_in(a) + hashes_in(b),
    decreases b.len(),
{
    if b.len() == 0 {
        assert(a + b =~= a);
        assert(hashes_in(b) =~= Seq::<[u8; 32]>::empty());
        assert(hashes_in(a) + hashes_in(b) =~= hashes_in(a));
    } else {
        lemma_hashes_in_concat(a, b.drop_last());
        assert((a + b).drop_last() =~= a + b.drop_last());
        assert((a + b).last() == b.last());
        match b.last() {
            Element::Hash(h) => {
                assert(hashes_in(a) + hashes_in(b.drop_last()).push(h) =~= (hashes_in(a) + hashes_in(b.drop_last())).push(h));
            },
            _ => {},
        }
    }
}

/// The hashes of a sequence that holds none.
proof fn lemma_no_hashes(s: Seq<Element>)
    requires
        forall|i: int| 0 <= i < s.len() ==> !(#[trigger] s[i] is Hash),
    ensures
        hashes_in(s) == Seq::<[u8; 32]>::empty(),
    decreases s.len(),
{
    if s.len() > 0 {
        lemma_no_hashes(s.drop_last());
    }
}

/// Serializing keeps the leaves in order: the node hashes of a tree's serialized
/// form are its leaf values from left to right.
pub proof fn lemma_serialized_leaves_in_order(t: PrunableTree)
    ensures
        hashes_in(tree_elements(t)) == leaves(t),
        hashes_in(serialized(t)) == leaves(t),
    decreases t,
{
    match t {
        PrunableTree::Nil => {
            lemma_no_hashes(tree_elements(t));
        },
        PrunableTree::Leaf { value, flags } => {
            let e = tree_elements(t);
            let e1 = e.drop_last();
            let e2 = e1.drop_last();
            assert(e2 =~= seq![Element::Byte(LEAF_TAG)]);
            lemma_no_hashes(e2);
            assert(e1.last() == Element::Hash(value));
            assert(hashes_in(e1) =~= seq![value]);
        },
        PrunableTree::Parent { ann, left, right } => {
            let head = seq![Element::Byte(PARENT_TAG), Element::OptionalHash(ann)];
            lemma_no_hashes(head);
            lemma_serialized_leaves_in_order(*left);
            lemma_serialized_leaves_in_order(*right);
            lemma_hashes_in_concat(head, tree_elements(*left));
            lemma_hashes_in_concat(head + tree_elements(*left), tree_elements(*right));
            assert(hashes_in(head) + leaves(*left) =~= leaves(*left));
        },
    }
    let v = seq![Element::Byte(SER_V1)];
    lemma_no_hashes(v);
    lemma_hashes_in_concat(v, tree_elements(t));
    assert(hashes_in(v) + hashes_in(tree_elements(t)) =~= hashes_in(tree_elements(t)));
}

/// Reading keeps the leaves in order: a tree read from the elements at `pos`
/// has as its leaves, from left to right, the node hashes of the elements it was
/// read from.
pub proof fn lemma_parsed_leaves_in_order(s: Seq<Element>, pos: int, fuel: nat)
    requires
        0 <= pos <= s.len(),
    ensures
        parse_tree(s, pos, fuel) matches Ok((t, p)) ==> pos <= p <= s.len() && leaves(t) == hashes_in(s.subrange(pos, p)),
    decreases fuel,
{
    if fuel > 0 && pos < s.len() {
        match s[pos] {
            Element::Byte(tag) => {
                if tag == PARENT_TAG && pos + 1 < s.len() && s[pos + 1] is OptionalHash {
                    let f = (fuel - 1) as nat;
                    lemma_parsed_leaves_in_order(s, pos + 2, f);
                    if let Ok((l, p1)) = parse_tree(s, pos + 2, f) {
                        lemma_parsed_leaves_in_order(s, p1, f);
                        if let Ok((r, p2)) = parse_tree(s, p1, f) {
                            let head = s.subrange(pos, pos + 2);
                            assert(head =~= seq![s[pos], s[pos + 1]]);
                            lemma_no_hashes(head);
                            assert(s.subrange(pos, p2) =~= head + s.subrange(pos + 2, p1) + s.subrange(p1, p2));
                            lemma_hashes_in_concat(head, s.subrange(pos + 2, p1));
                            lemma_hashes_in_concat(head + s.subrange(pos + 2, p1), s.subrange(p1, p2));
                            assert(hashes_in(head) + leaves(l) =~= leaves(l));
                        }
                    }
                } else if tag == LEAF_TAG && pos + 2 < s.len() {
                    let e = s.subrange(pos, pos + 3);
                    assert(e.drop_last().drop_last() =~= seq![s[pos]]);
                    lemma_no_hashes(e.drop_last().drop_last());
                    match s[pos + 1] {
                        Element::Hash(value) => {
                            assert(e.drop_last().last() == s[pos + 1]);
                            assert(hashes_in(e.drop_last()) =~= seq![value]);
                        },
                        _ => {},
                    }
                } else if tag == NIL_TAG {
                    assert(s.subrange(pos, pos + 1) =~= seq![s[pos]]);
                    lemma_no_hashes(s.subrange(pos, pos + 1));
                }
            },
            _ => {},
        }
    } else if fuel > 0 {
        lemma_no_hashes(s.subrange(pos, pos));
    }
}

/// A decoded tree's leaves are, from left to right, the node hashes of the
/// elements it was read from, which follow the version.
pub proof fn lemma_decoded_leaves_in_order(s: Seq<Element>)
    ensures
        decoded(s) matches Ok(t) ==> exists|p: int| 1 <= p <= s.len() && #[trigger] hashes_in(s.subrange(1, p)) == leaves(t),
{
    if s.len() > 0 {
        lemma_parsed_leaves_in_order(s, 1, (s.len() + 1) as nat);
    }
}

/// What is serialized reads back unchanged: a tree whose leaves have valid
/// retention flags is the tree its serialized form holds.
pub proof fn lemma_tree_roundtrip(t: PrunableTree)
    requires
        tree_wf(t),
    ensures
        decoded(serialized(t)) == Ok::<PrunableTree, TreeDecodeError>(t),
{
    let s = serialized(t);
    let te = tree_elements(t);
    lemma_elements_outnumber_levels(t);
    assert(s.subrange(1, 1 + te.len() as int) =~= te);
    lemma_parse_elements(t, s, 1, (s.len() + 1) as nat);
}

} // verus!

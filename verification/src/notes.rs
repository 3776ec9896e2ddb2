//! Notes received by the wallet: the note table with its upsert rule, the
//! nullifier queries over it, and the record of which transaction spent a note.
use vstd::prelude::*;
use crate::assoc::AssocList;
use crate::error::Error;
use crate::types::{bytes_eq, AccountId, NoteId, Nullifier, PoolType, Scope, ShieldedProtocol, TxId};

verus! {

/// The seed randomness of a Sapling note.
#[derive(Clone, Copy, Debug, PartialEq, Eq)]
pub enum Rseed {
    BeforeZip212([u8; 32]),
    AfterZip212([u8; 32]),
}

/// A shielded note: its recipient, value and randomness.
#[derive(Clone, Copy, Debug, PartialEq, Eq)]
pub enum Note {
    Sapling { recipient: [u8; 43], value: u64, rseed: Rseed },
    Orchard { recipient: [u8; 43], value: u64, rho: [u8; 32], random_seed: [u8; 32] },
}

/// The protocol a note belongs to.
pub open spec fn note_protocol(n: Note) -> ShieldedProtocol {
    match n {
        Note::Sapling { .. } => ShieldedProtocol::Sapling,
        Note::Orchard { .. } => ShieldedProtocol::Orchard,
    }
}

/// The value of a note, in zatoshis.
pub open spec fn note_value(n: Note) -> u64 {
    match n {
        Note::Sapling { value, .. } => value,
        Note::Orchard { value, .. } => value,
    }
}

impl Note {
    /// The protocol this note belongs to.
    pub fn protocol(&self) -> (r: ShieldedProtocol)
        ensures
            r == note_protocol(*self),
    {
        match self {
            Note::Sapling { .. } => ShieldedProtocol::Sapling,
            Note::Orchard { .. } => ShieldedProtocol::Orchard,
        }
    }

    /// The value of this note, in zatoshis.
    pub fn value(&self) -> (r: u64)
        ensures
            r == note_value(*self),
    {
        match self {
            Note::Sapling { value, .. } => *value,
            Note::Orchard { value, .. } => *value,
        }
    }
}

/// A note received by the wallet.
#[derive(Clone, Copy, Debug)]
pub struct ReceivedNote {
    /// Uniquely identifies this note.
    pub note_id: NoteId,
    pub txid: TxId,
    /// The output index (Sapling) or action index (Orchard).
    pub output_index: u32,
    pub account_id: AccountId,
    pub note: Note,
    pub nf: Option<Nullifier>,
    pub is_change: bool,
    /// The encoded memo.
    pub memo: [u8; 512],
    pub commitment_tree_position: Option<u64>,
    pub recipient_key_scope: Option<Scope>,
}

/// A shielded output of a scanned transaction that belongs to the wallet.
#[derive(Clone, Copy, Debug)]
pub struct WalletOutput {
    pub index: usize,
    pub account_id: AccountId,
    pub note: Note,
    pub is_change: bool,
    pub nf: Option<[u8; 32]>,
    pub note_commitment_tree_position: u64,
    pub recipient_key_scope: Option<Scope>,
}

/// The memo that stands for "no memo".
pub open spec fn is_empty_memo(m: [u8; 512]) -> bool {
    m@[0] == 0xF6u8 && forall|i: int| 1 <= i < 512 ==> m@[i] == 0u8
}

/// The encoding of the empty memo, as a value.
pub open spec fn empty_memo_value() -> [u8; 512] {
    choose|m: [u8; 512]| is_empty_memo(m)
}

/// The empty memo has one encoding.
pub proof fn lemma_empty_memo_unique(m: [u8; 512])
    requires
        is_empty_memo(m),
    ensures
        m == empty_memo_value(),
{
    let c = empty_memo_value();
    assert(is_empty_memo(c));
    assert forall|i: int| 0 <= i < 512 implies c[i] == m[i] by {
        vstd::array::lemma_array_index(c, i);
        vstd::array::lemma_array_index(m, i);
    }
    vstd::array::axiom_array_ext_equal(c, m);
    assert(c =~= m);
}

/// The encoding of the empty memo.
pub fn empty_memo() -> (r: [u8; 512])
    ensures
        is_empty_memo(r),
        r == empty_memo_value(),
{
    let mut m = [0u8; 512];
    m[0] = 0xF6u8;
    proof {
        lemma_empty_memo_unique(m);
    }
    m
}

/// The note that a scanned output stands for, with the nullifier made from the
/// output's nullifier bytes in the given protocol.
pub open spec fn received_from_output(
    note_id: NoteId,
    output: WalletOutput,
    nf: Option<Nullifier>,
    memo: [u8; 512],
) -> ReceivedNote {
    ReceivedNote {
        note_id,
        txid: note_id.txid,
        output_index: output.index as u32,
        account_id: output.account_id,
        note: output.note,
        nf,
        is_change: output.is_change,
        memo,
        commitment_tree_position: Some(output.note_commitment_tree_position),
        recipient_key_scope: output.recipient_key_scope,
    }
}

impl ReceivedNote {
    /// The value pool of this note.
    pub fn pool(&self) -> (r: PoolType)
        ensures
            r == PoolType::Shielded(note_protocol(self.note)),
    {
        PoolType::Shielded(self.note.protocol())
    }

    /// The account that received this note.
    pub fn account_id(&self) -> (r: AccountId)
        ensures
            r == self.account_id,
    {
        self.account_id
    }

    /// The nullifier of this note, where it is known.
    pub fn nullifier(&self) -> (r: Option<&Nullifier>)
        ensures
            r == match self.nf {
                Some(n) => Some(&n),
                None => None,
            },
    {
        self.nf.as_ref()
    }

    /// The transaction that created this note.
    pub fn txid(&self) -> (r: TxId)
        ensures
            r == self.txid,
    {
        self.txid
    }

    /// The id of this note.
    pub fn note_id(&self) -> (r: NoteId)
        ensures
            r == self.note_id,
    {
        self.note_id
    }

    /// The note that a scanned Sapling output stands for.
    pub fn from_wallet_sapling_output(note_id: NoteId, output: &WalletOutput) -> (r: Self)
        ensures
            r.note_id == note_id,
            is_empty_memo(r.memo),
            r.memo == empty_memo_value(),
            r == received_from_output(
                note_id,
                *output,
                match output.nf {
                    Some(b) => Some(Nullifier::Sapling(b)),
                    None => None,
                },
                r.memo,
            ),
    {
        ReceivedNote {
            note_id,
            txid: note_id.txid,
            output_index: output.index as u32,
            account_id: output.account_id,
            note: output.note,
            nf: match output.nf {
                Some(b) => Some(Nullifier::Sapling(b)),
                None => None,
            },
            is_change: output.is_change,
            memo: empty_memo(),
            commitment_tree_position: Some(output.note_commitment_tree_position),
            recipient_key_scope: output.recipient_key_scope,
        }
    }

    /// The note that a scanned Orchard output stands for.
    pub fn from_wallet_orchard_output(note_id: NoteId, output: &WalletOutput) -> (r: Self)
        ensures
            r.note_id == note_id,
            is_empty_memo(r.memo),
            r.memo == empty_memo_value(),
            r == received_from_output(
                note_id,
                *output,
                match output.nf {
                    Some(b) => Some(Nullifier::Orchard(b)),
                    None => None,
                },
                r.memo,
            ),
    {
        ReceivedNote {
            note_id,
            txid: note_id.txid,
            output_index: output.index as u32,
            account_id: output.account_id,
            note: output.note,
            nf: match output.nf {
                Some(b) => Some(Nullifier::Orchard(b)),
                None => None,
            },
            is_change: output.is_change,
            memo: empty_memo(),
            commitment_tree_position: Some(output.note_commitment_tree_position),
            recipient_key_scope: output.recipient_key_scope,
        }
    }
}

/// The note after a new sighting of it is merged in: a known nullifier or tree
/// position from the new sighting wins, the note is change if either sighting says
/// so, and everything else stays as first recorded.
pub open spec fn merged_note(old: ReceivedNote, new: ReceivedNote) -> ReceivedNote {
    ReceivedNote {
        nf: if new.nf is Some { new.nf } else { old.nf },
        is_change: new.is_change || old.is_change,
        commitment_tree_position: if new.commitment_tree_position is Some {
            new.commitment_tree_position
        } else {
            old.commitment_tree_position
        },
        ..old
    }
}

/// The notes received by the wallet, at most one per note id.
pub struct ReceivedNoteTable(pub Vec<ReceivedNote>);

/// The nullifiers of the given protocol among the notes, with the account and
/// transaction of each, in table order.
pub open spec fn nullifiers_of(s: Seq<ReceivedNote>, p: ShieldedProtocol) -> Seq<(AccountId, TxId, [u8; 32])>
    decreases s.len(),
{
    if s.len() == 0 {
        Seq::empty()
    } else {
        let n = s.last();
        let rest = nullifiers_of(s.drop_last(), p);
        match n.nf {
            Some(Nullifier::Sapling(b)) if p == ShieldedProtocol::Sapling => rest.push((n.account_id, n.txid, b)),
            Some(Nullifier::Orchard(b)) if p == ShieldedProtocol::Orchard => rest.push((n.account_id, n.txid, b)),
            _ => rest,
        }
    }
}

/// The note has a nullifier of protocol `p` whose bytes are among `nfs`.
pub open spec fn spent_by(n: ReceivedNote, p: ShieldedProtocol, nfs: Seq<[u8; 32]>) -> bool {
    n.nf is Some && n.nf->0@.0 == p && exists|j: int| 0 <= j < nfs.len() && #[trigger] nfs[j]@ == n.nf->0@.1
}

/// No two notes share a note id.
pub open spec fn notes_distinct(s: Seq<ReceivedNote>) -> bool {
    forall|i: int, j: int| 0 <= i < j < s.len() ==> s[i].note_id@ != s[j].note_id@
}

/// Whether a note with the given id is among the notes.
pub open spec fn notes_have(s: Seq<ReceivedNote>, id: (Seq<u8>, ShieldedProtocol, u16)) -> bool {
    exists|i: int| 0 <= i < s.len() && #[trigger] s[i].note_id@ == id
}

/// The position of the note with the given id, where there is one.
pub open spec fn notes_pos(s: Seq<ReceivedNote>, id: (Seq<u8>, ShieldedProtocol, u16)) -> int {
    choose|i: int| 0 <= i < s.len() && #[trigger] s[i].note_id@ == id
}

/// The notes after `note` is upserted: merged into the note with the same id
/// where there is one, else added last.
pub open spec fn notes_upserted(s: Seq<ReceivedNote>, note: ReceivedNote) -> Seq<ReceivedNote> {
    if notes_have(s, note.note_id@) {
        s.update(notes_pos(s, note.note_id@), merged_note(s[notes_pos(s, note.note_id@)], note))
    } else {
        s.push(note)
    }
}

/// The note carries the given nullifier.
pub open spec fn has_nullifier(n: ReceivedNote, nf: (ShieldedProtocol, Seq<u8>)) -> bool {
    n.nf is Some && n.nf->0@ == nf
}

/// The position of the first note that carries the given nullifier, if any.
pub open spec fn first_with_nullifier(s: Seq<ReceivedNote>, nf: (ShieldedProtocol, Seq<u8>)) -> Option<int> {
    if exists|i: int| 0 <= i < s.len() && #[trigger] has_nullifier(s[i], nf) {
        Some(choose|i: int| 0 <= i < s.len() && #[trigger] has_nullifier(s[i], nf)
            && forall|j: int| 0 <= j < i ==> !has_nullifier(#[trigger] s[j], nf))
    } else {
        None
    }
}

impl ReceivedNoteTable {
    /// No two notes share a note id.
    pub open spec fn wf(&self) -> bool {
        notes_distinct(self.0@)
    }

    /// Whether a note with the given id is in the table.
    pub open spec fn has(&self, id: (Seq<u8>, ShieldedProtocol, u16)) -> bool {
        notes_have(self.0@, id)
    }

    /// The position of the note with the given id, where there is one.
    pub open spec fn pos(&self, id: (Seq<u8>, ShieldedProtocol, u16)) -> int {
        notes_pos(self.0@, id)
    }

    /// The notes after `note` is upserted: merged into the note with the same id
    /// where there is one, else added last.
    pub open spec fn upserted(&self, note: ReceivedNote) -> Seq<ReceivedNote> {
        notes_upserted(self.0@, note)
    }

    /// The position of the first note that carries the given nullifier, if any.
    pub fn find_by_nullifier(&self, nf: &Nullifier) -> (r: Option<usize>)
        ensures
            match r {
                Some(i) => first_with_nullifier(self.0@, nf@) == Some(i as int) && i < self.0@.len()
                    && has_nullifier(self.0@[i as int], nf@),
                None => first_with_nullifier(self.0@, nf@) is None,
            },
    {
        let mut i: usize = 0;
        while i < self.0.len()
            invariant
                i <= self.0@.len(),
                forall|j: int| 0 <= j < i ==> !has_nullifier(#[trigger] self.0@[j], nf@),
            decreases self.0@.len() - i,
        {
            let found = match &self.0[i].nf {
                Some(x) => *x == *nf,
                None => false,
            };
            if found {
                proof {
                    let s = self.0@;
                    assert(has_nullifier(s[i as int], nf@));
                    let c = choose|k: int| 0 <= k < s.len() && #[trigger] has_nullifier(s[k], nf@)
                        && forall|j: int| 0 <= j < k ==> !has_nullifier(#[trigger] s[j], nf@);
                    if c != i as int {
                        if c < i as int {
                            assert(!has_nullifier(s[c], nf@));
                        } else {
                            assert(!has_nullifier(s[i as int], nf@));
                        }
                    }
                }
                return Some(i);
            }
            assert(!has_nullifier(self.0@[i as int], nf@));
            i = i + 1;
        }
        None
    }

    /// An empty table.
    pub fn new() -> (r: Self)
        ensures
            r.0@ == Seq::<ReceivedNote>::empty(),
            r.wf(),
    {
        ReceivedNoteTable(Vec::new())
    }

    /// The position of the note with the given id, if any.
    pub fn find(&self, id: &NoteId) -> (r: Option<usize>)
        requires
            self.wf(),
        ensures
            match r {
                Some(i) => i < self.0@.len() && self.0@[i as int].note_id@ == id@ && i == self.pos(id@)
                    && self.has(id@),
                None => !self.has(id@),
            },
    {
        let mut i: usize = 0;
        while i < self.0.len()
            invariant
                self.wf(),
                i <= self.0@.len(),
                forall|j: int| 0 <= j < i ==> #[trigger] self.0@[j].note_id@ != id@,
            decreases self.0@.len() - i,
        {
            if self.0[i].note_id == *id {
                proof {
                    let p = self.pos(id@);
                    assert(self.0@[i as int].note_id@ == id@);
                    if p != i as int {
                        if p < i as int {
                            assert(self.0@[p].note_id@ != id@);
                        } else {
                            assert(self.0@[i as int].note_id@ != self.0@[p].note_id@);
                        }
                    }
                }
                return Some(i);
            }
            i = i + 1;
        }
        None
    }

    /// The note with the given id, if any.
    pub fn get(&self, id: &NoteId) -> (r: Option<&ReceivedNote>)
        requires
            self.wf(),
        ensures
            match r {
                Some(n) => self.has(id@) && *n == self.0@[self.pos(id@)],
                None => !self.has(id@),
            },
    {
        match self.find(id) {
            Some(i) => Some(&self.0[i]),
            None => None,
        }
    }

    /// Records a note, following the upsert rule: a note with an id already in
    /// the table is merged into the stored note, see [`merged_note`].
    pub fn insert_received_note(&mut self, note: ReceivedNote)
        requires
            old(self).wf(),
        ensures
            final(self).wf(),
            final(self).0@ == old(self).upserted(note),
    {
        match self.find(&note.note_id) {
            Some(i) => {
                let old_note = self.0[i];
                let merged = ReceivedNote {
                    nf: if note.nf.is_some() { note.nf } else { old_note.nf },
                    is_change: note.is_change || old_note.is_change,
                    commitment_tree_position: if note.commitment_tree_position.is_some() {
                        note.commitment_tree_position
                    } else {
                        old_note.commitment_tree_position
                    },
                    ..old_note
                };
                self.0.set(i, merged);
                assert(self.0@ =~= old(self).upserted(note));
            },
            None => {
                self.0.push(note);
                proof {
                    assert forall|i: int, j: int| 0 <= i < j < self.0@.len() implies self.0@[i].note_id@
                        != self.0@[j].note_id@ by {
                        if j == self.0@.len() - 1 {
                            assert(old(self).0@[i].note_id@ != note.note_id@);
                        } else {
                            assert(old(self).0@[i].note_id@ != old(self).0@[j].note_id@);
                        }
                    }
                }
            },
        }
    }

    /// The nullifiers of protocol `p` among the notes, with the account and
    /// transaction of each, in table order.
    pub fn get_nullifiers(&self, p: ShieldedProtocol) -> (r: Vec<(AccountId, TxId, [u8; 32])>)
        ensures
            r@ == nullifiers_of(self.0@, p),
    {
        let mut r: Vec<(AccountId, TxId, [u8; 32])> = Vec::new();
        let mut i: usize = 0;
        while i < self.0.len()
            invariant
                i <= self.0@.len(),
                r@ == nullifiers_of(self.0@.take(i as int), p),
            decreases self.0@.len() - i,
        {
            let n = self.0[i];
            assert(self.0@.take(i + 1).drop_last() =~= self.0@.take(i as int));
            match n.nf {
                Some(Nullifier::Sapling(b)) => {
                    if p == ShieldedProtocol::Sapling {
                        r.push((n.account_id, n.txid, b));
                    }
                },
                Some(Nullifier::Orchard(b)) => {
                    if p == ShieldedProtocol::Orchard {
                        r.push((n.account_id, n.txid, b));
                    }
                },
                None => {},
            }
            i = i + 1;
        }
        assert(self.0@.take(self.0@.len() as int) =~= self.0@);
        r
    }

    /// The Sapling nullifiers among the notes, with account and transaction.
    pub fn get_sapling_nullifiers(&self) -> (r: Vec<(AccountId, TxId, [u8; 32])>)
        ensures
            r@ == nullifiers_of(self.0@, ShieldedProtocol::Sapling),
    {
        self.get_nullifiers(ShieldedProtocol::Sapling)
    }

    /// The Orchard nullifiers among the notes, with account and transaction.
    pub fn get_orchard_nullifiers(&self) -> (r: Vec<(AccountId, TxId, [u8; 32])>)
        ensures
            r@ == nullifiers_of(self.0@, ShieldedProtocol::Orchard),
    {
        self.get_nullifiers(ShieldedProtocol::Orchard)
    }

    /// The accounts, each once, that own a note whose nullifier of protocol `p`
    /// is among `nfs`.
    pub fn detect_spending_accounts(&self, p: ShieldedProtocol, nfs: &Vec<[u8; 32]>) -> (r: Vec<AccountId>)
        ensures
            forall|i: int, j: int| 0 <= i < j < r@.len() ==> r@[i] != r@[j],
            forall|a: AccountId| r@.contains(a) <==> exists|i: int|
                0 <= i < self.0@.len() && #[trigger] self.0@[i].account_id == a && spent_by(self.0@[i], p, nfs@),
    {
        let mut acc: Vec<AccountId> = Vec::new();
        let mut i: usize = 0;
        while i < self.0.len()
            invariant
                i <= self.0@.len(),
                forall|x: int, y: int| 0 <= x < y < acc@.len() ==> acc@[x] != acc@[y],
                forall|a: AccountId| acc@.contains(a) <==> exists|k: int|
                    0 <= k < i && #[trigger] self.0@[k].account_id == a && spent_by(self.0@[k], p, nfs@),
            decreases self.0@.len() - i,
        {
            let n = self.0[i];
            let bytes: Option<[u8; 32]> = match n.nf {
                Some(Nullifier::Sapling(b)) => if p == ShieldedProtocol::Sapling { Some(b) } else { None },
                Some(Nullifier::Orchard(b)) => if p == ShieldedProtocol::Orchard { Some(b) } else { None },
                None => None,
            };
            let mut found = false;
            if let Some(b) = bytes {
                let mut j: usize = 0;
                while j < nfs.len()
                    invariant
                        j <= nfs@.len(),
                        !found ==> forall|x: int| 0 <= x < j ==> #[trigger] nfs@[x]@ != b@,
                        found ==> exists|x: int| 0 <= x < nfs@.len() && #[trigger] nfs@[x]@ == b@,
                    decreases nfs@.len() - j,
                {
                    if bytes_eq(nfs[j].as_slice(), b.as_slice()) {
                        found = true;
                    }
                    j = j + 1;
                }
            }
            assert(found == spent_by(n, p, nfs@));
            let ghost acc_old = acc@;
            let mut present = false;
            if found {
                let mut k: usize = 0;
                while k < acc.len()
                    invariant
                        k <= acc@.len(),
                        present == exists|x: int| 0 <= x < k && acc@[x] == n.account_id,
                    decreases acc@.len() - k,
                {
                    if acc[k] == n.account_id {
                        present = true;
                    }
                    k = k + 1;
                }
                if !present {
                    acc.push(n.account_id);
                }
            }
            proof {
                assert forall|a: AccountId| acc@.contains(a) <==> exists|k: int|
                    0 <= k < i + 1 && #[trigger] self.0@[k].account_id == a && spent_by(self.0@[k], p, nfs@) by {
                    if acc@.contains(a) {
                        let x = choose|x: int| 0 <= x < acc@.len() && acc@[x] == a;
                        if x < acc_old.len() {
                            assert(acc_old.contains(a));
                        } else {
                            assert(self.0@[i as int].account_id == a);
                        }
                    }
                    if exists|k: int| 0 <= k < i + 1 && #[trigger] self.0@[k].account_id == a && spent_by(self.0@[k], p, nfs@) {
                        let k = choose|k: int| 0 <= k < i + 1 && #[trigger] self.0@[k].account_id == a && spent_by(self.0@[k], p, nfs@);
                        if k == i {
                            assert(found);
                            if present {
                                let x = choose|x: int| 0 <= x < acc@.len() && acc@[x] == n.account_id;
                                assert(acc@[x] == a);
                            } else {
                                assert(acc@[acc@.len() - 1] == a);
                            }
                        } else {
                            assert(acc_old.contains(a));
                            let x = choose|x: int| 0 <= x < acc_old.len() && acc_old[x] == a;
                            assert(acc@[x] == a);
                        }
                    }
                }
            }
            i = i + 1;
        }
        acc
    }

    /// The accounts owning a note whose Sapling nullifier is among `nfs`.
    pub fn detect_sapling_spending_accounts(&self, nfs: &Vec<[u8; 32]>) -> (r: Vec<AccountId>)
        ensures
            forall|i: int, j: int| 0 <= i < j < r@.len() ==> r@[i] != r@[j],
            forall|a: AccountId| r@.contains(a) <==> exists|i: int|
                0 <= i < self.0@.len() && #[trigger] self.0@[i].account_id == a
                    && spent_by(self.0@[i], ShieldedProtocol::Sapling, nfs@),
    {
        self.detect_spending_accounts(ShieldedProtocol::Sapling, nfs)
    }

    /// The accounts owning a note whose Orchard nullifier is among `nfs`.
    pub fn detect_orchard_spending_accounts(&self, nfs: &Vec<[u8; 32]>) -> (r: Vec<AccountId>)
        ensures
            forall|i: int, j: int| 0 <= i < j < r@.len() ==> r@[i] != r@[j],
            forall|a: AccountId| r@.contains(a) <==> exists|i: int|
                0 <= i < self.0@.len() && #[trigger] self.0@[i].account_id == a
                    && spent_by(self.0@[i], ShieldedProtocol::Orchard, nfs@),
    {
        self.detect_spending_accounts(ShieldedProtocol::Orchard, nfs)
    }
}

/// Which transaction spent each spent note.
pub struct ReceivedNoteSpends(pub AssocList<NoteId, TxId>);

impl ReceivedNoteSpends {
    /// No note is recorded twice.
    pub open spec fn wf(&self) -> bool {
        self.0.wf()
    }

    /// No note recorded as spent.
    pub fn new() -> (r: Self)
        ensures
            r.wf(),
            r.0.entries@ == Seq::<(NoteId, TxId)>::empty(),
    {
        ReceivedNoteSpends(AssocList::new())
    }

    /// Records that `note_id` was spent by `txid`, and returns the transaction
    /// recorded for it before, if any.
    pub fn insert_spend(&mut self, note_id: NoteId, txid: TxId) -> (r: Option<TxId>)
        requires
            old(self).wf(),
        ensures
            final(self).wf(),
            final(self).0.entries@ == old(self).0.inserted(note_id, txid),
            r == old(self).0.lookup(note_id@),
    {
        self.0.insert(note_id, txid)
    }

    /// The transaction that spent `note_id`, if one is recorded.
    pub fn get(&self, note_id: &NoteId) -> (r: Option<&TxId>)
        requires
            self.wf(),
        ensures
            match r {
                Some(t) => self.0.lookup(note_id@) == Some(*t),
                None => self.0.lookup(note_id@) is None,
            },
    {
        self.0.get(note_id)
    }
}


/// A note that can be spent: where it was created, what it holds, the key scope
/// that spends it and its position in the note commitment tree.
#[derive(Clone, Copy, Debug)]
pub struct SpendableNote {
    pub note_id: NoteId,
    pub txid: TxId,
    pub output_index: u16,
    pub note: Note,
    pub spending_key_scope: Scope,
    pub note_commitment_tree_position: u64,
}

/// The spendable notes of each pool.
#[derive(Debug)]
pub struct SpendableNotes {
    pub sapling: Vec<SpendableNote>,
    pub orchard: Vec<SpendableNote>,
}

/// Why a received note cannot be spent in a pool.
#[derive(Clone, Copy, Debug, PartialEq, Eq, Structural)]
pub enum SpendProblem {
    /// The note belongs to the other pool.
    WrongProtocol,
    /// The key scope that received the note is not known.
    MissingScope,
    /// The note's position in the note commitment tree is not known.
    MissingPosition,
}

/// Why the note cannot be spent in pool `p`, checked in this order; `None` where
/// it can be.
pub open spec fn spend_problem(n: ReceivedNote, p: ShieldedProtocol) -> Option<SpendProblem> {
    if note_protocol(n.note) != p {
        Some(SpendProblem::WrongProtocol)
    } else if n.recipient_key_scope is None {
        Some(SpendProblem::MissingScope)
    } else if n.commitment_tree_position is None {
        Some(SpendProblem::MissingPosition)
    } else {
        None
    }
}

/// The spendable note a received note stands for.
pub open spec fn spendable_of(n: ReceivedNote) -> SpendableNote {
    SpendableNote {
        note_id: n.note_id,
        txid: n.txid,
        output_index: n.output_index as u16,
        note: n.note,
        spending_key_scope: n.recipient_key_scope->0,
        note_commitment_tree_position: n.commitment_tree_position->0,
    }
}

/// A spendable note stands for the received note it comes from: the same note,
/// created at the same place, spent with the key scope that received it, at the
/// note's position in the note commitment tree.
pub proof fn lemma_spendable_note_from_received(n: ReceivedNote, p: ShieldedProtocol)
    requires
        spend_problem(n, p) is None,
        n.output_index <= u16::MAX,
    ensures
        spendable_of(n).note_id == n.note_id,
        spendable_of(n).txid == n.txid,
        spendable_of(n).output_index == n.output_index,
        spendable_of(n).note == n.note,
        n.recipient_key_scope == Some(spendable_of(n).spending_key_scope),
        n.commitment_tree_position == Some(spendable_of(n).note_commitment_tree_position),
        note_protocol(spendable_of(n).note) == p,
{
}

/// The position of the first note that cannot be spent in pool `p`, if any.
pub open spec fn first_unspendable(s: Seq<ReceivedNote>, p: ShieldedProtocol) -> Option<int> {
    if exists|i: int| 0 <= i < s.len() && (#[trigger] spend_problem(s[i], p)) is Some {
        Some(choose|i: int| 0 <= i < s.len() && (#[trigger] spend_problem(s[i], p)) is Some
            && forall|j: int| 0 <= j < i ==> (#[trigger] spend_problem(s[j], p)) is None)
    } else {
        None
    }
}

/// The error a spend problem is reported with.
pub open spec fn problem_error(e: Error, pr: SpendProblem) -> bool {
    match pr {
        SpendProblem::WrongProtocol => e is Other,
        _ => e is Missing,
    }
}

/// The spendable notes that the received notes of pool `p` stand for, in order;
/// fails at the first note that cannot be spent in the pool.
fn spendable_in(notes: &Vec<ReceivedNote>, p: ShieldedProtocol) -> (r: Result<Vec<SpendableNote>, Error>)
    requires
        forall|i: int| 0 <= i < notes@.len() ==> (#[trigger] notes@[i]).output_index <= u16::MAX,
    ensures
        match first_unspendable(notes@, p) {
            Some(i) => r is Err && problem_error(r->Err_0, spend_problem(notes@[i], p)->0),
            None => r is Ok && r->Ok_0@ == notes@.map_values(|n: ReceivedNote| spendable_of(n)),
        },
{
    let mut out: Vec<SpendableNote> = Vec::new();
    let mut i: usize = 0;
    while i < notes.len()
        invariant
            i <= notes@.len(),
            forall|k: int| 0 <= k < notes@.len() ==> (#[trigger] notes@[k]).output_index <= u16::MAX,
            forall|k: int| 0 <= k < i ==> (#[trigger] spend_problem(notes@[k], p)) is None,
            out@ == notes@.take(i as int).map_values(|n: ReceivedNote| spendable_of(n)),
        decreases notes@.len() - i,
    {
        let n = notes[i];
        let problem = if n.note.protocol() != p {
            Some(Error::Other("Note is not of the pool it is spent from".to_string()))
        } else if n.recipient_key_scope.is_none() {
            Some(Error::Missing("recipient key scope".to_string()))
        } else if n.commitment_tree_position.is_none() {
            Some(Error::Missing("commitment tree position".to_string()))
        } else {
            None
        };
        match problem {
            Some(e) => {
                proof {
                    let s = notes@;
                    assert(spend_problem(s[i as int], p) is Some);
                    let c = first_unspendable(s, p)->0;
                    if c != i as int {
                        if c < i as int {
                            assert(spend_problem(s[c], p) is None);
                        } else {
                            assert(spend_problem(s[i as int], p) is None);
                        }
                    }
                }
                return Err(e);
            },
            None => {},
        }
        let scope = match n.recipient_key_scope {
            Some(sc) => sc,
            None => Scope::External,
        };
        let position = match n.commitment_tree_position {
            Some(pos) => pos,
            None => 0,
        };
        out.push(SpendableNote {
            note_id: n.note_id,
            txid: n.txid,
            output_index: n.output_index as u16,
            note: n.note,
            spending_key_scope: scope,
            note_commitment_tree_position: position,
        });
        proof {
            assert(out@ =~= notes@.take(i + 1).map_values(|n: ReceivedNote| spendable_of(n)));
        }
        i = i + 1;
    }
    assert(notes@.take(i as int) =~= notes@);
    Ok(out)
}

/// The spendable notes that the given Sapling and Orchard notes stand for; fails
/// at the first note that cannot be spent in its pool, the Sapling notes checked
/// first: with `Other` for a note of the other pool, with `Missing` for a note
/// whose key scope or tree position is not known.
pub fn to_spendable_notes(sapling: &Vec<ReceivedNote>, orchard: &Vec<ReceivedNote>) -> (r: Result<SpendableNotes, Error>)
    requires
        forall|i: int| 0 <= i < sapling@.len() ==> (#[trigger] sapling@[i]).output_index <= u16::MAX,
        forall|i: int| 0 <= i < orchard@.len() ==> (#[trigger] orchard@[i]).output_index <= u16::MAX,
    ensures
        match first_unspendable(sapling@, ShieldedProtocol::Sapling) {
            Some(i) => r is Err && problem_error(r->Err_0, spend_problem(sapling@[i], ShieldedProtocol::Sapling)->0),
            None => match first_unspendable(orchard@, ShieldedProtocol::Orchard) {
                Some(i) => r is Err && problem_error(r->Err_0, spend_problem(orchard@[i], ShieldedProtocol::Orchard)->0),
                None => r is Ok
                    && r->Ok_0.sapling@ == sapling@.map_values(|n: ReceivedNote| spendable_of(n))
                    && r->Ok_0.orchard@ == orchard@.map_values(|n: ReceivedNote| spendable_of(n)),
            },
        },
        r matches Ok(sn) ==> sn.sapling@.len() == sapling@.len() && sn.orchard@.len() == orchard@.len(),
        r matches Ok(sn) ==> forall|i: int| 0 <= i < sapling@.len() ==> sapling@[i].recipient_key_scope
            == Some((#[trigger] sn.sapling@[i]).spending_key_scope),
        r matches Ok(sn) ==> forall|i: int| 0 <= i < orchard@.len() ==> orchard@[i].recipient_key_scope
            == Some((#[trigger] sn.orchard@[i]).spending_key_scope),
{
    let s = match spendable_in(sapling, ShieldedProtocol::Sapling) {
        Ok(v) => v,
        Err(e) => return Err(e),
    };
    let o = match spendable_in(orchard, ShieldedProtocol::Orchard) {
        Ok(v) => v,
        Err(e) => return Err(e),
    };
    proof {
        assert(first_unspendable(sapling@, ShieldedProtocol::Sapling) is None);
        assert(first_unspendable(orchard@, ShieldedProtocol::Orchard) is None);
        assert forall|i: int| 0 <= i < sapling@.len() implies sapling@[i].recipient_key_scope
            == Some((#[trigger] s@[i]).spending_key_scope) by {
            assert(spend_problem(sapling@[i], ShieldedProtocol::Sapling) is None);
        }
        assert forall|i: int| 0 <= i < orchard@.len() implies orchard@[i].recipient_key_scope
            == Some((#[trigger] o@[i]).spending_key_scope) by {
            assert(spend_problem(orchard@[i], ShieldedProtocol::Orchard) is None);
        }
    }
    Ok(SpendableNotes { sapling: s, orchard: o })
}

} // verus!

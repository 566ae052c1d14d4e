//! The notary's bookkeeping: per-shard-id, append-only, ordered collections
//! of received collations and proposals, and the decision logic that reacts
//! to control commands and protocol messages.
//!
//! The notary here is the pure state machine: a caller owns the channels,
//! drains them, and hands each command or message to the functions below.

use vstd::prelude::*;

use crate::body::Collation;
use crate::word::Word256;

verus! {

/// One shard's entry in a store: the shard id and the collations stored
/// under it, in insertion order.
struct Entry {
    key: Word256,
    collations: Vec<Collation>,
}

/// First-match lookup of `k` among the entries: the collations under the
/// first entry whose shard id bytes equal `k`, or the empty sequence when no
/// entry matches.
spec fn lookup_at(entries: Seq<Entry>, k: Seq<u8>) -> Seq<Collation>
    decreases entries.len(),
{
    if entries.len() == 0 {
        Seq::empty()
    } else if entries[0].key@ == k {
        entries[0].collations@
    } else {
        lookup_at(entries.drop_first(), k)
    }
}

proof fn lemma_lookup_found(entries: Seq<Entry>, k: Seq<u8>, i: int)
    requires
        0 <= i < entries.len(),
        entries[i].key@ == k,
        forall|j: int| 0 <= j < i ==> entries[j].key@ != k,
    ensures
        lookup_at(entries, k) == entries[i].collations@,
    decreases i,
{
    if i > 0 {
        assert(entries.drop_first()[i - 1] == entries[i]);
        assert forall|j: int| 0 <= j < i - 1 implies entries.drop_first()[j].key@ != k by {
            assert(entries.drop_first()[j] == entries[j + 1]);
        }
        lemma_lookup_found(entries.drop_first(), k, i - 1);
    }
}

proof fn lemma_lookup_absent(entries: Seq<Entry>, k: Seq<u8>)
    requires
        forall|j: int| 0 <= j < entries.len() ==> entries[j].key@ != k,
    ensures
        lookup_at(entries, k) == Seq::<Collation>::empty(),
    decreases entries.len(),
{
    if entries.len() > 0 {
        assert forall|j: int| 0 <= j < entries.len() - 1 implies entries.drop_first()[j].key@
            != k by {
            assert(entries.drop_first()[j] == entries[j + 1]);
        }
        lemma_lookup_absent(entries.drop_first(), k);
    }
}

proof fn lemma_lookup_update_other(entries: Seq<Entry>, i: int, ne: Entry, k: Seq<u8>)
    requires
        0 <= i < entries.len(),
        entries[i].key@ != k,
        ne.key@ == entries[i].key@,
    ensures
        lookup_at(entries.update(i, ne), k) == lookup_at(entries, k),
    decreases entries.len(),
{
    if entries[0].key@ == k {
        assert(entries.update(i, ne)[0] == entries[0]);
    } else if i == 0 {
        assert(entries.update(0, ne).drop_first() =~= entries.drop_first());
    } else {
        assert(entries.update(i, ne)[0] == entries[0]);
        assert(entries.update(i, ne).drop_first() =~= entries.drop_first().update(i - 1, ne));
        assert(entries.drop_first()[i - 1] == entries[i]);
        lemma_lookup_update_other(entries.drop_first(), i - 1, ne, k);
    }
}

proof fn lemma_lookup_append_new(entries: Seq<Entry>, ne: Entry)
    requires
        forall|j: int| 0 <= j < entries.len() ==> entries[j].key@ != ne.key@,
    ensures
        lookup_at(entries.push(ne), ne.key@) == ne.collations@,
    decreases entries.len(),
{
    if entries.len() == 0 {
        assert(entries.push(ne)[0] == ne);
    } else {
        assert(entries.push(ne)[0] == entries[0]);
        assert(entries.push(ne).drop_first() =~= entries.drop_first().push(ne));
        assert forall|j: int| 0 <= j < entries.len() - 1 implies entries.drop_first()[j].key@
            != ne.key@ by {
            assert(entries.drop_first()[j] == entries[j + 1]);
        }
        lemma_lookup_append_new(entries.drop_first(), ne);
    }
}

proof fn lemma_lookup_append_other(entries: Seq<Entry>, ne: Entry, k: Seq<u8>)
    requires
        k != ne.key@,
    ensures
        lookup_at(entries.push(ne), k) == lookup_at(entries, k),
    decreases entries.len(),
{
    if entries.len() == 0 {
        assert(entries.push(ne)[0] == ne);
        assert(entries.push(ne).drop_first() =~= Seq::<Entry>::empty());
        assert(lookup_at(Seq::<Entry>::empty(), k) == Seq::<Collation>::empty());
        assert(lookup_at(entries.push(ne), k) == Seq::<Collation>::empty());
        assert(lookup_at(entries, k) == Seq::<Collation>::empty());
    } else {
        assert(entries.push(ne)[0] == entries[0]);
        if entries[0].key@ != k {
            assert(entries.push(ne).drop_first() =~= entries.drop_first().push(ne));
            lemma_lookup_append_other(entries.drop_first(), ne, k);
        }
    }
}

/// An append-only, ordered collection of collations for each shard id.
pub struct ShardStore {
    entries: Vec<Entry>,
}

impl ShardStore {
    /// The collations stored under shard id `k`, in insertion order; empty
    /// when none were stored.
    pub closed spec fn spec_get(self, k: Seq<u8>) -> Seq<Collation> {
        lookup_at(self.entries@, k)
    }

    /// Whether anything was ever stored under shard id `k`.
    pub closed spec fn spec_contains(self, k: Seq<u8>) -> bool {
        exists|i: int| 0 <= i < self.entries@.len() && self.entries@[i].key@ == k
    }

    /// An empty store.
    pub fn new() -> (s: ShardStore)
        ensures
            forall|k: Seq<u8>| !s.spec_contains(k),
            forall|k: Seq<u8>| s.spec_get(k) == Seq::<Collation>::empty(),
    {
        ShardStore { entries: Vec::new() }
    }

    /// Append a collation to the sequence stored under `key`, starting a new
    /// sequence when `key` has no entry yet.  Entries under other shard ids
    /// are untouched.
    pub fn push(&mut self, key: &Word256, c: Collation)
        ensures
            final(self).spec_get(key@) == old(self).spec_get(key@).push(c),
            forall|k: Seq<u8>| k != key@ ==> final(self).spec_get(k) == old(self).spec_get(k),
            forall|k: Seq<u8>|
                final(self).spec_contains(k) == (old(self).spec_contains(k) || k == key@),
    {
        let ghost oentries = self.entries@;
        let n = self.entries.len();
        let mut i: usize = 0;
        while i < n
            invariant
                oentries == old(self).entries@,
                self.entries@ == oentries,
                n == oentries.len(),
                i <= n,
                forall|j: int| 0 <= j < i ==> oentries[j].key@ != key@,
            decreases n - i,
        {
            if self.entries[i].key.eq_word(key) {
                proof {
                    lemma_lookup_found(oentries, key@, i as int);
                }
                self.entries[i].collations.push(c);
                proof {
                    let ne = self.entries@[i as int];
                    assert(self.entries@ =~= oentries.update(i as int, ne));
                    assert(ne.key == oentries[i as int].key);
                    assert(ne.collations@ == oentries[i as int].collations@.push(c));
                    assert forall|j: int|
                        0 <= j < i implies self.entries@[j].key@ != key@ by {
                        assert(self.entries@[j] == oentries[j]);
                    }
                    lemma_lookup_found(self.entries@, key@, i as int);
                    assert forall|k: Seq<u8>| k != key@ implies self.spec_get(k) == lookup_at(
                        oentries,
                        k,
                    ) by {
                        lemma_lookup_update_other(oentries, i as int, ne, k);
                    }
                    assert forall|k2: Seq<u8>|
                        self.spec_contains(k2) == (old(self).spec_contains(k2) || k2
                            == key@) by {
                        assert(oentries[i as int].key@ == key@);
                        if old(self).spec_contains(k2) {
                            let j = choose|j: int|
                                0 <= j < oentries.len() && oentries[j].key@ == k2;
                            if j == i {
                                assert(self.entries@[j].key@ == k2);
                            } else {
                                assert(self.entries@[j] == oentries[j]);
                            }
                        }
                        if self.spec_contains(k2) {
                            let j = choose|j: int|
                                0 <= j < self.entries@.len() && self.entries@[j].key@ == k2;
                            if j == i {
                                assert(oentries[j].key@ == k2);
                            } else {
                                assert(self.entries@[j] == oentries[j]);
                            }
                        }
                    }
                }
                return ;
            }
            i = i + 1;
        }
        let mut v: Vec<Collation> = Vec::new();
        v.push(c);
        self.entries.push(Entry { key: *key, collations: v });
        proof {
            let ne = self.entries@.last();
            assert(self.entries@ == oentries.push(ne));
            lemma_lookup_absent(oentries, key@);
            lemma_lookup_append_new(oentries, ne);
            assert(ne.collations@ =~= Seq::<Collation>::empty().push(c));
            assert forall|k: Seq<u8>| k != key@ implies self.spec_get(k) == lookup_at(
                oentries,
                k,
            ) by {
                lemma_lookup_append_other(oentries, ne, k);
            }
            assert forall|k: Seq<u8>|
                self.spec_contains(k) == (old(self).spec_contains(k) || k == key@) by {
                if old(self).spec_contains(k) {
                    let j = choose|j: int|
                        0 <= j < oentries.len() && oentries[j].key@ == k;
                    assert(self.entries@[j].key@ == k);
                } else if k == key@ {
                    assert(self.entries@[oentries.len() as int].key@ == k);
                } else {
                    assert forall|j: int|
                        0 <= j < self.entries@.len() implies self.entries@[j].key@ != k by {
                        if j < oentries.len() {
                            assert(self.entries@[j] == oentries[j]);
                        }
                    }
                }
            }
        }
    }

    /// The collations stored under `key`, in insertion order, or `None` when
    /// `key` has no entry.
    pub fn get(&self, key: &Word256) -> (r: Option<&Vec<Collation>>)
        ensures
            match r {
                Some(v) => self.spec_contains(key@) && v@ == self.spec_get(key@),
                None => !self.spec_contains(key@),
            },
    {
        let n = self.entries.len();
        let mut i: usize = 0;
        while i < n
            invariant
                n == self.entries@.len(),
                i <= n,
                forall|j: int| 0 <= j < i ==> self.entries@[j].key@ != key@,
            decreases n - i,
        {
            if self.entries[i].key.eq_word(key) {
                proof {
                    lemma_lookup_found(self.entries@, key@, i as int);
                }
                return Some(&self.entries[i].collations);
            }
            i = i + 1;
        }
        None
    }
}

/// A control command for the notary's polling loop.
#[derive(PartialEq, Eq, Structural, Debug, Clone, Copy)]
pub enum Command {
    Terminate,
}

/// A protocol message the notary receives from the shard manager contract
/// listener.
#[derive(Debug, Clone)]
pub enum Message {
    Selected { value: bool },
    ShardId { value: Word256 },
    Collation { value: Collation },
    Proposal { value: Collation },
}

/// The notary's state: its identity, whether it is selected, the shard it
/// watches, and the collations and proposals received so far, kept per
/// shard id in insertion order.
pub struct Notary {
    id: Word256,
    selected: bool,
    shard_id: Word256,
    collation_vectors: ShardStore,
    proposal_vectors: ShardStore,
}

/// The collation and proposal stores of `post` hold exactly what those of
/// `pre` hold.
pub open spec fn stores_unchanged(pre: Notary, post: Notary) -> bool {
    &&& forall|k: Seq<u8>| post.spec_collations(k) == pre.spec_collations(k)
    &&& forall|k: Seq<u8>| post.spec_has_collations(k) == pre.spec_has_collations(k)
    &&& forall|k: Seq<u8>| post.spec_proposals(k) == pre.spec_proposals(k)
    &&& forall|k: Seq<u8>| post.spec_has_proposals(k) == pre.spec_has_proposals(k)
}

/// `post` is `pre` with `c` appended to the collations of `pre`'s shard id
/// and every other shard id's collations untouched.
pub open spec fn stored_collation(pre: Notary, post: Notary, c: Collation) -> bool {
    &&& post.spec_collations(pre.spec_shard_id()@) == pre.spec_collations(
        pre.spec_shard_id()@,
    ).push(c)
    &&& forall|k: Seq<u8>|
        k != pre.spec_shard_id()@ ==> post.spec_collations(k) == pre.spec_collations(k)
    &&& forall|k: Seq<u8>|
        post.spec_has_collations(k) == (pre.spec_has_collations(k) || k == pre.spec_shard_id()@)
    &&& forall|k: Seq<u8>| post.spec_proposals(k) == pre.spec_proposals(k)
    &&& forall|k: Seq<u8>| post.spec_has_proposals(k) == pre.spec_has_proposals(k)
}

/// `post` is `pre` with `c` appended to the proposals of `pre`'s shard id
/// and every other shard id's proposals untouched.
pub open spec fn stored_proposal(pre: Notary, post: Notary, c: Collation) -> bool {
    &&& post.spec_proposals(pre.spec_shard_id()@) == pre.spec_proposals(
        pre.spec_shard_id()@,
    ).push(c)
    &&& forall|k: Seq<u8>|
        k != pre.spec_shard_id()@ ==> post.spec_proposals(k) == pre.spec_proposals(k)
    &&& forall|k: Seq<u8>|
        post.spec_has_proposals(k) == (pre.spec_has_proposals(k) || k == pre.spec_shard_id()@)
    &&& forall|k: Seq<u8>| post.spec_collations(k) == pre.spec_collations(k)
    &&& forall|k: Seq<u8>| post.spec_has_collations(k) == pre.spec_has_collations(k)
}

/// The notary's identity, selection flag and shard id are the same in `pre`
/// and `post`.
pub open spec fn control_unchanged(pre: Notary, post: Notary) -> bool {
    &&& post.spec_id() == pre.spec_id()
    &&& post.spec_selected() == pre.spec_selected()
    &&& post.spec_shard_id() == pre.spec_shard_id()
}

/// What one protocol message does to the notary's state: a selection change
/// or shard assignment updates that one control field, a collation or
/// proposal is stored under the current shard id; everything else is
/// untouched.
pub open spec fn message_effect(pre: Notary, post: Notary, msg: Message) -> bool {
    match msg {
        Message::Selected { value } => {
            &&& post.spec_selected() == value
            &&& post.spec_id() == pre.spec_id()
            &&& post.spec_shard_id() == pre.spec_shard_id()
            &&& stores_unchanged(pre, post)
        },
        Message::ShardId { value } => {
            &&& post.spec_shard_id() == value
            &&& post.spec_id() == pre.spec_id()
            &&& post.spec_selected() == pre.spec_selected()
            &&& stores_unchanged(pre, post)
        },
        Message::Collation { value } => {
            &&& stored_collation(pre, post, value)
            &&& control_unchanged(pre, post)
        },
        Message::Proposal { value } => {
            &&& stored_proposal(pre, post, value)
            &&& control_unchanged(pre, post)
        },
    }
}

impl Notary {
    pub closed spec fn spec_id(self) -> Word256 {
        self.id
    }

    pub closed spec fn spec_selected(self) -> bool {
        self.selected
    }

    pub closed spec fn spec_shard_id(self) -> Word256 {
        self.shard_id
    }

    pub closed spec fn spec_collations(self, k: Seq<u8>) -> Seq<Collation> {
        self.collation_vectors.spec_get(k)
    }

    pub closed spec fn spec_has_collations(self, k: Seq<u8>) -> bool {
        self.collation_vectors.spec_contains(k)
    }

    pub closed spec fn spec_proposals(self, k: Seq<u8>) -> Seq<Collation> {
        self.proposal_vectors.spec_get(k)
    }

    pub closed spec fn spec_has_proposals(self, k: Seq<u8>) -> bool {
        self.proposal_vectors.spec_contains(k)
    }

    /// A fresh notary: id and shard id zero, not selected, nothing stored.
    /// The channels it is fed from stay with the caller.
    pub fn new() -> (n: Notary)
        ensures
            n.spec_id()@ == Seq::new(32, |i: int| 0u8),
            !n.spec_selected(),
            n.spec_shard_id()@ == Seq::new(32, |i: int| 0u8),
            forall|k: Seq<u8>| !n.spec_has_collations(k) && !n.spec_has_proposals(k),
            forall|k: Seq<u8>|
                n.spec_collations(k) == Seq::<Collation>::empty() && n.spec_proposals(k)
                    == Seq::<Collation>::empty(),
    {
        Notary {
            id: Word256::zero(),
            selected: false,
            shard_id: Word256::zero(),
            collation_vectors: ShardStore::new(),
            proposal_vectors: ShardStore::new(),
        }
    }

    /// Append a received collation to the collations of the current shard
    /// id, preserving insertion order.
    pub fn store_collation(&mut self, collation: Collation)
        ensures
            stored_collation(*old(self), *final(self), collation),
            control_unchanged(*old(self), *final(self)),
    {
        let key = self.shard_id;
        self.collation_vectors.push(&key, collation);
    }

    /// Append a received proposal to the proposals of the current shard id,
    /// preserving insertion order.
    pub fn store_proposal(&mut self, proposal: Collation)
        ensures
            stored_proposal(*old(self), *final(self), proposal),
            control_unchanged(*old(self), *final(self)),
    {
        let key = self.shard_id;
        self.proposal_vectors.push(&key, proposal);
    }

    /// React to one protocol message: a selection change or shard
    /// assignment updates the control state, a collation or proposal is
    /// stored under the current shard id.
    pub fn process_message(&mut self, msg: Message)
        ensures
            message_effect(*old(self), *final(self), msg),
    {
        match msg {
            Message::Selected { value } => {
                self.selected = value;
            },
            Message::ShardId { value } => {
                self.shard_id = value;
            },
            Message::Collation { value } => {
                self.store_collation(value);
            },
            Message::Proposal { value } => {
                self.store_proposal(value);
            },
        }
    }

    /// React to one control command: a terminate command ends the polling
    /// loop.
    pub fn process_command(&self, cmd: &Command) -> (terminate: bool)
        ensures
            terminate == (cmd matches Command::Terminate),
    {
        match cmd {
            Command::Terminate => true,
        }
    }

    /// Whether this notary is currently selected.
    pub fn selected(&self) -> (r: bool)
        ensures
            r == self.spec_selected(),
    {
        self.selected
    }

    /// The shard id this notary currently watches.
    pub fn shard_id(&self) -> (r: &Word256)
        ensures
            r == self.spec_shard_id(),
    {
        &self.shard_id
    }

    /// The collations stored under `shard_id`, in insertion order, or
    /// `None` when none were stored.
    pub fn collations(&self, shard_id: &Word256) -> (r: Option<&Vec<Collation>>)
        ensures
            match r {
                Some(v) => self.spec_has_collations(shard_id@) && v@ == self.spec_collations(
                    shard_id@,
                ),
                None => !self.spec_has_collations(shard_id@),
            },
    {
        self.collation_vectors.get(shard_id)
    }

    /// The proposals stored under `shard_id`, in insertion order, or `None`
    /// when none were stored.
    pub fn proposals(&self, shard_id: &Word256) -> (r: Option<&Vec<Collation>>)
        ensures
            match r {
                Some(v) => self.spec_has_proposals(shard_id@) && v@ == self.spec_proposals(
                    shard_id@,
                ),
                None => !self.spec_has_proposals(shard_id@),
            },
    {
        self.proposal_vectors.get(shard_id)
    }
}

/// Dispatch ordering: two collations stored in turn for the same shard id
/// appear in the retrieved sequence in their insertion order.
pub proof fn lemma_dispatch_ordering(
    pre: Notary,
    mid: Notary,
    post: Notary,
    c1: Collation,
    c2: Collation,
)
    requires
        stored_collation(pre, mid, c1),
        stored_collation(mid, post, c2),
        mid.spec_shard_id() == pre.spec_shard_id(),
    ensures
        post.spec_collations(pre.spec_shard_id()@) == pre.spec_collations(
            pre.spec_shard_id()@,
        ).push(c1).push(c2),
{
}

} // verus!

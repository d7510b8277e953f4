//! Key-value layers and the three-tier write-log.
use vstd::prelude::*;
use crate::address::{Address, Amount, Digest, Key};

verus! {

/// The map that a list of entries denotes: a later entry overrides an
/// earlier one with the same key.
pub open spec fn entries_map(s: Seq<(Key, Amount)>) -> Map<Key, Amount>
    decreases s.len(),
{
    if s.len() == 0 {
        Map::empty()
    } else {
        entries_map(s.drop_last()).insert(s.last().0, s.last().1)
    }
}

pub open spec fn distinct_keys(s: Seq<(Key, Amount)>) -> bool {
    forall|i: int, j: int| 0 <= i < j < s.len() ==> s[i].0 != s[j].0
}

/// The entries after storing `v` under `k`: the entry of `k` is updated in
/// place, or a new one is appended.
pub open spec fn put_entries(s: Seq<(Key, Amount)>, k: Key, v: Amount) -> Seq<(Key, Amount)> {
    if exists|i: int| 0 <= i < s.len() && s[i].0 == k {
        let i = choose|i: int| 0 <= i < s.len() && s[i].0 == k;
        s.update(i, (k, v))
    } else {
        s.push((k, v))
    }
}

/// The entries after storing each of `es` in turn.
pub open spec fn put_all(s: Seq<(Key, Amount)>, es: Seq<(Key, Amount)>) -> Seq<(Key, Amount)>
    decreases es.len(),
{
    if es.len() == 0 {
        s
    } else {
        put_entries(put_all(s, es.drop_last()), es.last().0, es.last().1)
    }
}

/// The keys of a list of entries, in order.
pub open spec fn entry_keys(s: Seq<(Key, Amount)>) -> Seq<Key> {
    s.map_values(|e: (Key, Amount)| e.0)
}

pub open spec fn seq_keys_set(s: Seq<Key>) -> Set<Key> {
    Set::new(|k: Key| s.contains(k))
}

proof fn lemma_entries_lookup(s: Seq<(Key, Amount)>, i: int)
    requires
        distinct_keys(s),
        0 <= i < s.len(),
    ensures
        entries_map(s).contains_key(s[i].0),
        entries_map(s)[s[i].0] == s[i].1,
    decreases s.len(),
{
    if i < s.len() - 1 {
        lemma_entries_lookup(s.drop_last(), i);
    }
}

proof fn lemma_entries_absent(s: Seq<(Key, Amount)>, k: Key)
    requires
        forall|i: int| 0 <= i < s.len() ==> s[i].0 != k,
    ensures
        !entries_map(s).contains_key(k),
    decreases s.len(),
{
    if s.len() > 0 {
        lemma_entries_absent(s.drop_last(), k);
    }
}

/// A non-empty list of entries denotes a non-empty map.
pub proof fn lemma_entries_has_last(s: Seq<(Key, Amount)>)
    requires
        s.len() > 0,
    ensures
        entries_map(s).contains_key(s.last().0),
{
}

proof fn lemma_entries_update(s: Seq<(Key, Amount)>, i: int, v: Amount)
    requires
        distinct_keys(s),
        0 <= i < s.len(),
    ensures
        entries_map(s.update(i, (s[i].0, v))) == entries_map(s).insert(s[i].0, v),
    decreases s.len(),
{
    let k = s[i].0;
    let u = s.update(i, (k, v));
    if i == s.len() - 1 {
        assert(u.drop_last() =~= s.drop_last());
        assert(entries_map(u) =~= entries_map(s).insert(k, v));
    } else {
        assert(u.drop_last() =~= s.drop_last().update(i, (k, v)));
        lemma_entries_update(s.drop_last(), i, v);
        assert(entries_map(u) =~= entries_map(s).insert(k, v));
    }
}

proof fn lemma_entries_push(s: Seq<(Key, Amount)>, e: (Key, Amount))
    ensures
        entries_map(s.push(e)) == entries_map(s).insert(e.0, e.1),
{
    assert(s.push(e).drop_last() =~= s);
}

proof fn lemma_entries_dom(s: Seq<(Key, Amount)>)
    requires
        distinct_keys(s),
    ensures
        forall|k: Key| entries_map(s).contains_key(k) <==> exists|i: int| 0 <= i < s.len() && s[i].0 == k,
{
    assert forall|k: Key| entries_map(s).contains_key(k) <==> exists|i: int| 0 <= i < s.len() && s[i].0 == k by {
        if exists|i: int| 0 <= i < s.len() && s[i].0 == k {
            let i = choose|i: int| 0 <= i < s.len() && s[i].0 == k;
            lemma_entries_lookup(s, i);
        } else {
            lemma_entries_absent(s, k);
        }
    }
}

proof fn lemma_push_keys_set(s: Seq<Key>, k: Key)
    ensures
        seq_keys_set(s.push(k)) == seq_keys_set(s).insert(k),
{
    assert forall|x: Key| s.push(k).contains(x) <==> (s.contains(x) || x == k) by {
        if s.contains(x) {
            let j = choose|j: int| 0 <= j < s.len() && s[j] == x;
            assert(s.push(k)[j] == x);
        }
        if x == k {
            assert(s.push(k)[s.len() as int] == k);
        }
        if s.push(k).contains(x) {
            let j = choose|j: int| 0 <= j < s.push(k).len() && s.push(k)[j] == x;
            if j < s.len() {
                assert(s[j] == x);
            }
        }
    }
    assert(seq_keys_set(s.push(k)) =~= seq_keys_set(s).insert(k));
}

/// One layer of key-value state: a list of entries with distinct keys.
#[derive(Debug)]
pub struct Layer {
    pub entries: Vec<(Key, Amount)>,
}

impl View for Layer {
    type V = Map<Key, Amount>;

    open spec fn view(&self) -> Map<Key, Amount> {
        entries_map(self.entries@)
    }
}

impl Layer {
    pub open spec fn wf(&self) -> bool {
        distinct_keys(self.entries@)
    }

    pub fn new() -> (r: Layer)
        ensures
            r.wf(),
            r@ == Map::<Key, Amount>::empty(),
    {
        Layer { entries: Vec::new() }
    }

    fn find(&self, k: &Key) -> (r: Option<usize>)
        requires
            self.wf(),
        ensures
            r.is_none() ==> forall|i: int| 0 <= i < self.entries@.len() ==> self.entries@[i].0 != *k,
            r.is_some() ==> r.unwrap() < self.entries@.len() && self.entries@[r.unwrap() as int].0 == *k,
    {
        let mut i: usize = 0;
        while i < self.entries.len()
            invariant
                i <= self.entries@.len(),
                forall|j: int| 0 <= j < i ==> self.entries@[j].0 != *k,
            decreases self.entries@.len() - i,
        {
            if self.entries[i].0 == *k {
                return Some(i);
            }
            i = i + 1;
        }
        None
    }

    /// The value stored under `k`, if any.
    pub fn get(&self, k: &Key) -> (r: Option<Amount>)
        requires
            self.wf(),
        ensures
            r == (if self@.contains_key(*k) { Some(self@[*k]) } else { None::<Amount> }),
    {
        match self.find(k) {
            Some(i) => {
                proof {
                    lemma_entries_lookup(self.entries@, i as int);
                }
                Some(self.entries[i].1)
            },
            None => {
                proof {
                    lemma_entries_absent(self.entries@, *k);
                }
                None
            },
        }
    }

    /// Store `v` under `k`.
    pub fn put(&mut self, k: Key, v: Amount)
        requires
            old(self).wf(),
        ensures
            final(self).wf(),
            final(self)@ == old(self)@.insert(k, v),
            final(self).entries@ == put_entries(old(self).entries@, k, v),
    {
        match self.find(&k) {
            Some(i) => {
                proof {
                    lemma_entries_update(self.entries@, i as int, v);
                    let j = choose|j: int| 0 <= j < self.entries@.len() && self.entries@[j].0 == k;
                    assert(j == i as int);
                }
                self.entries.set(i, (k, v));
            },
            None => {
                proof {
                    lemma_entries_push(self.entries@, (k, v));
                }
                self.entries.push((k, v));
            },
        }
    }

    /// Store each of `entries` in turn, later ones taking precedence.
    pub fn put_entries(&mut self, entries: &Vec<(Key, Amount)>)
        requires
            old(self).wf(),
        ensures
            final(self).wf(),
            final(self)@ == old(self)@.union_prefer_right(entries_map(entries@)),
            final(self).entries@ == put_all(old(self).entries@, entries@),
    {
        let ghost start = self@;
        let ghost start_entries = self.entries@;
        let mut i: usize = 0;
        while i < entries.len()
            invariant
                self.wf(),
                i <= entries@.len(),
                self@ == start.union_prefer_right(entries_map(entries@.take(i as int))),
                self.entries@ == put_all(start_entries, entries@.take(i as int)),
            decreases entries@.len() - i,
        {
            let (k, v) = entries[i];
            proof {
                let t = entries@.take(i as int + 1);
                assert(t.drop_last() =~= entries@.take(i as int));
                assert(start.union_prefer_right(entries_map(t)) =~= start.union_prefer_right(
                    entries_map(entries@.take(i as int)),
                ).insert(k, v));
            }
            self.put(k, v);
            i = i + 1;
        }
        assert(entries@.take(entries@.len() as int) =~= entries@);
    }

    /// Fold every entry of `other` into this layer, `other` taking precedence.
    pub fn absorb(&mut self, other: &Layer)
        requires
            old(self).wf(),
        ensures
            final(self).wf(),
            final(self)@ == old(self)@.union_prefer_right(other@),
    {
        self.put_entries(&other.entries);
    }

    /// Remove every entry.
    pub fn clear(&mut self)
        ensures
            final(self).wf(),
            final(self)@ == Map::<Key, Amount>::empty(),
    {
        self.entries = Vec::new();
    }

    /// The keys of this layer, each once.
    pub fn keys(&self) -> (r: Vec<Key>)
        requires
            self.wf(),
        ensures
            seq_keys_set(r@) == self@.dom(),
            r@ == entry_keys(self.entries@),
    {
        let mut r: Vec<Key> = Vec::new();
        let mut i: usize = 0;
        while i < self.entries.len()
            invariant
                i <= self.entries@.len(),
                self.wf(),
                r@.len() == i,
                forall|j: int| 0 <= j < i ==> r@[j] == self.entries@[j].0,
            decreases self.entries@.len() - i,
        {
            r.push(self.entries[i].0);
            i = i + 1;
        }
        proof {
            lemma_entries_dom(self.entries@);
            assert forall|k: Key| r@.contains(k) <==> self@.contains_key(k) by {
                if r@.contains(k) {
                    let j = choose|j: int| 0 <= j < r@.len() && r@[j] == k;
                    assert(self.entries@[j].0 == k);
                }
                if self@.contains_key(k) {
                    let j = choose|j: int| 0 <= j < self.entries@.len() && self.entries@[j].0 == k;
                    assert(r@[j] == k);
                }
            }
            assert(seq_keys_set(r@) =~= self@.dom());
            assert(r@ =~= entry_keys(self.entries@));
        }
        r
    }
}

/// Whether `k` occurs in `v`.
pub fn keys_contain(v: &Vec<Key>, k: &Key) -> (r: bool)
    ensures
        r == v@.contains(*k),
{
    let mut i: usize = 0;
    while i < v.len()
        invariant
            i <= v@.len(),
            forall|j: int| 0 <= j < i ==> v@[j] != *k,
        decreases v@.len() - i,
    {
        if v[i] == *k {
            return true;
        }
        i = i + 1;
    }
    false
}

/// Whether `a` occurs in `v`.
pub fn addresses_contain(v: &Vec<Address>, a: &Address) -> (r: bool)
    ensures
        r == v@.contains(*a),
{
    let mut i: usize = 0;
    while i < v.len()
        invariant
            i <= v@.len(),
            forall|j: int| 0 <= j < i ==> v@[j] != *a,
        decreases v@.len() - i,
    {
        if v[i] == *a {
            return true;
        }
        i = i + 1;
    }
    false
}

/// The three-tier journal above committed storage: the running inner
/// transaction's writes, the writes accepted by a sub-execution but not yet
/// folded into the block, and the block's writes so far; beside them, the
/// replay-protection index.
#[derive(Debug)]
pub struct WriteLog {
    pub tx: Layer,
    pub precommit: Layer,
    pub block: Layer,
    pub replay: Vec<Digest>,
}

impl WriteLog {
    pub open spec fn wf(&self) -> bool {
        self.tx.wf() && self.precommit.wf() && self.block.wf()
    }

    pub fn new() -> (r: WriteLog)
        ensures
            r.wf(),
            r.tx@.is_empty(),
            r.precommit@.is_empty(),
            r.block@.is_empty(),
            r.replay@.len() == 0,
    {
        let r = WriteLog { tx: Layer::new(), precommit: Layer::new(), block: Layer::new(), replay: Vec::new() };
        assert(r.tx@ =~= Map::empty());
        r
    }

    /// The writes of the log, later tiers overriding earlier ones.
    pub open spec fn pending(&self) -> Map<Key, Amount> {
        self.block@.union_prefer_right(self.precommit@).union_prefer_right(self.tx@)
    }

    /// Write `v` under `k` in the tx buffer.
    pub fn write(&mut self, k: Key, v: Amount)
        requires
            old(self).wf(),
        ensures
            final(self).wf(),
            final(self).tx@ == old(self).tx@.insert(k, v),
            final(self).precommit == old(self).precommit,
            final(self).block == old(self).block,
            final(self).replay == old(self).replay,
    {
        self.tx.put(k, v);
    }

    /// Promote the tx buffer into the precommit buffer.
    pub fn precommit_tx(&mut self)
        requires
            old(self).wf(),
        ensures
            final(self).wf(),
            final(self).tx@.is_empty(),
            final(self).precommit@ == old(self).precommit@.union_prefer_right(old(self).tx@),
            final(self).block == old(self).block,
            final(self).replay == old(self).replay,
    {
        self.precommit.absorb(&self.tx);
        self.tx.clear();
    }

    /// Fold the tx and precommit buffers into the block buffer.
    pub fn commit_tx(&mut self)
        requires
            old(self).wf(),
        ensures
            final(self).wf(),
            final(self).tx@.is_empty(),
            final(self).precommit@.is_empty(),
            final(self).block@ == old(self).pending(),
            final(self).replay == old(self).replay,
    {
        self.precommit_tx();
        self.block.absorb(&self.precommit);
        self.precommit.clear();
        assert(self.block@ =~= old(self).pending());
    }

    /// Discard the tx and precommit buffers.
    pub fn drop_tx(&mut self)
        requires
            old(self).wf(),
        ensures
            final(self).wf(),
            final(self).tx@.is_empty(),
            final(self).precommit@.is_empty(),
            final(self).block == old(self).block,
            final(self).replay == old(self).replay,
    {
        self.tx.clear();
        self.precommit.clear();
    }

    /// Discard the tx buffer only.
    pub fn drop_tx_keep_precommit(&mut self)
        requires
            old(self).wf(),
        ensures
            final(self).wf(),
            final(self).tx@.is_empty(),
            final(self).precommit == old(self).precommit,
            final(self).block == old(self).block,
            final(self).replay == old(self).replay,
    {
        self.tx.clear();
    }

    /// The keys written by the running inner transaction.
    pub fn get_keys(&self) -> (r: Vec<Key>)
        requires
            self.wf(),
        ensures
            seq_keys_set(r@) == self.tx@.dom(),
            r@ == entry_keys(self.tx.entries@),
    {
        self.tx.keys()
    }

    /// The keys written in the tx and precommit buffers.
    pub fn get_keys_with_precommit(&self) -> (r: Vec<Key>)
        requires
            self.wf(),
        ensures
            seq_keys_set(r@) == self.tx@.dom().union(self.precommit@.dom()),
            r@.no_duplicates(),
    {
        let mut r = self.precommit.keys();
        let extra = self.tx.keys();
        let ghost base = r@;
        let mut i: usize = 0;
        while i < extra.len()
            invariant
                i <= extra@.len(),
                r@.no_duplicates(),
                seq_keys_set(r@) == seq_keys_set(base).union(seq_keys_set(extra@.take(i as int))),
            decreases extra@.len() - i,
        {
            let k = extra[i];
            let ghost before = r@;
            proof {
                assert(extra@.take(i as int + 1) =~= extra@.take(i as int).push(k));
                lemma_push_keys_set(extra@.take(i as int), k);
            }
            if !keys_contain(&r, &k) {
                r.push(k);
                proof {
                    lemma_push_keys_set(before, k);
                }
            }
            proof {
                assert(seq_keys_set(r@) =~= seq_keys_set(base).union(seq_keys_set(extra@.take(i as int + 1))));
            }
            i = i + 1;
        }
        proof {
            assert(extra@.take(extra@.len() as int) =~= extra@);
            assert(seq_keys_set(r@) =~= self.tx@.dom().union(self.precommit@.dom()));
        }
        r
    }

    /// Whether `h` is in the replay-protection index.
    pub fn has_replay_protection_entry(&self, h: Digest) -> (r: bool)
        ensures
            r == self.replay@.contains(h),
    {
        let mut i: usize = 0;
        while i < self.replay.len()
            invariant
                i <= self.replay@.len(),
                forall|j: int| 0 <= j < i ==> self.replay@[j] != h,
            decreases self.replay@.len() - i,
        {
            if self.replay[i] == h {
                return true;
            }
            i = i + 1;
        }
        false
    }

    /// Record `h` in the replay-protection index.
    pub fn write_tx_hash(&mut self, h: Digest)
        ensures
            final(self).replay@.contains(h),
            forall|d: Digest| old(self).replay@.contains(d) ==> final(self).replay@.contains(d),
            forall|d: Digest| final(self).replay@.contains(d) ==> d == h || old(self).replay@.contains(d),
            final(self).replay@.to_set() == old(self).replay@.to_set().insert(h),
            final(self).tx == old(self).tx,
            final(self).precommit == old(self).precommit,
            final(self).block == old(self).block,
    {
        if self.has_replay_protection_entry(h) {
            assert(self.replay@.to_set() =~= old(self).replay@.to_set().insert(h));
        } else {
            let ghost before = self.replay@;
            self.replay.push(h);
            proof {
                assert(self.replay@.last() == h);
                assert forall|d: Digest| before.contains(d) implies self.replay@.contains(d) by {
                    let j = choose|j: int| 0 <= j < before.len() && before[j] == d;
                    assert(self.replay@[j] == d);
                }
                assert forall|d: Digest| self.replay@.contains(d) implies d == h || before.contains(d) by {
                    let j = choose|j: int| 0 <= j < self.replay@.len() && self.replay@[j] == d;
                    if j < before.len() {
                        assert(before[j] == d);
                    }
                }
                assert(self.replay@.to_set() =~= before.to_set().insert(h));
            }
        }
    }
}

} // verus!

//! A pool of shared resources: every resource has a slot and a count of the
//! handles that hold it, and some are known by a key. The key table does not
//! keep a resource alive; a resource lives as long as a handle holds it.

use vstd::prelude::*;

verus! {

/// Identifies a resource of a pool. Ids are never reused.
pub type AssetId = usize;

/// A resource and the number of handles that hold it.
pub struct Slot<A> {
    pub asset: A,
    pub holders: usize,
}

/// An entry of the key table.
pub struct CacheEntry {
    key: String,
    id: AssetId,
}

/// The pool.
pub struct Pool<A> {
    slots: Vec<Option<Slot<A>>>,
    cache: Vec<CacheEntry>,
}

/// A slot as mathematics.
#[verifier::ext_equal]
pub struct SlotView<V> {
    pub asset: V,
    pub holders: nat,
}

/// A pool as mathematics.
#[verifier::ext_equal]
pub struct PoolView<V> {
    /// One slot per id ever handed out; a slot is empty once the last handle
    /// of its resource is gone.
    pub slots: Seq<Option<SlotView<V>>>,
    /// The key table: key and id, no key twice.
    pub cache: Seq<(Seq<char>, nat)>,
}

/// Entry `i` of the table is the one for `key`.
pub open spec fn key_at(cache: Seq<(Seq<char>, nat)>, key: Seq<char>, i: int) -> bool {
    0 <= i < cache.len() && cache[i].0 == key
}

/// Where the table holds `key`, if it does.
pub open spec fn position(cache: Seq<(Seq<char>, nat)>, key: Seq<char>) -> Option<int> {
    if exists|i: int| key_at(cache, key, i) {
        Some(choose|i: int| key_at(cache, key, i))
    } else {
        None
    }
}

/// The id that the table gives for `key`.
pub open spec fn lookup(cache: Seq<(Seq<char>, nat)>, key: Seq<char>) -> Option<nat> {
    match position(cache, key) {
        Some(i) => Some(cache[i].1),
        None => None,
    }
}

/// No key occurs twice.
pub open spec fn unique_keys(cache: Seq<(Seq<char>, nat)>) -> bool {
    forall|i: int, j: int| 0 <= i < j < cache.len() ==> (#[trigger] cache[i]).0 != (#[trigger] cache[j]).0
}

/// In a table without repeated keys, the entry found for a key is the entry
/// that holds it.
pub proof fn lemma_position_is(cache: Seq<(Seq<char>, nat)>, key: Seq<char>, i: int)
    requires
        unique_keys(cache),
        key_at(cache, key, i),
    ensures
        position(cache, key) == Some(i),
        lookup(cache, key) == Some(cache[i].1),
{
    let j = choose|j: int| key_at(cache, key, j);
    if j < i {
        assert(cache[j].0 != cache[i].0);
    }
    if i < j {
        assert(cache[i].0 != cache[j].0);
    }
}

/// An id of the machine as a number.
pub open spec fn id_of(id: Option<AssetId>) -> Option<nat> {
    match id {
        Some(i) => Some(i as nat),
        None => None,
    }
}

/// The test that keeps the entries whose resource is alive in `slots`.
pub open spec fn holds_live<V>(slots: Seq<Option<SlotView<V>>>) -> spec_fn((Seq<char>, nat)) -> bool {
    |e: (Seq<char>, nat)| e.1 < slots.len() && slots[e.1 as int] is Some
}

impl<V> PoolView<V> {
    /// The resource `id` is held by some handle.
    pub open spec fn alive(self, id: nat) -> bool {
        id < self.slots.len() && self.slots[id as int] is Some
    }

    /// The live resource `id`.
    pub open spec fn asset(self, id: nat) -> V {
        (self.slots[id as int]->0).asset
    }

    /// The number of handles that hold `id`; none hold a resource that is
    /// gone.
    pub open spec fn holders(self, id: nat) -> nat {
        if self.alive(id) {
            (self.slots[id as int]->0).holders
        } else {
            0
        }
    }

    /// The live resource known by `key`. An entry whose resource is gone
    /// counts for nothing.
    pub open spec fn hit(self, key: Seq<char>) -> Option<nat> {
        match lookup(self.cache, key) {
            Some(id) => if self.alive(id) { Some(id) } else { None },
            None => None,
        }
    }

    /// No key twice, every entry names a slot, and a live resource has a
    /// holder.
    pub open spec fn wf(self) -> bool {
        &&& unique_keys(self.cache)
        &&& forall|i: int| 0 <= i < self.cache.len() ==> (#[trigger] self.cache[i]).1 < self.slots.len()
        &&& forall|id: int| 0 <= id < self.slots.len() && self.slots[id] is Some ==> (#[trigger] self.slots[id]->0).holders >= 1
    }

    /// An empty pool.
    pub open spec fn empty() -> Self {
        PoolView { slots: Seq::empty(), cache: Seq::empty() }
    }

    /// The pool with `asset` in place of the live resource `id`.
    pub open spec fn with_asset(self, id: nat, asset: V) -> Self {
        PoolView {
            slots: self.slots.update(id as int, Some(SlotView { asset, holders: (self.slots[id as int]->0).holders })),
            ..self
        }
    }

    /// The pool with one more handle on the live resource `id`. The count
    /// stops at the greatest number it can hold.
    pub open spec fn retained(self, id: nat) -> Self {
        let slot = self.slots[id as int]->0;
        let holders = if slot.holders < usize::MAX { slot.holders + 1 } else { slot.holders };
        PoolView { slots: self.slots.update(id as int, Some(SlotView { holders, ..slot })), ..self }
    }

    /// The pool with one handle less on `id`: the resource is gone with its
    /// last handle, while its entry in the key table stays behind. Nothing
    /// changes for a resource that is gone already, nor for one whose count
    /// has stopped at the greatest number: it stays for good.
    pub open spec fn released(self, id: nat) -> Self {
        if !self.alive(id) || self.holders(id) >= usize::MAX {
            self
        } else {
            let slot = self.slots[id as int]->0;
            if slot.holders > 1 {
                PoolView {
                    slots: self.slots.update(id as int, Some(SlotView { holders: (slot.holders - 1) as nat, ..slot })),
                    ..self
                }
            } else {
                PoolView { slots: self.slots.update(id as int, None), ..self }
            }
        }
    }

    /// The pool with a new resource, held by one handle, in a new slot.
    pub open spec fn added(self, asset: V) -> Self {
        PoolView { slots: self.slots.push(Some(SlotView { asset, holders: 1 })), ..self }
    }

    /// The pool with `key` naming `id`, in place of whatever it named.
    pub open spec fn bound(self, key: Seq<char>, id: nat) -> Self {
        match position(self.cache, key) {
            Some(i) => PoolView { cache: self.cache.update(i, (key, id)), ..self },
            None => PoolView { cache: self.cache.push((key, id)), ..self },
        }
    }

    /// The pool without the entry for `key`.
    pub open spec fn forgot(self, key: Seq<char>) -> Self {
        match position(self.cache, key) {
            Some(i) => PoolView { cache: self.cache.remove(i), ..self },
            None => self,
        }
    }

    /// Every live resource meets `valid`.
    pub open spec fn every(self, valid: spec_fn(V) -> bool) -> bool {
        forall|id: nat| self.alive(id) ==> valid(#[trigger] self.asset(id))
    }

    /// The pool without the entries whose resource is gone.
    pub open spec fn swept(self) -> Self {
        PoolView { cache: self.cache.filter(holds_live(self.slots)), ..self }
    }
}

impl<A: View> View for Pool<A> {
    type V = PoolView<A::V>;

    closed spec fn view(&self) -> PoolView<A::V> {
        PoolView {
            slots: Seq::new(
                self.slots@.len(),
                |i: int|
                    match self.slots@[i] {
                        Some(s) => Some(SlotView { asset: s.asset@, holders: s.holders as nat }),
                        None => None,
                    },
            ),
            cache: Seq::new(self.cache@.len(), |i: int| (self.cache@[i].key@, self.cache@[i].id as nat)),
        }
    }
}

impl<A: View> Pool<A> {
    /// The invariant of the pool.
    pub open spec fn wf(&self) -> bool {
        self@.wf()
    }

    /// An empty pool.
    pub fn new() -> (r: Self)
        ensures
            r.wf(),
            r@ == PoolView::<A::V>::empty(),
    {
        let r = Pool { slots: Vec::new(), cache: Vec::new() };
        assert(r@ =~= PoolView::<A::V>::empty());
        r
    }

    /// The number of slots, which is the next id to hand out.
    pub fn len(&self) -> (r: usize)
        ensures
            r == self@.slots.len(),
    {
        self.slots.len()
    }

    /// The number of entries of the key table.
    pub fn keys(&self) -> (r: usize)
        ensures
            r == self@.cache.len(),
    {
        self.cache.len()
    }

    /// Whether some handle holds `id`.
    pub fn is_alive(&self, id: AssetId) -> (r: bool)
        ensures
            r == self@.alive(id as nat),
    {
        id < self.slots.len() && self.slots[id].is_some()
    }

    /// The number of handles that hold `id`.
    pub fn holders(&self, id: AssetId) -> (r: usize)
        ensures
            r == self@.holders(id as nat),
    {
        if id < self.slots.len() {
            match &self.slots[id] {
                Some(s) => s.holders,
                None => 0,
            }
        } else {
            0
        }
    }

    /// The live resource `id`.
    pub fn get(&self, id: AssetId) -> (r: Option<&A>)
        ensures
            self@.alive(id as nat) ==> (r matches Some(a) && a@ == self@.asset(id as nat)),
            !self@.alive(id as nat) ==> r is None,
    {
        if id < self.slots.len() {
            match &self.slots[id] {
                Some(s) => Some(&s.asset),
                None => None,
            }
        } else {
            None
        }
    }

    /// The live resource `id`, to be altered in place; its holders stay as
    /// they are.
    pub fn get_mut(&mut self, id: AssetId) -> (r: Option<&mut A>)
        ensures
            match r {
                Some(a) => old(self)@.alive(id as nat) && a@ == old(self)@.asset(id as nat)
                    && final(self)@ == old(self)@.with_asset(id as nat, final(a)@),
                None => !old(self)@.alive(id as nat) && final(self)@ == old(self)@,
            },
    {
        if id < self.slots.len() {
            match &mut self.slots[id] {
                Some(s) => Some(&mut s.asset),
                None => None,
            }
        } else {
            None
        }
    }

    /// Where the key table holds `key`.
    fn find(&self, key: &str) -> (r: Option<usize>)
        ensures
            match r {
                Some(i) => key_at(self@.cache, key@, i as int),
                None => forall|i: int| !key_at(self@.cache, key@, i),
            },
    {
        let wanted = String::from_str(key);
        let n = self.cache.len();
        let mut i: usize = 0;
        while i < n
            invariant
                n == self.cache@.len(),
                i <= n,
                wanted@ == key@,
                forall|k: int| 0 <= k < i ==> !key_at(self@.cache, key@, k),
            decreases n - i,
        {
            if self.cache[i].key == wanted {
                return Some(i);
            }
            i += 1;
        }
        None
    }

    /// The live resource known by `key`.
    pub fn hit(&self, key: &str) -> (r: Option<AssetId>)
        requires
            self.wf(),
        ensures
            id_of(r) == self@.hit(key@),
    {
        match self.find(key) {
            Some(i) => {
                proof {
                    lemma_position_is(self@.cache, key@, i as int);
                }
                let id = self.cache[i].id;
                if self.is_alive(id) {
                    Some(id)
                } else {
                    None
                }
            },
            None => None,
        }
    }

    /// Puts `asset` in a new slot, held by one handle, and returns its id.
    pub fn add(&mut self, asset: A) -> (id: AssetId)
        requires
            old(self).wf(),
        ensures
            final(self).wf(),
            id as nat == old(self)@.slots.len(),
            final(self)@ == old(self)@.added(asset@),
    {
        self.slots.push(Some(Slot { asset, holders: 1 }));
        let id = self.slots.len() - 1;
        assert(self@ =~= old(self)@.added(asset@));
        id
    }

    /// Makes `key` name `id`, in place of whatever it named.
    pub fn bind(&mut self, key: &str, id: AssetId)
        requires
            old(self).wf(),
            id < old(self)@.slots.len(),
        ensures
            final(self).wf(),
            final(self)@ == old(self)@.bound(key@, id as nat),
    {
        match self.find(key) {
            Some(i) => {
                proof {
                    lemma_position_is(self@.cache, key@, i as int);
                }
                self.cache.set(i, CacheEntry { key: String::from_str(key), id });
                assert(self@ =~= old(self)@.bound(key@, id as nat));
            },
            None => {
                self.cache.push(CacheEntry { key: String::from_str(key), id });
                assert(self@ =~= old(self)@.bound(key@, id as nat));
                assert(unique_keys(self@.cache)) by {
                    let n = old(self)@.cache.len() as int;
                    assert forall|a: int, b: int| 0 <= a < b < self@.cache.len() implies (#[trigger] self@.cache[a]).0 != (#[trigger] self@.cache[b]).0 by {
                        if b == n {
                            assert(!key_at(old(self)@.cache, key@, a));
                        } else {
                            assert(old(self)@.cache[a].0 != old(self)@.cache[b].0);
                        }
                    }
                }
            },
        }
    }

    /// Counts one more handle on the live resource `id`.
    pub fn retain(&mut self, id: AssetId)
        requires
            old(self).wf(),
            old(self)@.alive(id as nat),
        ensures
            final(self).wf(),
            final(self)@ == old(self)@.retained(id as nat),
    {
        match &mut self.slots[id] {
            Some(s) => {
                if s.holders < usize::MAX {
                    s.holders = s.holders + 1;
                }
            },
            None => {},
        }
        assert(self@ =~= old(self)@.retained(id as nat));
    }

    /// Counts one handle less on `id`, and returns whether that was the
    /// last: the resource is then dropped.
    pub fn release(&mut self, id: AssetId) -> (last: bool)
        requires
            old(self).wf(),
        ensures
            final(self).wf(),
            final(self)@ == old(self)@.released(id as nat),
            last == (old(self)@.holders(id as nat) == 1),
    {
        if !self.is_alive(id) {
            return false;
        }
        let count = self.holders(id);
        if count == usize::MAX {
            false
        } else if count > 1 {
            match &mut self.slots[id] {
                Some(s) => {
                    s.holders = count - 1;
                },
                None => {},
            }
            assert(self@ =~= old(self)@.released(id as nat));
            false
        } else {
            self.slots.set(id, None);
            assert(self@ =~= old(self)@.released(id as nat));
            true
        }
    }

    /// Takes the entry for `key` out of the key table and returns the id it
    /// named.
    pub fn forget(&mut self, key: &str) -> (r: Option<AssetId>)
        requires
            old(self).wf(),
        ensures
            final(self).wf(),
            final(self)@ == old(self)@.forgot(key@),
            id_of(r) == lookup(old(self)@.cache, key@),
    {
        match self.find(key) {
            Some(i) => {
                proof {
                    lemma_position_is(self@.cache, key@, i as int);
                }
                let entry = self.cache.remove(i);
                assert(self@ =~= old(self)@.forgot(key@));
                assert(unique_keys(self@.cache)) by {
                    let before = old(self)@.cache;
                    assert forall|a: int, b: int| 0 <= a < b < self@.cache.len() implies (#[trigger] self@.cache[a]).0 != (#[trigger] self@.cache[b]).0 by {
                        let sa = if a < i { a } else { a + 1 };
                        let sb = if b < i { b } else { b + 1 };
                        assert(self@.cache[a] == before[sa]);
                        assert(self@.cache[b] == before[sb]);
                    }
                }
                assert forall|a: int| 0 <= a < self@.cache.len() implies (#[trigger] self@.cache[a]).1 < self@.slots.len() by {
                    let sa = if a < i { a } else { a + 1 };
                    assert(self@.cache[a] == old(self)@.cache[sa]);
                }
                Some(entry.id)
            },
            None => None,
        }
    }

    /// Takes the entries whose resource is gone out of the key table, and
    /// returns how many they were.
    pub fn sweep(&mut self) -> (removed: usize)
        requires
            old(self).wf(),
        ensures
            final(self).wf(),
            final(self)@ == old(self)@.swept(),
            removed == old(self)@.cache.len() - final(self)@.cache.len(),
    {
        let n = self.cache.len();
        let mut kept: Vec<CacheEntry> = Vec::new();
        let ghost before = self@.cache;
        let ghost live = holds_live(self@.slots);
        let mut i: usize = 0;
        proof {
            reveal(Seq::filter);
            assert(before.take(0) =~= Seq::<(Seq<char>, nat)>::empty());
        }
        while i < n
            invariant
                n == self.cache@.len(),
                i <= n,
                *self == *old(self),
                before == self@.cache,
                live == holds_live(self@.slots),
                kept@.len() <= i,
                Seq::new(kept@.len(), |k: int| (kept@[k].key@, kept@[k].id as nat)) == before.take(i as int).filter(live),
            decreases n - i,
        {
            proof {
                reveal(Seq::filter);
                let next = before.take(i + 1);
                assert(next.drop_last() =~= before.take(i as int));
                assert(next.last() == before[i as int]);
            }
            let ghost shown = Seq::new(kept@.len(), |k: int| (kept@[k].key@, kept@[k].id as nat));
            let id = self.cache[i].id;
            if self.is_alive(id) {
                kept.push(CacheEntry { key: self.cache[i].key.clone(), id });
                assert(Seq::new(kept@.len(), |k: int| (kept@[k].key@, kept@[k].id as nat)) =~= shown.push(before[i as int]));
            }
            i += 1;
        }
        proof {
            assert(before.take(n as int) =~= before);
            before.lemma_filter_len(live);
            lemma_filter_keeps_wf(before, live);
        }
        let removed = n - kept.len();
        self.cache = kept;
        assert(self@ =~= old(self)@.swept());
        removed
    }
}

/// A part of a table without repeated keys has no repeated keys, and holds
/// only entries of the table.
pub proof fn lemma_filter_keeps_wf(cache: Seq<(Seq<char>, nat)>, keep: spec_fn((Seq<char>, nat)) -> bool)
    requires
        unique_keys(cache),
    ensures
        unique_keys(cache.filter(keep)),
        forall|i: int| 0 <= i < cache.filter(keep).len() ==> cache.contains(#[trigger] cache.filter(keep)[i]) && keep(
            cache.filter(keep)[i],
        ),
        forall|i: int| 0 <= i < cache.len() && keep(cache[i]) ==> cache.filter(keep).contains(#[trigger] cache[i]),
    decreases cache.len(),
{
    reveal(Seq::filter);
    if cache.len() > 0 {
        let rest = cache.drop_last();
        let last = cache.last();
        assert forall|i: int, j: int| 0 <= i < j < rest.len() implies (#[trigger] rest[i]).0 != (#[trigger] rest[j]).0 by {
            assert(rest[i] == cache[i] && rest[j] == cache[j]);
        }
        lemma_filter_keeps_wf(rest, keep);
        let part = rest.filter(keep);
        let all = cache.filter(keep);
        assert forall|i: int| 0 <= i < part.len() implies cache.contains(#[trigger] part[i]) && part[i].0 != last.0 by {
            assert(rest.contains(part[i]));
            let w = choose|w: int| 0 <= w < rest.len() && rest[w] == part[i];
            assert(cache[w] == part[i]);
            assert(cache[w].0 != cache[cache.len() - 1].0);
        }
        if keep(last) {
            assert(all == part.push(last));
            assert(cache[cache.len() - 1] == last);
            assert forall|i: int, j: int| 0 <= i < j < all.len() implies (#[trigger] all[i]).0 != (#[trigger] all[j]).0 by {
                if j < part.len() {
                    assert(all[i] == part[i] && all[j] == part[j]);
                } else {
                    assert(all[i] == part[i]);
                }
            }
            assert forall|i: int| 0 <= i < all.len() implies cache.contains(#[trigger] all[i]) && keep(all[i]) by {
                if i < part.len() {
                    assert(all[i] == part[i]);
                }
            }
        } else {
            assert(all == part);
        }
        assert forall|i: int| 0 <= i < cache.len() && keep(cache[i]) implies all.contains(#[trigger] cache[i]) by {
            if i < rest.len() {
                assert(rest[i] == cache[i]);
                assert(part.contains(rest[i]));
                let w = choose|w: int| 0 <= w < part.len() && part[w] == rest[i];
                assert(all[w] == cache[i]);
            } else {
                assert(all[all.len() - 1] == cache[i]);
            }
        }
    }
}

/// Keeping every entry of a table keeps the table.
pub proof fn lemma_filter_all(cache: Seq<(Seq<char>, nat)>, keep: spec_fn((Seq<char>, nat)) -> bool)
    requires
        forall|i: int| 0 <= i < cache.len() ==> keep(#[trigger] cache[i]),
    ensures
        cache.filter(keep) == cache,
    decreases cache.len(),
{
    reveal(Seq::filter);
    if cache.len() > 0 {
        let rest = cache.drop_last();
        assert forall|i: int| 0 <= i < rest.len() implies keep(#[trigger] rest[i]) by {
            assert(rest[i] == cache[i]);
        }
        lemma_filter_all(rest, keep);
        assert(keep(cache[cache.len() - 1]));
        assert(rest.push(cache.last()) =~= cache);
    }
}

/// Sweeping removes exactly the keys of resources that nobody holds: a key
/// is known afterwards if and only if it named a live resource, which it
/// still names; no resource and no count of handles changes.
pub proof fn lemma_sweep_is_exact<V>(p: PoolView<V>, key: Seq<char>)
    requires
        p.wf(),
    ensures
        p.swept().wf(),
        p.swept().slots == p.slots,
        lookup(p.swept().cache, key) == p.hit(key),
        p.swept().hit(key) == p.hit(key),
{
    let keep = holds_live(p.slots);
    let after = p.cache.filter(keep);
    lemma_filter_keeps_wf(p.cache, keep);
    assert forall|i: int| 0 <= i < after.len() implies (#[trigger] after[i]).1 < p.slots.len() by {
        assert(keep(after[i]));
    }
    if exists|i: int| key_at(p.cache, key, i) {
        let i = choose|i: int| key_at(p.cache, key, i);
        lemma_position_is(p.cache, key, i);
        if keep(p.cache[i]) {
            assert(after.contains(p.cache[i]));
            let w = choose|w: int| 0 <= w < after.len() && after[w] == p.cache[i];
            assert(key_at(after, key, w));
            lemma_position_is(after, key, w);
        } else {
            if exists|w: int| key_at(after, key, w) {
                let w = choose|w: int| key_at(after, key, w);
                assert(p.cache.contains(after[w]) && keep(after[w]));
                let j = choose|j: int| 0 <= j < p.cache.len() && p.cache[j] == after[w];
                assert(key_at(p.cache, key, j));
                lemma_position_is(p.cache, key, j);
            }
        }
    } else {
        if exists|w: int| key_at(after, key, w) {
            let w = choose|w: int| key_at(after, key, w);
            assert(p.cache.contains(after[w]));
            let j = choose|j: int| 0 <= j < p.cache.len() && p.cache[j] == after[w];
            assert(key_at(p.cache, key, j));
        }
    }
}

/// Sweeping a pool in which every key names a live resource changes
/// nothing, so that nothing is counted as removed.
pub proof fn lemma_sweep_without_dead<V>(p: PoolView<V>)
    requires
        forall|i: int| 0 <= i < p.cache.len() ==> p.alive((#[trigger] p.cache[i]).1),
    ensures
        p.swept() == p,
        p.cache.len() - p.swept().cache.len() == 0,
{
    lemma_filter_all(p.cache, holds_live(p.slots));
}

/// Naming a resource by a key makes that key, and no other, name it.
pub proof fn lemma_bound_names<V>(p: PoolView<V>, key: Seq<char>, id: nat, other: Seq<char>)
    requires
        p.wf(),
        id < p.slots.len(),
    ensures
        p.bound(key, id).wf(),
        p.bound(key, id).slots == p.slots,
        lookup(p.bound(key, id).cache, key) == Some(id),
        other != key ==> lookup(p.bound(key, id).cache, other) == lookup(p.cache, other),
{
    let after = p.bound(key, id).cache;
    match position(p.cache, key) {
        Some(i) => {
            assert(key_at(p.cache, key, i));
            assert forall|a: int, b: int| 0 <= a < b < after.len() implies (#[trigger] after[a]).0 != (#[trigger] after[b]).0 by {
                assert(p.cache[a].0 != p.cache[b].0);
            }
            assert(key_at(after, key, i));
            lemma_position_is(after, key, i);
            if other != key {
                if exists|j: int| key_at(p.cache, other, j) {
                    let j = choose|j: int| key_at(p.cache, other, j);
                    lemma_position_is(p.cache, other, j);
                    assert(key_at(after, other, j));
                    lemma_position_is(after, other, j);
                } else {
                    if exists|j: int| key_at(after, other, j) {
                        let j = choose|j: int| key_at(after, other, j);
                        assert(key_at(p.cache, other, j));
                    }
                }
            }
        },
        None => {
            let n = p.cache.len() as int;
            assert forall|a: int, b: int| 0 <= a < b < after.len() implies (#[trigger] after[a]).0 != (#[trigger] after[b]).0 by {
                if b == n {
                    assert(!key_at(p.cache, key, a));
                } else {
                    assert(p.cache[a].0 != p.cache[b].0);
                }
            }
            assert(key_at(after, key, n));
            lemma_position_is(after, key, n);
            if other != key {
                if exists|j: int| key_at(p.cache, other, j) {
                    let j = choose|j: int| key_at(p.cache, other, j);
                    lemma_position_is(p.cache, other, j);
                    assert(key_at(after, other, j));
                    lemma_position_is(after, other, j);
                } else {
                    if exists|j: int| key_at(after, other, j) {
                        let j = choose|j: int| key_at(after, other, j);
                        assert(key_at(p.cache, other, j));
                    }
                }
            }
        },
    }
}

/// When the last handle of a resource is given back the resource is gone,
/// and the key that named it names nothing alive, though the key itself
/// stays in the table until the pool is swept.
pub proof fn lemma_last_release_leaves_stale_key<V>(p: PoolView<V>, key: Seq<char>, id: nat)
    requires
        p.wf(),
        p.hit(key) == Some(id),
        p.holders(id) == 1,
    ensures
        p.released(id).wf(),
        !p.released(id).alive(id),
        p.released(id).hit(key) is None,
        lookup(p.released(id).cache, key) == Some(id),
        lookup(p.released(id).swept().cache, key) is None,
{
    lemma_sweep_is_exact(p.released(id), key);
}

/// A change that brings no resource back, and that leaves every resource as
/// it was but for one, which meets `valid` if it was altered, keeps every
/// live resource meeting `valid`.
pub proof fn lemma_validity_is_kept<V>(before: PoolView<V>, after: PoolView<V>, id: nat, valid: spec_fn(V) -> bool)
    requires
        before.every(valid),
        forall|k: nat|
            #![trigger after.asset(k)]
            k != id && after.alive(k) ==> before.alive(k) && after.asset(k) == before.asset(k),
        after.alive(id) ==> valid(after.asset(id)) || (before.alive(id) && after.asset(id) == before.asset(id)),
    ensures
        after.every(valid),
{
    assert forall|k: nat| after.alive(k) implies valid(#[trigger] after.asset(k)) by {
        if k != id {
            assert(after.asset(k) == before.asset(k));
            assert(valid(before.asset(k)));
        } else if !valid(after.asset(id)) {
            assert(valid(before.asset(id)));
        }
    }
}

} // verus!

//! The directory entry cache: recently used entries, and a table from path
//! text to the entry cached there, searched from a path up its ancestors.
use vstd::prelude::*;
use crate::path::{ComponentView, KPath, parent_of};

verus! {

/// The table of cached entries, keyed by path text; it holds a hashbrown
/// hash map.
#[verifier::external_body]
pub struct PathTable {
    map: hashbrown::HashMap<Vec<u8>, u64>,
}

/// What a table holds: the entry cached under each path text.
pub uninterp spec fn path_table_entries(t: PathTable) -> Map<Seq<u8>, u64>;

/// `hashbrown::HashMap::new`: an empty table.
#[verifier::external_body]
fn path_table_new() -> (r: PathTable)
    ensures
        path_table_entries(r).dom().len() == 0 && path_table_entries(r).dom().finite(),
{
    PathTable { map: hashbrown::HashMap::new() }
}

/// `hashbrown::HashMap::len`: the number of keys held.
#[verifier::external_body]
fn path_table_len(t: &PathTable) -> (r: usize)
    ensures
        r == path_table_entries(*t).dom().len(),
{
    t.map.len()
}

/// `hashbrown::HashMap::get`: the entry held under `key`, if any.
#[verifier::external_body]
fn path_table_get(t: &PathTable, key: &Vec<u8>) -> (r: Option<u64>)
    ensures
        r == (if path_table_entries(*t).dom().contains(key@) {
            Some(path_table_entries(*t)[key@])
        } else {
            None
        }),
{
    t.map.get(key).copied()
}

/// `hashbrown::HashMap::insert`: `key` now holds `value`; the other keys
/// keep theirs.
#[verifier::external_body]
fn path_table_insert(t: &mut PathTable, key: Vec<u8>, value: u64)
    ensures
        path_table_entries(*final(t)) == path_table_entries(*old(t)).insert(key@, value),
{
    t.map.insert(key, value);
}

/// The paths that a lookup from `p` tries, in order: `p`, then its
/// ancestors, stopping before `stop` and at a path with no parent.
pub open spec fn lookup_chain(p: Seq<ComponentView>, stop: Seq<ComponentView>) -> Seq<Seq<ComponentView>>
    decreases p.len(),
{
    match parent_of(p) {
        Some(q) => if q == stop {
            seq![p]
        } else {
            seq![p] + lookup_chain(q, stop)
        },
        None => seq![p],
    }
}

/// The entries left after a clean that decided `d[i]` (evict or keep) for
/// the `i`th entry of `s`.
pub open spec fn kept_entries(s: Seq<u64>, d: Seq<bool>) -> Seq<u64>
    decreases s.len(),
{
    if s.len() == 0 || d.len() == 0 {
        Seq::empty()
    } else if d.last() {
        kept_entries(s.drop_last(), d.drop_last())
    } else {
        kept_entries(s.drop_last(), d.drop_last()).push(s.last())
    }
}

/// The number of `true` decisions.
pub open spec fn count_evicted(d: Seq<bool>) -> nat
    decreases d.len(),
{
    if d.len() == 0 {
        0
    } else {
        count_evicted(d.drop_last()) + if d.last() {
            1nat
        } else {
            0nat
        }
    }
}

/// A lookup tries the searched path first, then each path's parent, and
/// never the stop path after the first.
pub proof fn lemma_lookup_chain_shape(p: Seq<ComponentView>, stop: Seq<ComponentView>)
    ensures
        lookup_chain(p, stop).len() >= 1,
        lookup_chain(p, stop)[0] == p,
        forall|i: int|
            0 <= i < lookup_chain(p, stop).len() - 1 ==> parent_of(#[trigger] lookup_chain(p, stop)[i])
                == Some(lookup_chain(p, stop)[i + 1]),
        forall|i: int| 0 < i < lookup_chain(p, stop).len() ==> #[trigger] lookup_chain(p, stop)[i] != stop,
    decreases p.len(),
{
    match parent_of(p) {
        Some(q) => {
            if q != stop {
                lemma_lookup_chain_shape(q, stop);
                let c = lookup_chain(p, stop);
                let cq = lookup_chain(q, stop);
                assert(c =~= seq![p] + cq);
                assert forall|i: int| 0 <= i < c.len() - 1 implies parent_of(#[trigger] c[i]) == Some(c[i + 1]) by {
                    if i > 0 {
                        assert(c[i] == cq[i - 1]);
                        assert(c[i + 1] == cq[i]);
                    }
                }
                assert forall|i: int| 0 < i < c.len() implies #[trigger] c[i] != stop by {
                    assert(c[i] == cq[i - 1]);
                }
            }
        },
        None => {},
    }
}

/// A clean keeps exactly the entries it did not evict, in their order: as
/// many as were not evicted, each one an entry of the list before.
pub proof fn lemma_clean_accounts(s: Seq<u64>, d: Seq<bool>)
    requires
        d.len() == s.len(),
    ensures
        kept_entries(s, d).len() + count_evicted(d) == s.len(),
        forall|i: int| 0 <= i < kept_entries(s, d).len() ==> s.contains(#[trigger] kept_entries(s, d)[i]),
    decreases s.len(),
{
    if s.len() > 0 {
        lemma_clean_accounts(s.drop_last(), d.drop_last());
        let k = kept_entries(s, d);
        let k0 = kept_entries(s.drop_last(), d.drop_last());
        assert forall|i: int| 0 <= i < k.len() implies s.contains(#[trigger] k[i]) by {
            if i < k0.len() {
                assert(k[i] == k0[i]);
                let j = choose|j: int| 0 <= j < s.drop_last().len() && s.drop_last()[j] == k0[i];
                assert(s[j] == k0[i]);
            } else {
                assert(k[i] == s.last());
                assert(s[s.len() - 1] == s.last());
            }
        }
    }
}

/// Every entry a clean keeps is an entry of the list before on which the
/// clean decided to keep.
pub proof fn lemma_kept_were_kept(s: Seq<u64>, d: Seq<bool>)
    requires
        d.len() == s.len(),
    ensures
        forall|i: int|
            0 <= i < kept_entries(s, d).len() ==> exists|j: int|
                0 <= j < s.len() && s[j] == #[trigger] kept_entries(s, d)[i] && !d[j],
    decreases s.len(),
{
    if s.len() > 0 {
        lemma_kept_were_kept(s.drop_last(), d.drop_last());
        let k = kept_entries(s, d);
        let k0 = kept_entries(s.drop_last(), d.drop_last());
        assert forall|i: int| 0 <= i < k.len() implies exists|j: int|
            0 <= j < s.len() && s[j] == #[trigger] k[i] && !d[j] by {
            if i < k0.len() {
                assert(k[i] == k0[i]);
                let j = choose|j: int|
                    0 <= j < s.drop_last().len() && s.drop_last()[j] == k0[i] && !d.drop_last()[j];
                assert(s[j] == k0[i] && !d[j]);
            } else {
                assert(k[i] == s.last());
                assert(s[s.len() - 1] == s.last() && !d[d.len() - 1]);
            }
        }
    }
}

/// A clean that decides to keep every entry keeps the list as it is and
/// removes none.
pub proof fn lemma_clean_keeping_all(s: Seq<u64>, d: Seq<bool>)
    requires
        d.len() == s.len(),
        forall|i: int| 0 <= i < d.len() ==> !#[trigger] d[i],
    ensures
        kept_entries(s, d) == s,
        count_evicted(d) == 0,
    decreases s.len(),
{
    if s.len() > 0 {
        lemma_clean_keeping_all(s.drop_last(), d.drop_last());
        assert(!d[d.len() - 1]);
        assert(s.drop_last().push(s.last()) =~= s);
    }
}

/// Cleaning is idempotent: when whether an entry is unused is a fixed
/// verdict `unused` on the entry, a second clean of what the first kept
/// keeps all of it and removes nothing.
pub proof fn lemma_clean_twice(s: Seq<u64>, d: Seq<bool>, d2: Seq<bool>, unused: spec_fn(u64) -> bool)
    requires
        d.len() == s.len(),
        forall|i: int| 0 <= i < s.len() ==> #[trigger] d[i] == unused(s[i]),
        d2.len() == kept_entries(s, d).len(),
        forall|i: int| 0 <= i < d2.len() ==> #[trigger] d2[i] == unused(kept_entries(s, d)[i]),
    ensures
        kept_entries(kept_entries(s, d), d2) == kept_entries(s, d),
        count_evicted(d2) == 0,
{
    lemma_kept_were_kept(s, d);
    let k = kept_entries(s, d);
    assert forall|i: int| 0 <= i < d2.len() implies !#[trigger] d2[i] by {
        let j = choose|j: int| 0 <= j < s.len() && s[j] == #[trigger] k[i] && !d[j];
        assert(d[j] == unused(s[j]));
    }
    lemma_clean_keeping_all(k, d2);
}

/// A second clean with the same verdict removes nothing: after a clean,
/// the verdict on every entry left was "in use", so when the verdict on an
/// entry is always the same, a clean of what is left keeps all of it.
pub proof fn lemma_clean_again_removes_nothing<F: Fn(u64) -> bool>(lru: Seq<u64>, is_unused: F, d: Seq<bool>)
    requires
        forall|e: u64, a: bool, b: bool| is_unused.ensures((e,), a) && is_unused.ensures((e,), b) ==> a == b,
        forall|i: int| 0 <= i < lru.len() ==> is_unused.ensures((#[trigger] lru[i],), false),
        d.len() == lru.len(),
        forall|i: int| 0 <= i < d.len() ==> is_unused.ensures((lru[i],), #[trigger] d[i]),
    ensures
        kept_entries(lru, d) == lru,
        count_evicted(d) == 0,
{
    assert forall|i: int| 0 <= i < d.len() implies !#[trigger] d[i] by {
        assert(is_unused.ensures((lru[i],), false));
        assert(is_unused.ensures((lru[i],), d[i]));
    }
    lemma_clean_keeping_all(lru, d);
}

/// After an entry is put at a path whose written text had no entry, a
/// lookup from that path tries it first and finds that entry there.
pub proof fn lemma_put_then_lookup(
    before: Map<Seq<u8>, u64>,
    after: Map<Seq<u8>, u64>,
    p: KPath,
    src: u64,
    stop: Seq<ComponentView>,
)
    requires
        !before.dom().contains(p.spec_key()),
        after == before.insert(p.spec_key(), src),
    ensures
        lookup_chain(p@, stop)[0] == p@,
        after.dom().contains(p.prefix_text(lookup_chain(p@, stop)[0].len() as int)),
        after[p.prefix_text(lookup_chain(p@, stop)[0].len() as int)] == src,
{
    lemma_lookup_chain_shape(p@, stop);
}

/// A cache of directory entries, each entry named by a number.
pub struct DCache {
    table: PathTable,
    lru_list: Vec<u64>,
    max_size: usize,
}

impl DCache {
    /// The table: the entry cached under each path text.
    pub closed spec fn spec_table(&self) -> Map<Seq<u8>, u64> {
        path_table_entries(self.table)
    }

    /// The entries in use order, oldest first.
    pub closed spec fn spec_lru(&self) -> Seq<u64> {
        self.lru_list@
    }

    /// The number of table entries that makes a put clean the cache (0:
    /// never).
    pub closed spec fn spec_max_size(&self) -> usize {
        self.max_size
    }

    /// An empty cache that is never cleaned on a put.
    pub fn new() -> (r: DCache)
        ensures
            r.spec_table() == Map::<Seq<u8>, u64>::empty(),
            r.spec_lru().len() == 0,
            r.spec_max_size() == 0,
    {
        DCache { table: path_table_new(), lru_list: Vec::new(), max_size: 0 }
    }

    /// An empty cache that is cleaned on a put once its table holds `size`
    /// entries.
    pub fn new_with_max_size(size: usize) -> (r: DCache)
        ensures
            r.spec_table() == Map::<Seq<u8>, u64>::empty(),
            r.spec_lru().len() == 0,
            r.spec_max_size() == size,
    {
        DCache { table: path_table_new(), lru_list: Vec::new(), max_size: size }
    }

    /// Removes from the use list every entry that `is_unused` says nothing
    /// else holds, keeping the order of the others, and answers how many
    /// were removed. The table is left as it is.
    pub fn clean<F>(&mut self, is_unused: F) -> (r: usize) where F: Fn(u64) -> bool,
        requires
            forall|e: u64| is_unused.requires((e,)),
        ensures
            final(self).spec_table() == old(self).spec_table(),
            final(self).spec_max_size() == old(self).spec_max_size(),
            exists|d: Seq<bool>|
                #[trigger] kept_entries(old(self).spec_lru(), d) == final(self).spec_lru()
                    && d.len() == old(self).spec_lru().len() && r == count_evicted(d)
                    && forall|i: int| 0 <= i < d.len() ==> is_unused.ensures((old(self).spec_lru()[i],), #[trigger] d[i]),
            forall|i: int|
                0 <= i < final(self).spec_lru().len() ==> is_unused.ensures(
                    (#[trigger] final(self).spec_lru()[i],),
                    false,
                ),
    {
        let mut kept: Vec<u64> = Vec::new();
        let mut removed: usize = 0;
        let ghost mut d: Seq<bool> = Seq::empty();
        let n = self.lru_list.len();
        let mut i: usize = 0;
        while i < n
            invariant
                i <= n,
                n == self.lru_list@.len(),
                self.lru_list@ == old(self).spec_lru(),
                forall|e: u64| is_unused.requires((e,)),
                d.len() == i,
                kept@ == kept_entries(self.lru_list@.subrange(0, i as int), d),
                removed == count_evicted(d),
                removed <= i,
                forall|k: int| 0 <= k < i ==> is_unused.ensures((self.lru_list@[k],), #[trigger] d[k]),
            decreases n - i,
        {
            let e = self.lru_list[i];
            let unused = is_unused(e);
            proof {
                let s1 = self.lru_list@.subrange(0, i + 1);
                assert(s1.drop_last() =~= self.lru_list@.subrange(0, i as int));
                assert((d.push(unused)).drop_last() =~= d);
                d = d.push(unused);
            }
            if unused {
                removed = removed + 1;
            } else {
                kept.push(e);
            }
            i = i + 1;
        }
        assert(self.lru_list@.subrange(0, n as int) =~= self.lru_list@);
        proof {
            let s0 = self.lru_list@;
            lemma_kept_were_kept(s0, d);
            assert forall|i: int| 0 <= i < kept@.len() implies is_unused.ensures((#[trigger] kept@[i],), false) by {
                let j = choose|j: int| 0 <= j < s0.len() && s0[j] == #[trigger] kept_entries(s0, d)[i] && !d[j];
                assert(is_unused.ensures((s0[j],), d[j]));
            }
        }
        self.lru_list = kept;
        removed
    }

    /// Caches the entry `src` found at `path`: it joins the use list, and
    /// the table gets it under the path's written text unless that text already has
    /// an entry. When the cache has a limit and the table has reached it,
    /// the cache is then cleaned with `is_unused` (see `clean`).
    pub fn put<F>(&mut self, path: &KPath, src: u64, is_unused: F) where F: Fn(u64) -> bool,
        requires
            forall|e: u64| is_unused.requires((e,)),
        ensures
            final(self).spec_max_size() == old(self).spec_max_size(),
            final(self).spec_table() == (if old(self).spec_table().dom().contains(path.spec_key()) {
                old(self).spec_table()
            } else {
                old(self).spec_table().insert(path.spec_key(), src)
            }),
            ({
                let lru = old(self).spec_lru().push(src);
                if old(self).spec_max_size() != 0 && final(self).spec_table().dom().len() >= old(self).spec_max_size() {
                    exists|d: Seq<bool>|
                        #[trigger] kept_entries(lru, d) == final(self).spec_lru() && d.len() == lru.len()
                            && forall|i: int| 0 <= i < d.len() ==> is_unused.ensures((lru[i],), #[trigger] d[i])
                } else {
                    final(self).spec_lru() == lru
                }
            }),
    {
        self.lru_list.push(src);
        let key = path.key();
        if path_table_get(&self.table, &key).is_none() {
            path_table_insert(&mut self.table, key, src);
        }
        let ghost lru = self.spec_lru();
        assert(lru == old(self).spec_lru().push(src));
        if self.max_size != 0 && path_table_len(&self.table) >= self.max_size {
            self.clean(is_unused);
            assert(exists|d: Seq<bool>|
                #[trigger] kept_entries(lru, d) == self.spec_lru() && d.len() == lru.len()
                    && forall|i: int| 0 <= i < d.len() ==> is_unused.ensures((lru[i],), #[trigger] d[i]));
        }
    }

    /// Looks `search_path` up, then its ancestors, stopping before
    /// `stop_path` (see `lookup_chain`; paths are compared by their
    /// components). Each path is looked up under its written text, the
    /// leading part of `search_path` as it was written
    /// (`KPath::prefix_text`). At each one that has an entry, `resolve`
    /// tells whether the entry is still alive and gives it; the first one
    /// alive is the answer, with the path where it was found.
    pub fn quick_lookup<L, R>(&self, search_path: &KPath, stop_path: &KPath, resolve: L) -> (r: Option<(R, KPath)>) where
        L: Fn(u64) -> Option<R>,
        requires
            forall|e: u64| resolve.requires((e,)),
        ensures
            ({
                let chain = lookup_chain(search_path@, stop_path@);
                let t = self.spec_table();
                match r {
                    Some((found, p)) => exists|i: int|
                        0 <= i < chain.len() && #[trigger] chain[i] == p@
                            && p.spec_key() == search_path.prefix_text(p@.len() as int)
                            && t.dom().contains(p.spec_key())
                            && resolve.ensures((t[p.spec_key()],), Some(found))
                            && forall|j: int|
                            0 <= j < i && t.dom().contains(search_path.prefix_text((#[trigger] chain[j]).len() as int)) ==> resolve.ensures(
                                (t[search_path.prefix_text(chain[j].len() as int)],),
                                None,
                            ),
                    None => forall|j: int|
                        0 <= j < chain.len() && t.dom().contains(search_path.prefix_text((#[trigger] chain[j]).len() as int)) ==> resolve.ensures(
                            (t[search_path.prefix_text(chain[j].len() as int)],),
                            None,
                        ),
                }
            }),
    {
        let ghost chain = lookup_chain(search_path@, stop_path@);
        let ghost t = self.spec_table();
        let mut cur = search_path.duplicate();
        let ghost mut k: int = 0;
        loop
            invariant
                0 <= k < chain.len(),
                chain == lookup_chain(search_path@, stop_path@),
                t == self.spec_table(),
                lookup_chain(cur@, stop_path@) == chain.skip(k),
                forall|m: int| 0 <= m <= cur@.len() ==> #[trigger] cur.prefix_text(m) == search_path.prefix_text(m),
                forall|e: u64| resolve.requires((e,)),
                forall|j: int|
                    0 <= j < k && t.dom().contains(search_path.prefix_text((#[trigger] chain[j]).len() as int)) ==> resolve.ensures(
                        (t[search_path.prefix_text(chain[j].len() as int)],),
                        None,
                    ),
            decreases cur@.len(),
        {
            assert(chain[k] == cur@) by {
                assert(lookup_chain(cur@, stop_path@)[0] == cur@);
            }
            let key = cur.key();
            if let Some(id) = path_table_get(&self.table, &key) {
                if let Some(found) = resolve(id) {
                    return Some((found, cur));
                }
            }
            match cur.parent() {
                Some(parent) => {
                    if parent.same_as(stop_path) {
                        assert(chain.len() == k + 1) by {
                            assert(lookup_chain(cur@, stop_path@).len() == 1);
                        }
                        return None;
                    }
                    proof {
                        assert(lookup_chain(cur@, stop_path@) =~= seq![cur@] + lookup_chain(parent@, stop_path@));
                        assert(chain.skip(k + 1) =~= chain.skip(k).drop_first());
                        k = k + 1;
                    }
                    cur = parent;
                },
                None => {
                    assert(chain.len() == k + 1) by {
                        assert(lookup_chain(cur@, stop_path@).len() == 1);
                    }
                    return None;
                },
            }
        }
    }
}

impl Default for DCache {
    fn default() -> (r: DCache)
        ensures
            r.spec_table() == Map::<Seq<u8>, u64>::empty(),
            r.spec_lru().len() == 0,
            r.spec_max_size() == 0,
    {
        DCache::new()
    }
}

} // verus!

//! The mount table: mount points kept deepest first, and the lookup of the
//! mount point that a path lies under.
use vstd::prelude::*;
use core::cmp::Ordering;
use crate::path::{
    ComponentView, KPath, is_prefix, path_order, lemma_path_order_zero, lemma_path_order_range,
    lemma_path_order_antisymmetric, lemma_path_order_transitive,
};

verus! {

/// The order of mount points: deeper paths (more components) first, paths
/// of the same depth in path order. -1, 0 or 1.
pub open spec fn mount_order(a: Seq<ComponentView>, b: Seq<ComponentView>) -> int {
    if a.len() == b.len() {
        path_order(a, b)
    } else if b.len() < a.len() {
        -1
    } else {
        1
    }
}

/// Whether mount point `a` orders strictly before `b`.
#[verifier::opaque]
pub open spec fn orders_before(a: Seq<ComponentView>, b: Seq<ComponentView>) -> bool {
    mount_order(a, b) == -1
}

/// Entries in strictly increasing mount order: each mount point once,
/// deepest first.
pub open spec fn entries_wf<V>(e: Seq<(Seq<ComponentView>, V)>) -> bool {
    forall|i: int, j: int| 0 <= i < j < e.len() ==> orders_before((#[trigger] e[i]).0, (#[trigger] e[j]).0)
}

/// `f` holds what `e` holds with `(k, v)` put in: every entry of `e` for
/// another mount point, and `(k, v)`, and nothing else.
pub open spec fn entries_put<V>(e: Seq<(Seq<ComponentView>, V)>, f: Seq<(Seq<ComponentView>, V)>, k: Seq<ComponentView>, v: V) -> bool {
    &&& exists|i: int| 0 <= i < f.len() && #[trigger] f[i] == (k, v)
    &&& forall|j: int|
        0 <= j < e.len() && (#[trigger] e[j]).0 != k ==> exists|i: int|
            0 <= i < f.len() && #[trigger] f[i] == e[j]
    &&& forall|i: int|
        0 <= i < f.len() && (#[trigger] f[i]).0 != k ==> exists|j: int|
            0 <= j < e.len() && #[trigger] e[j] == f[i]
}

/// A mount point that orders before another is distinct from it and no
/// shallower; the order is transitive.
pub proof fn lemma_orders_before(a: Seq<ComponentView>, b: Seq<ComponentView>, c: Seq<ComponentView>)
    ensures
        orders_before(a, b) ==> a != b && a.len() >= b.len(),
        orders_before(a, b) && orders_before(b, c) ==> orders_before(a, c),
{
    reveal(orders_before);
    lemma_mount_order_laws(a, b);
    lemma_mount_order_depth(a, b);
    if orders_before(a, b) && orders_before(b, c) {
        lemma_mount_order_transitive(a, b, c);
    }
}

proof fn lemma_put_replace<V>(e: Seq<(Seq<ComponentView>, V)>, i: int, k: Seq<ComponentView>, v: V)
    requires
        entries_wf(e),
        0 <= i < e.len(),
        e[i].0 == k,
    ensures
        entries_wf(e.update(i, (k, v))),
        entries_put(e, e.update(i, (k, v)), k, v),
{
    let f = e.update(i, (k, v));
    assert(f[i] == (k, v));
    assert forall|j: int| 0 <= j < e.len() && (#[trigger] e[j]).0 != k implies exists|m: int|
        0 <= m < f.len() && #[trigger] f[m] == e[j] by {
        assert(f[j] == e[j]);
    }
    assert forall|m: int| 0 <= m < f.len() && (#[trigger] f[m]).0 != k implies exists|j: int|
        0 <= j < e.len() && #[trigger] e[j] == f[m] by {
        assert(f[m] == e[m]);
    }
    assert forall|a: int, b: int| 0 <= a < b < f.len() implies orders_before((#[trigger] f[a]).0, (
    #[trigger] f[b]).0) by {
        assert(orders_before(e[a].0, e[b].0));
    }
}

proof fn lemma_put_insert<V>(e: Seq<(Seq<ComponentView>, V)>, p: int, k: Seq<ComponentView>, v: V)
    requires
        entries_wf(e),
        0 <= p <= e.len(),
        forall|q: int| 0 <= q < p ==> orders_before((#[trigger] e[q]).0, k),
        p < e.len() ==> orders_before(k, e[p].0),
    ensures
        entries_wf(e.insert(p, (k, v))),
        entries_put(e, e.insert(p, (k, v)), k, v),
{
    let f = e.insert(p, (k, v));
    assert(f[p] == (k, v));
    assert forall|j: int| 0 <= j < e.len() && (#[trigger] e[j]).0 != k implies exists|m: int|
        0 <= m < f.len() && #[trigger] f[m] == e[j] by {
        if j < p {
            assert(f[j] == e[j]);
        } else {
            assert(f[j + 1] == e[j]);
        }
    }
    assert forall|m: int| 0 <= m < f.len() && (#[trigger] f[m]).0 != k implies exists|j: int|
        0 <= j < e.len() && #[trigger] e[j] == f[m] by {
        if m < p {
            assert(f[m] == e[m]);
        } else {
            assert(f[m] == e[m - 1]);
        }
    }
    lemma_insert_keeps_order(e, p, k, v);
}

proof fn lemma_insert_keeps_order<V>(e: Seq<(Seq<ComponentView>, V)>, p: int, k: Seq<ComponentView>, v: V)
    requires
        entries_wf(e),
        0 <= p <= e.len(),
        forall|q: int| 0 <= q < p ==> orders_before((#[trigger] e[q]).0, k),
        p < e.len() ==> orders_before(k, e[p].0),
    ensures
        entries_wf(e.insert(p, (k, v))),
{
    let f = e.insert(p, (k, v));
    assert forall|a: int, b: int| 0 <= a < b < f.len() implies orders_before((#[trigger] f[a]).0, (
    #[trigger] f[b]).0) by {
        if a == p {
            assert(f[b] == e[b - 1]);
            if b - 1 > p {
                assert(orders_before(e[p].0, e[b - 1].0));
                lemma_orders_before(k, e[p].0, e[b - 1].0);
            }
        } else if b == p {
            assert(f[a] == e[a]);
        } else if b < p {
            assert(f[a] == e[a] && f[b] == e[b]);
        } else if a < p {
            assert(f[a] == e[a] && f[b] == e[b - 1]);
            assert(orders_before(e[a].0, e[b - 1].0));
        } else {
            assert(f[a] == e[a - 1] && f[b] == e[b - 1]);
            assert(orders_before(e[a - 1].0, e[b - 1].0));
        }
    }
}

/// A mount point that orders after another is no deeper, one that orders
/// before it no shallower.
pub proof fn lemma_mount_order_depth(a: Seq<ComponentView>, b: Seq<ComponentView>)
    ensures
        mount_order(a, b) == 1 ==> b.len() >= a.len(),
        mount_order(a, b) == -1 ==> a.len() >= b.len(),
{
}

/// The mount order is a strict order on distinct mount points: it is 0
/// exactly on equal ones, and swapping two flips it.
pub proof fn lemma_mount_order_laws(a: Seq<ComponentView>, b: Seq<ComponentView>)
    ensures
        -1 <= mount_order(a, b) <= 1,
        (mount_order(a, b) == 0) == (a == b),
        mount_order(a, b) == -mount_order(b, a),
{
    lemma_path_order_range(a, b);
    lemma_path_order_zero(a, b);
    lemma_path_order_antisymmetric(a, b);
}

/// The mount order is transitive.
pub proof fn lemma_mount_order_transitive(a: Seq<ComponentView>, b: Seq<ComponentView>, c: Seq<ComponentView>)
    requires
        mount_order(a, b) == -1,
        mount_order(b, c) == -1,
    ensures
        mount_order(a, c) == -1,
{
    if a.len() == b.len() && b.len() == c.len() {
        lemma_path_order_transitive(a, b, c);
    }
}

/// A mount point: a clean path.
pub struct MountPath(KPath);

impl View for MountPath {
    type V = Seq<ComponentView>;

    closed spec fn view(&self) -> Seq<ComponentView> {
        self.0@
    }
}

impl MountPath {
    /// The mount point at `path`, which the caller has already cleaned
    /// (no `.` components, no `..` after a name, no empty names).
    pub fn from_path(path: KPath) -> (r: MountPath)
        ensures
            r@ == path@,
    {
        MountPath(path)
    }

    /// The path of the mount point.
    pub fn as_path(&self) -> (r: &KPath)
        ensures
            r@ == self@,
    {
        &self.0
    }

    /// The order of two mount points (see `mount_order`).
    pub fn cmp(&self, other: &MountPath) -> (r: Ordering)
        ensures
            (r == Ordering::Less) == (mount_order(self@, other@) == -1),
            (r == Ordering::Equal) == (mount_order(self@, other@) == 0),
            (r == Ordering::Greater) == (mount_order(self@, other@) == 1),
    {
        proof {
            lemma_path_order_range(self@, other@);
        }
        let self_dep = self.0.component_count();
        let othe_dep = other.0.component_count();
        if self_dep == othe_dep {
            let c = self.0.compare(&other.0);
            if c < 0 {
                Ordering::Less
            } else if c == 0 {
                Ordering::Equal
            } else {
                Ordering::Greater
            }
        } else if othe_dep < self_dep {
            Ordering::Less
        } else {
            Ordering::Greater
        }
    }

    /// Whether this mount point orders before `other`.
    pub fn precedes(&self, other: &MountPath) -> (r: bool)
        ensures
            r == (mount_order(self@, other@) == -1),
    {
        proof {
            lemma_path_order_range(self@, other@);
        }
        let self_dep = self.0.component_count();
        let other_dep = other.0.component_count();
        if self_dep == other_dep {
            self.0.compare(&other.0) < 0
        } else {
            other_dep < self_dep
        }
    }

    /// The order of two mount points, which is always defined.
    pub fn partial_cmp(&self, other: &MountPath) -> (r: Option<Ordering>)
        ensures
            r is Some,
            (r == Some(Ordering::Less)) == (mount_order(self@, other@) == -1),
            (r == Some(Ordering::Equal)) == (mount_order(self@, other@) == 0),
            (r == Some(Ordering::Greater)) == (mount_order(self@, other@) == 1),
    {
        Some(self.cmp(other))
    }
}

/// The mount points of `v` by their paths' components, each with what is
/// mounted there.
pub open spec fn entries_view<V>(v: Seq<(MountPath, V)>) -> Seq<(Seq<ComponentView>, V)> {
    Seq::new(v.len(), |i: int| (v[i].0@, v[i].1))
}

/// The table of mount points, each with what is mounted there.
pub struct MountList<V> {
    entries: Vec<(MountPath, V)>,
}

impl<V> MountList<V> {
    /// The entries, in the table's order.
    pub closed spec fn spec_entries(&self) -> Seq<(Seq<ComponentView>, V)> {
        entries_view(self.entries@)
    }

    /// The table keeps its mount points in strictly increasing mount order
    /// (each one once, deepest first).
    #[verifier::type_invariant]
    spec fn wf(&self) -> bool {
        entries_wf(self.spec_entries())
    }

    /// An empty table.
    pub fn init() -> (r: MountList<V>)
        ensures
            r.spec_entries().len() == 0,
    {
        MountList { entries: Vec::new() }
    }

    /// Mounts `fs` at `path`, replacing what was mounted at the same path.
    /// A new mount point goes before the first one that orders after it.
    pub fn insert(&mut self, path: MountPath, fs: V)
        ensures
            entries_wf(final(self).spec_entries()),
            entries_put(old(self).spec_entries(), final(self).spec_entries(), path@, fs),
    {
        proof {
            use_type_invariant(&*self);
        }
        let mut entries: Vec<(MountPath, V)> = Vec::new();
        std::mem::swap(&mut entries, &mut self.entries);
        let ghost old_entries = entries_view(entries@);
        assert(old_entries == old(self).spec_entries());
        let n = entries.len();
        let mut i: usize = 0;
        while i < n
            invariant
                i <= n,
                n == entries@.len(),
                entries_view(entries@) == old_entries,
                old_entries == old(self).spec_entries(),
                entries_wf(old_entries),
                forall|k: int| 0 <= k < i ==> (#[trigger] old_entries[k]).0 != path@,
            decreases n - i,
        {
            if entries[i].0.as_path().same_as(path.as_path()) {
                proof {
                    lemma_put_replace(old_entries, i as int, path@, fs);
                }
                entries.set(i, (path, fs));
                assert(entries_view(entries@) =~= old_entries.update(i as int, (path@, fs)));
                self.entries = entries;
                return;
            }
            i = i + 1;
        }
        let mut p: usize = 0;
        while p < n && !path.precedes(&entries[p].0)
            invariant
                p <= n,
                n == entries@.len(),
                entries_view(entries@) == old_entries,
                entries_wf(old_entries),
                forall|k: int| 0 <= k < n ==> (#[trigger] old_entries[k]).0 != path@,
                forall|k: int| 0 <= k < p ==> orders_before((#[trigger] old_entries[k]).0, path@),
            decreases n - p,
        {
            proof {
                lemma_mount_order_laws(path@, old_entries[p as int].0);
                reveal(orders_before);
            }
            p = p + 1;
        }
        proof {
            if p < n {
                reveal(orders_before);
            }
            lemma_put_insert(old_entries, p as int, path@, fs);
        }
        entries.insert(p, (path, fs));
        assert(entries_view(entries@) =~= old_entries.insert(p as int, (path@, fs)));
        self.entries = entries;
    }

    /// The mount point that `path` lies under: the first entry, in the
    /// table's order, whose mounted file system is still there (`upgrade`
    /// gives it) and whose path is a component-wise prefix of `path`. The
    /// answer is the mount point, the rest of `path` below it, and the file
    /// system. Since the table is deepest first, no deeper mount point over
    /// `path` has a file system still there.
    pub fn get<U, R>(&self, path: &KPath, upgrade: U) -> (r: Option<(KPath, KPath, R)>) where
        U: Fn(&V) -> Option<R>,
        requires
            forall|v: &V| upgrade.requires((v,)),
        ensures
            match r {
                Some((mp, rest, fs)) => exists|i: int|
                    0 <= i < self.spec_entries().len() && #[trigger] self.spec_entries()[i].0 == mp@
                        && is_prefix(mp@, path@) && rest@ == path@.skip(mp@.len() as int)
                        && upgrade.ensures((&self.spec_entries()[i].1,), Some(fs))
                        && (forall|j: int|
                        0 <= j < i && is_prefix(self.spec_entries()[j].0, path@) ==> upgrade.ensures(
                            (&(#[trigger] self.spec_entries()[j]).1,),
                            None,
                        )) && (forall|j: int|
                        0 <= j < self.spec_entries().len() && is_prefix(self.spec_entries()[j].0, path@)
                            && self.spec_entries()[j].0.len() > mp@.len() ==> upgrade.ensures(
                            (&(#[trigger] self.spec_entries()[j]).1,),
                            None,
                        )),
                None => forall|j: int|
                    0 <= j < self.spec_entries().len() && is_prefix(self.spec_entries()[j].0, path@)
                        ==> upgrade.ensures((&(#[trigger] self.spec_entries()[j]).1,), None),
            },
    {
        proof {
            use_type_invariant(self);
        }
        let n = self.entries.len();
        let mut i: usize = 0;
        while i < n
            invariant
                i <= n,
                n == self.entries@.len(),
                entries_wf(self.spec_entries()),
                forall|v: &V| upgrade.requires((v,)),
                forall|j: int|
                    0 <= j < i && is_prefix(self.spec_entries()[j].0, path@) ==> upgrade.ensures(
                        (&(#[trigger] self.spec_entries()[j]).1,),
                        None,
                    ),
            decreases n - i,
        {
            let entry = &self.entries[i];
            let found = upgrade(&entry.1);
            match found {
                Some(fs) => {
                    match path.strip_prefix(entry.0.as_path()) {
                        Some(rest) => {
                            let mp = entry.0.as_path().duplicate();
                            proof {
                                let e = self.spec_entries();
                                assert(e[i as int].0 == mp@);
                                assert forall|j: int|
                                    0 <= j < e.len() && is_prefix(e[j].0, path@) && e[j].0.len() > mp@.len()
                                    implies upgrade.ensures((&(#[trigger] e[j]).1,), None) by {
                                    if j > i {
                                        assert(orders_before(e[i as int].0, e[j].0));
                                        lemma_orders_before(e[i as int].0, e[j].0, e[j].0);
                                    }
                                }
                            }
                            return Some((mp, rest, fs));
                        },
                        None => {},
                    }
                },
                None => {},
            }
            i = i + 1;
        }
        None
    }
}

} // verus!

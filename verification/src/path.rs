//! Paths as sequences of components, as the mount table and the directory
//! entry cache read them: their order, their prefixes, their parents and
//! their text.
use vstd::prelude::*;

verus! {

/// One component of a path.
#[derive(Debug, PartialEq, Eq)]
pub enum PathComponent {
    /// The root directory `/` at the start of an absolute path.
    RootDir,
    /// `.`
    CurDir,
    /// `..`
    ParentDir,
    /// A file name, as bytes.
    Normal(Vec<u8>),
}

/// A component as a plain value: its rank in the component order (root,
/// `.`, `..`, names) and, for a name, its bytes.
pub type ComponentView = (int, Seq<u8>);

/// The plain value of a component.
pub open spec fn component_view(c: PathComponent) -> ComponentView {
    match c {
        PathComponent::RootDir => (1, Seq::<u8>::empty()),
        PathComponent::CurDir => (2, Seq::<u8>::empty()),
        PathComponent::ParentDir => (3, Seq::<u8>::empty()),
        PathComponent::Normal(n) => (4, n@),
    }
}

/// A path: its components, in order, and the text of each of its leading
/// parts as it was written (the text of the path itself, of its parent, and
/// so on), which need not be the components joined back together: a
/// written path may hold a trailing `/`, `//` or `.` segments.
pub struct KPath {
    components: Vec<PathComponent>,
    /// `texts[i]`: the written text of the path made of the first `i + 1`
    /// components.
    texts: Vec<Vec<u8>>,
}

impl View for KPath {
    type V = Seq<ComponentView>;

    closed spec fn view(&self) -> Seq<ComponentView> {
        Seq::new(self.components@.len(), |i: int| component_view(self.components@[i]))
    }
}

/// Lexicographic order of byte strings: -1, 0 or 1.
pub open spec fn bytes_order(a: Seq<u8>, b: Seq<u8>) -> int
    decreases a.len(),
{
    if a.len() == 0 {
        if b.len() == 0 {
            0
        } else {
            -1
        }
    } else if b.len() == 0 {
        1
    } else if a[0] < b[0] {
        -1
    } else if a[0] > b[0] {
        1
    } else {
        bytes_order(a.drop_first(), b.drop_first())
    }
}

/// Order of components: by rank, then names by their bytes.
pub open spec fn component_order(a: ComponentView, b: ComponentView) -> int {
    if a.0 < b.0 {
        -1
    } else if a.0 > b.0 {
        1
    } else {
        bytes_order(a.1, b.1)
    }
}

/// Lexicographic order of component sequences: -1, 0 or 1.
pub open spec fn path_order(a: Seq<ComponentView>, b: Seq<ComponentView>) -> int
    decreases a.len(),
{
    if a.len() == 0 {
        if b.len() == 0 {
            0
        } else {
            -1
        }
    } else if b.len() == 0 {
        1
    } else if component_order(a[0], b[0]) != 0 {
        component_order(a[0], b[0])
    } else {
        path_order(a.drop_first(), b.drop_first())
    }
}

/// Whether `base` is a component-wise prefix of `p`.
pub open spec fn is_prefix(base: Seq<ComponentView>, p: Seq<ComponentView>) -> bool {
    base.len() <= p.len() && p.subrange(0, base.len() as int) == base
}

/// The parent of a path: the path without its last component, unless it is
/// empty or ends in the root directory.
pub open spec fn parent_of(p: Seq<ComponentView>) -> Option<Seq<ComponentView>> {
    if p.len() == 0 || p.last().0 == 1 {
        None
    } else {
        Some(p.drop_last())
    }
}

/// The text of a component.
pub open spec fn component_text(c: ComponentView) -> Seq<u8> {
    if c.0 == 1 {
        seq![0x2fu8]
    } else if c.0 == 2 {
        seq![0x2eu8]
    } else if c.0 == 3 {
        seq![0x2eu8, 0x2eu8]
    } else {
        c.1
    }
}

/// The text of a path: its components joined by `/`, with no `/` added
/// after the root directory.
pub open spec fn path_text(p: Seq<ComponentView>) -> Seq<u8>
    decreases p.len(),
{
    if p.len() == 0 {
        Seq::empty()
    } else if p.len() == 1 {
        component_text(p[0])
    } else if p[p.len() - 2].0 == 1 {
        path_text(p.drop_last()) + component_text(p.last())
    } else {
        path_text(p.drop_last()) + seq![0x2fu8] + component_text(p.last())
    }
}

/// `bytes_order` of two byte strings that agree on their first `i` bytes is
/// that of what follows.
proof fn lemma_bytes_order_skip(a: Seq<u8>, b: Seq<u8>, i: int)
    requires
        0 <= i <= a.len(),
        i <= b.len(),
        a.subrange(0, i) == b.subrange(0, i),
    ensures
        bytes_order(a, b) == bytes_order(a.skip(i), b.skip(i)),
    decreases i,
{
    if i > 0 {
        assert(a[0] == a.subrange(0, i)[0]);
        assert(b[0] == b.subrange(0, i)[0]);
        assert(a.drop_first().subrange(0, i - 1) =~= a.subrange(0, i).drop_first());
        assert(b.drop_first().subrange(0, i - 1) =~= b.subrange(0, i).drop_first());
        lemma_bytes_order_skip(a.drop_first(), b.drop_first(), i - 1);
        assert(a.drop_first().skip(i - 1) =~= a.skip(i));
        assert(b.drop_first().skip(i - 1) =~= b.skip(i));
    } else {
        assert(a.skip(0) =~= a);
        assert(b.skip(0) =~= b);
    }
}

/// `path_order` of two paths that agree on their first `i` components is
/// that of what follows.
proof fn lemma_path_order_skip(a: Seq<ComponentView>, b: Seq<ComponentView>, i: int)
    requires
        0 <= i <= a.len(),
        i <= b.len(),
        a.subrange(0, i) == b.subrange(0, i),
    ensures
        path_order(a, b) == path_order(a.skip(i), b.skip(i)),
    decreases i,
{
    if i > 0 {
        assert(a[0] == a.subrange(0, i)[0]);
        assert(b[0] == b.subrange(0, i)[0]);
        lemma_bytes_order_zero(a[0].1, b[0].1);
        assert(a.drop_first().subrange(0, i - 1) =~= a.subrange(0, i).drop_first());
        assert(b.drop_first().subrange(0, i - 1) =~= b.subrange(0, i).drop_first());
        lemma_path_order_skip(a.drop_first(), b.drop_first(), i - 1);
        assert(a.drop_first().skip(i - 1) =~= a.skip(i));
        assert(b.drop_first().skip(i - 1) =~= b.skip(i));
    } else {
        assert(a.skip(0) =~= a);
        assert(b.skip(0) =~= b);
    }
}

/// Lexicographic order of two byte strings: -1, 0 or 1.
pub fn compare_bytes(a: &Vec<u8>, b: &Vec<u8>) -> (r: i8)
    ensures
        r == bytes_order(a@, b@),
{
    let mut i: usize = 0;
    while i < a.len() && i < b.len()
        invariant
            i <= a@.len(),
            i <= b@.len(),
            a@.subrange(0, i as int) == b@.subrange(0, i as int),
        decreases a@.len() - i,
    {
        if a[i] < b[i] {
            proof {
                lemma_bytes_order_skip(a@, b@, i as int);
            }
            return -1;
        }
        if a[i] > b[i] {
            proof {
                lemma_bytes_order_skip(a@, b@, i as int);
            }
            return 1;
        }
        assert(a@.subrange(0, i + 1) =~= a@.subrange(0, i as int).push(a@[i as int]));
        assert(b@.subrange(0, i + 1) =~= b@.subrange(0, i as int).push(b@[i as int]));
        i = i + 1;
    }
    proof {
        lemma_bytes_order_skip(a@, b@, i as int);
    }
    if i < a.len() {
        1
    } else if i < b.len() {
        -1
    } else {
        0
    }
}

impl PathComponent {
    /// The rank of the component in the component order.
    fn rank(&self) -> (r: u8)
        ensures
            r == component_view(*self).0,
    {
        match self {
            PathComponent::RootDir => 1,
            PathComponent::CurDir => 2,
            PathComponent::ParentDir => 3,
            PathComponent::Normal(_) => 4,
        }
    }

    /// The order of two components: -1, 0 or 1.
    pub fn compare(&self, other: &PathComponent) -> (r: i8)
        ensures
            r == component_order(component_view(*self), component_view(*other)),
    {
        let a = self.rank();
        let b = other.rank();
        if a < b {
            return -1;
        }
        if a > b {
            return 1;
        }
        match (self, other) {
            (PathComponent::Normal(x), PathComponent::Normal(y)) => compare_bytes(x, y),
            _ => 0,
        }
    }

    /// A copy of the component.
    pub fn duplicate(&self) -> (r: PathComponent)
        ensures
            component_view(r) == component_view(*self),
    {
        match self {
            PathComponent::RootDir => PathComponent::RootDir,
            PathComponent::CurDir => PathComponent::CurDir,
            PathComponent::ParentDir => PathComponent::ParentDir,
            PathComponent::Normal(n) => {
                let m = n.clone();
                assert(m@ =~= n@);
                PathComponent::Normal(m)
            },
        }
    }

    /// The text of the component.
    pub fn text(&self) -> (r: Vec<u8>)
        ensures
            r@ == component_text(component_view(*self)),
    {
        match self {
            PathComponent::RootDir => vec![0x2fu8],
            PathComponent::CurDir => vec![0x2eu8],
            PathComponent::ParentDir => vec![0x2eu8, 0x2eu8],
            PathComponent::Normal(n) => {
                let m = n.clone();
                assert(m@ =~= n@);
                m
            },
        }
    }
}

/// The plain values of a sequence of components.
pub open spec fn components_view(c: Seq<PathComponent>) -> Seq<ComponentView> {
    Seq::new(c.len(), |i: int| component_view(c[i]))
}

impl KPath {
    #[verifier::type_invariant]
    spec fn texts_cover_components(&self) -> bool {
        self.texts@.len() == self.components@.len()
    }

    /// The written text of the path made of its first `k` components (empty
    /// for none).
    pub closed spec fn prefix_text(&self, k: int) -> Seq<u8> {
        if 0 < k <= self.texts@.len() {
            self.texts@[k - 1]@
        } else {
            Seq::empty()
        }
    }

    /// The written text of the path, under which the directory cache files
    /// it.
    pub open spec fn spec_key(&self) -> Seq<u8> {
        self.prefix_text(self@.len() as int)
    }

    /// The path made of `components`, written with its components joined
    /// by `/` (see `path_text`).
    pub fn new(components: Vec<PathComponent>) -> (r: KPath)
        ensures
            r@ == components_view(components@),
            forall|k: int| 0 <= k <= r@.len() ==> #[trigger] r.prefix_text(k) == path_text(r@.subrange(0, k)),
    {
        let ghost v = components_view(components@);
        let mut texts: Vec<Vec<u8>> = Vec::new();
        let mut out: Vec<u8> = Vec::new();
        let mut i: usize = 0;
        while i < components.len()
            invariant
                i <= components@.len(),
                v == components_view(components@),
                texts@.len() == i,
                out@ == path_text(v.subrange(0, i as int)),
                forall|j: int| 0 <= j < i ==> (#[trigger] texts@[j])@ == path_text(v.subrange(0, j + 1)),
            decreases components@.len() - i,
        {
            let ghost before = v.subrange(0, i as int);
            let mut piece = components[i].text();
            if i > 0 {
                if let PathComponent::RootDir = &components[i - 1] {
                } else {
                    out.push(0x2fu8);
                }
            }
            out.append(&mut piece);
            proof {
                let now = v.subrange(0, i + 1);
                assert(now.drop_last() =~= before);
                assert(now.last() == v[i as int]);
                if i > 0 {
                    assert(now[now.len() - 2] == v[i - 1]);
                }
                assert(out@ =~= path_text(now));
            }
            let copy = out.clone();
            assert(copy@ =~= out@);
            texts.push(copy);
            i = i + 1;
        }
        let r = KPath { components, texts };
        assert(r@ =~= v);
        assert forall|k: int| 0 <= k <= r@.len() implies #[trigger] r.prefix_text(k) == path_text(r@.subrange(0, k)) by {
            if k == 0 {
                assert(r@.subrange(0, 0) =~= Seq::<ComponentView>::empty());
            } else {
                assert(r@.subrange(0, k) =~= v.subrange(0, (k - 1) + 1));
            }
        }
        r
    }

    /// The path made of `components`, where `texts[i]` is the written text
    /// of the path made of the first `i + 1` of them.
    pub fn with_texts(components: Vec<PathComponent>, texts: Vec<Vec<u8>>) -> (r: KPath)
        requires
            texts@.len() == components@.len(),
        ensures
            r@ == components_view(components@),
            forall|k: int| 0 < k <= r@.len() ==> #[trigger] r.prefix_text(k) == texts@[k - 1]@,
    {
        let r = KPath { components, texts };
        assert(r@ =~= components_view(r.components@));
        r
    }

    /// The written text of the path (`spec_key`).
    pub fn key(&self) -> (r: Vec<u8>)
        ensures
            r@ == self.spec_key(),
    {
        proof {
            use_type_invariant(self);
        }
        let n = self.texts.len();
        if n == 0 {
            return Vec::new();
        }
        let r = self.texts[n - 1].clone();
        assert(r@ =~= self.texts@[n - 1]@);
        r
    }

    /// The number of components.
    pub fn component_count(&self) -> (r: usize)
        ensures
            r == self@.len(),
    {
        self.components.len()
    }

    /// A copy of the first `n` components, with their texts.
    fn prefix_copy(&self, n: usize) -> (r: KPath)
        requires
            n <= self@.len(),
        ensures
            r@ == self@.subrange(0, n as int),
            forall|k: int| 0 <= k <= n ==> #[trigger] r.prefix_text(k) == self.prefix_text(k),
    {
        proof {
            use_type_invariant(self);
        }
        let mut texts: Vec<Vec<u8>> = Vec::new();
        let mut j: usize = 0;
        while j < n
            invariant
                j <= n,
                n <= self.texts@.len(),
                texts@.len() == j,
                forall|m: int| 0 <= m < j ==> (#[trigger] texts@[m])@ == self.texts@[m]@,
            decreases n - j,
        {
            let t = self.texts[j].clone();
            assert(t@ =~= self.texts@[j as int]@);
            texts.push(t);
            j = j + 1;
        }
        let mut out: Vec<PathComponent> = Vec::new();
        let mut i: usize = 0;
        while i < n
            invariant
                i <= n,
                n <= self.components@.len(),
                out@.len() == i,
                forall|j: int| 0 <= j < i ==> component_view(#[trigger] out@[j]) == component_view(
                    self.components@[j],
                ),
            decreases n - i,
        {
            let c = self.components[i].duplicate();
            out.push(c);
            i = i + 1;
        }
        let r = KPath { components: out, texts };
        assert(r@ =~= self@.subrange(0, n as int));
        r
    }

    /// A copy of the components from the `n`th on.
    fn suffix_copy(&self, n: usize) -> (r: KPath)
        requires
            n <= self@.len(),
        ensures
            r@ == self@.skip(n as int),
    {
        let mut out: Vec<PathComponent> = Vec::new();
        let mut i: usize = n;
        while i < self.components.len()
            invariant
                n <= i <= self.components@.len(),
                out@.len() == i - n,
                forall|j: int| 0 <= j < i - n ==> component_view(#[trigger] out@[j]) == component_view(
                    self.components@[j + n],
                ),
            decreases self.components@.len() - i,
        {
            let c = self.components[i].duplicate();
            out.push(c);
            i = i + 1;
        }
        assert(components_view(out@) =~= self@.skip(n as int));
        KPath::new(out)
    }

    /// A copy of the path.
    pub fn duplicate(&self) -> (r: KPath)
        ensures
            r@ == self@,
            forall|k: int| 0 <= k <= r@.len() ==> #[trigger] r.prefix_text(k) == self.prefix_text(k),
    {
        let r = self.prefix_copy(self.components.len());
        assert(self@.subrange(0, self@.len() as int) =~= self@);
        r
    }

    /// The parent: the path without its last component, or `None` for the
    /// empty path and for a path that ends in the root directory.
    pub fn parent(&self) -> (r: Option<KPath>)
        ensures
            match r {
                Some(p) => parent_of(self@) == Some(p@) && forall|k: int|
                    0 <= k <= p@.len() ==> #[trigger] p.prefix_text(k) == self.prefix_text(k),
                None => parent_of(self@) is None,
            },
    {
        let n = self.components.len();
        if n == 0 {
            return None;
        }
        if let PathComponent::RootDir = &self.components[n - 1] {
            return None;
        }
        let p = self.prefix_copy(n - 1);
        assert(self@.subrange(0, n - 1) =~= self@.drop_last());
        Some(p)
    }

    /// The order of two paths: -1, 0 or 1.
    pub fn compare(&self, other: &KPath) -> (r: i8)
        ensures
            r == path_order(self@, other@),
    {
        let mut i: usize = 0;
        while i < self.components.len() && i < other.components.len()
            invariant
                i <= self@.len(),
                i <= other@.len(),
                self@.subrange(0, i as int) == other@.subrange(0, i as int),
            decreases self@.len() - i,
        {
            let c = self.components[i].compare(&other.components[i]);
            if c != 0 {
                proof {
                    lemma_path_order_skip(self@, other@, i as int);
                }
                return c;
            }
            proof {
                lemma_bytes_order_zero(self@[i as int].1, other@[i as int].1);
            }
            assert(self@.subrange(0, i + 1) =~= self@.subrange(0, i as int).push(self@[i as int]));
            assert(other@.subrange(0, i + 1) =~= other@.subrange(0, i as int).push(other@[i as int]));
            i = i + 1;
        }
        proof {
            lemma_path_order_skip(self@, other@, i as int);
        }
        if i < self.components.len() {
            1
        } else if i < other.components.len() {
            -1
        } else {
            0
        }
    }

    /// Whether two paths have the same components.
    pub fn same_as(&self, other: &KPath) -> (r: bool)
        ensures
            r == (self@ == other@),
    {
        proof {
            lemma_path_order_zero(self@, other@);
        }
        self.compare(other) == 0
    }

    /// What follows `base` in this path, when `base` is a component-wise
    /// prefix of it.
    pub fn strip_prefix(&self, base: &KPath) -> (r: Option<KPath>)
        ensures
            match r {
                Some(rest) => is_prefix(base@, self@) && rest@ == self@.skip(base@.len() as int),
                None => !is_prefix(base@, self@),
            },
    {
        let n = base.components.len();
        if n > self.components.len() {
            return None;
        }
        let mut i: usize = 0;
        while i < n
            invariant
                i <= n,
                n == base@.len(),
                n <= self@.len(),
                self@.subrange(0, i as int) == base@.subrange(0, i as int),
            decreases n - i,
        {
            if self.components[i].compare(&base.components[i]) != 0 {
                proof {
                    lemma_bytes_order_zero(self@[i as int].1, base@[i as int].1);
                }
                assert(self@.subrange(0, n as int)[i as int] == self@[i as int]);
                assert(base@.subrange(0, n as int) =~= base@);
                return None;
            }
            proof {
                lemma_bytes_order_zero(self@[i as int].1, base@[i as int].1);
            }
            assert(self@.subrange(0, i + 1) =~= self@.subrange(0, i as int).push(self@[i as int]));
            assert(base@.subrange(0, i + 1) =~= base@.subrange(0, i as int).push(base@[i as int]));
            i = i + 1;
        }
        assert(base@.subrange(0, n as int) =~= base@);
        Some(self.suffix_copy(n))
    }

    /// The text of the path (see `path_text`).
    pub fn text(&self) -> (r: Vec<u8>)
        ensures
            r@ == path_text(self@),
    {
        let mut out: Vec<u8> = Vec::new();
        let mut i: usize = 0;
        while i < self.components.len()
            invariant
                i <= self@.len(),
                out@ == path_text(self@.subrange(0, i as int)),
            decreases self@.len() - i,
        {
            let ghost before = self@.subrange(0, i as int);
            let mut piece = self.components[i].text();
            if i > 0 {
                if let PathComponent::RootDir = &self.components[i - 1] {
                } else {
                    out.push(0x2fu8);
                }
            }
            out.append(&mut piece);
            proof {
                let now = self@.subrange(0, i + 1);
                assert(now.drop_last() =~= before);
                assert(now.last() == self@[i as int]);
                if i > 0 {
                    assert(now[now.len() - 2] == self@[i - 1]);
                }
                assert(out@ =~= path_text(now));
            }
            i = i + 1;
        }
        assert(self@.subrange(0, self@.len() as int) =~= self@);
        out
    }
}

/// `bytes_order` is -1, 0 or 1.
pub proof fn lemma_bytes_order_range(a: Seq<u8>, b: Seq<u8>)
    ensures
        -1 <= bytes_order(a, b) <= 1,
    decreases a.len(),
{
    if a.len() > 0 && b.len() > 0 {
        lemma_bytes_order_range(a.drop_first(), b.drop_first());
    }
}

/// `path_order` is -1, 0 or 1.
pub proof fn lemma_path_order_range(a: Seq<ComponentView>, b: Seq<ComponentView>)
    ensures
        -1 <= path_order(a, b) <= 1,
    decreases a.len(),
{
    if a.len() > 0 && b.len() > 0 {
        lemma_bytes_order_range(a[0].1, b[0].1);
        lemma_path_order_range(a.drop_first(), b.drop_first());
    }
}

/// `bytes_order` is 0 exactly on equal byte strings.
pub proof fn lemma_bytes_order_zero(a: Seq<u8>, b: Seq<u8>)
    ensures
        (bytes_order(a, b) == 0) == (a == b),
    decreases a.len(),
{
    if a.len() > 0 && b.len() > 0 && a[0] == b[0] {
        lemma_bytes_order_zero(a.drop_first(), b.drop_first());
        if a.drop_first() == b.drop_first() {
            assert(a =~= seq![a[0]] + a.drop_first());
            assert(b =~= seq![b[0]] + b.drop_first());
        }
    }
    if a.len() == 0 && b.len() == 0 {
        assert(a =~= b);
    }
}

/// `path_order` is 0 exactly on equal paths.
pub proof fn lemma_path_order_zero(a: Seq<ComponentView>, b: Seq<ComponentView>)
    ensures
        (path_order(a, b) == 0) == (a == b),
    decreases a.len(),
{
    if a.len() > 0 && b.len() > 0 {
        lemma_bytes_order_zero(a[0].1, b[0].1);
        if component_order(a[0], b[0]) == 0 {
            lemma_path_order_zero(a.drop_first(), b.drop_first());
            if a.drop_first() == b.drop_first() {
                assert(a =~= seq![a[0]] + a.drop_first());
                assert(b =~= seq![b[0]] + b.drop_first());
            }
        }
    }
    if a.len() == 0 && b.len() == 0 {
        assert(a =~= b);
    }
}

/// A prefix and what follows it in a path make up the path.
pub proof fn lemma_prefix_and_rest(base: Seq<ComponentView>, p: Seq<ComponentView>)
    requires
        is_prefix(base, p),
    ensures
        base + p.skip(base.len() as int) == p,
{
    assert(base + p.skip(base.len() as int) =~= p);
}

/// A parent is the path with its last component removed, and a prefix of it.
pub proof fn lemma_parent_is_prefix(p: Seq<ComponentView>)
    ensures
        parent_of(p) matches Some(q) ==> is_prefix(q, p) && q.len() + 1 == p.len(),
{
    if parent_of(p) is Some {
        assert(p.subrange(0, p.len() - 1) =~= p.drop_last());
    }
}

/// `bytes_order` is antisymmetric.
pub proof fn lemma_bytes_order_antisymmetric(a: Seq<u8>, b: Seq<u8>)
    ensures
        bytes_order(a, b) == -bytes_order(b, a),
    decreases a.len(),
{
    if a.len() > 0 && b.len() > 0 {
        lemma_bytes_order_antisymmetric(a.drop_first(), b.drop_first());
    }
}

/// `path_order` is antisymmetric: swapping the paths flips the order.
pub proof fn lemma_path_order_antisymmetric(a: Seq<ComponentView>, b: Seq<ComponentView>)
    ensures
        path_order(a, b) == -path_order(b, a),
    decreases a.len(),
{
    if a.len() > 0 && b.len() > 0 {
        lemma_bytes_order_antisymmetric(a[0].1, b[0].1);
        lemma_path_order_antisymmetric(a.drop_first(), b.drop_first());
    }
}

/// `bytes_order` is transitive.
pub proof fn lemma_bytes_order_transitive(a: Seq<u8>, b: Seq<u8>, c: Seq<u8>)
    requires
        bytes_order(a, b) == -1,
        bytes_order(b, c) == -1,
    ensures
        bytes_order(a, c) == -1,
    decreases a.len(),
{
    if a.len() > 0 && b.len() > 0 && c.len() > 0 && a[0] == b[0] && b[0] == c[0] {
        lemma_bytes_order_transitive(a.drop_first(), b.drop_first(), c.drop_first());
    }
}

/// `path_order` is transitive.
pub proof fn lemma_path_order_transitive(a: Seq<ComponentView>, b: Seq<ComponentView>, c: Seq<ComponentView>)
    requires
        path_order(a, b) == -1,
        path_order(b, c) == -1,
    ensures
        path_order(a, c) == -1,
    decreases a.len(),
{
    if a.len() > 0 && b.len() > 0 && c.len() > 0 {
        lemma_bytes_order_range(a[0].1, b[0].1);
        lemma_bytes_order_range(b[0].1, c[0].1);
        lemma_bytes_order_zero(a[0].1, b[0].1);
        lemma_bytes_order_zero(b[0].1, c[0].1);
        lemma_bytes_order_zero(a[0].1, c[0].1);
        if component_order(a[0], b[0]) == 0 && component_order(b[0], c[0]) == 0 {
            lemma_path_order_transitive(a.drop_first(), b.drop_first(), c.drop_first());
        } else if component_order(a[0], b[0]) == -1 && component_order(b[0], c[0]) == -1 {
            if a[0].0 == b[0].0 && b[0].0 == c[0].0 {
                lemma_bytes_order_transitive(a[0].1, b[0].1, c[0].1);
            }
        }
    }
}

} // verus!

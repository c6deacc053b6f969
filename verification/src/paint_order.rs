//! The paint order of each parent's children: document order, stably reordered by
//! z-index, cached per parent until the parent is invalidated.
use vstd::prelude::*;
use crate::id::ElementId;

verus! {

/// A child with its z-index.
pub type Keyed = (ElementId, i32);

/// An item has z-index `z`.
pub open spec fn has_key(z: i32) -> spec_fn(Keyed) -> bool {
    |e: Keyed| e.1 == z
}

/// The items of `s` whose z-index is `z`, in their order in `s`.
pub open spec fn with_key(s: Seq<Keyed>, z: i32) -> Seq<Keyed> {
    s.filter(has_key(z))
}

/// The z-indices of `s` never decrease.
pub open spec fn sorted_by_key(s: Seq<Keyed>) -> bool {
    forall|i: int, j: int| 0 <= i < j < s.len() ==> (#[trigger] s[i]).1 <= (#[trigger] s[j]).1
}

/// `out` is `input` stably sorted by z-index: ordered by z-index, and for every
/// z-index, the items with that index in their input order.
pub open spec fn stable_sort_of(input: Seq<Keyed>, out: Seq<Keyed>) -> bool {
    &&& sorted_by_key(out)
    &&& forall|z: i32| #[trigger] with_key(out, z) == with_key(input, z)
}

/// The children paired with their z-indices.
pub open spec fn keyed(children: Seq<ElementId>, z: Seq<i32>) -> Seq<Keyed> {
    Seq::new(children.len(), |i: int| (children[i], z[i]))
}

/// `order` is the paint order of `children` under z-indices `z`: the children stably
/// sorted by z-index, ties kept in document order.
pub open spec fn is_paint_order(children: Seq<ElementId>, z: Seq<i32>, order: Seq<ElementId>) -> bool {
    exists|out: Seq<Keyed>|
        stable_sort_of(keyed(children, z), out) && order == out.map_values(|e: Keyed| e.0)
}

proof fn lemma_with_key_push(s: Seq<Keyed>, x: Keyed, z: i32)
    ensures
        with_key(s.push(x), z) == if x.1 == z {
            with_key(s, z).push(x)
        } else {
            with_key(s, z)
        },
{
    s.lemma_filter_push(x, has_key(z));
}

proof fn lemma_with_key_none(s: Seq<Keyed>, z: i32)
    requires
        forall|i: int| 0 <= i < s.len() ==> (#[trigger] s[i]).1 != z,
    ensures
        with_key(s, z) == Seq::<Keyed>::empty(),
    decreases s.len(),
{
    reveal(Seq::filter);
    if s.len() > 0 {
        lemma_with_key_none(s.drop_last(), z);
    }
}

proof fn lemma_insert_keeps_keys(out: Seq<Keyed>, p: int, x: Keyed, z: i32)
    requires
        0 <= p <= out.len(),
        forall|q: int| p <= q < out.len() ==> (#[trigger] out[q]).1 > x.1,
    ensures
        with_key(out.insert(p, x), z) == if x.1 == z {
            with_key(out, z).push(x)
        } else {
            with_key(out, z)
        },
{
    let a = out.subrange(0, p);
    let b = out.subrange(p, out.len() as int);
    assert(out =~= a + b);
    assert(out.insert(p, x) =~= a.push(x) + b);
    Seq::filter_distributes_over_add(a, b, has_key(z));
    Seq::filter_distributes_over_add(a.push(x), b, has_key(z));
    lemma_with_key_push(a, x, z);
    if x.1 == z {
        assert forall|i: int| 0 <= i < b.len() implies (#[trigger] b[i]).1 != z by {
            assert(b[i] == out[p + i]);
        }
        lemma_with_key_none(b, z);
        assert(with_key(b, z) =~= Seq::<Keyed>::empty());
        assert(with_key(a, z) + Seq::<Keyed>::empty() =~= with_key(a, z));
        assert(with_key(a, z).push(x) + Seq::<Keyed>::empty() =~= with_key(a, z).push(x));
    }
}

/// The children stably sorted by z-index, ties kept in document order.
pub fn sort_by_z_index(children: &[ElementId], z_index: &[i32]) -> (r: Vec<ElementId>)
    requires
        children@.len() == z_index@.len(),
    ensures
        is_paint_order(children@, z_index@, r@),
{
    let ghost input = keyed(children@, z_index@);
    let mut out: Vec<Keyed> = Vec::new();
    let mut i: usize = 0;
    while i < children.len()
        invariant
            children@.len() == z_index@.len(),
            input == keyed(children@, z_index@),
            i <= children@.len(),
            sorted_by_key(out@),
            forall|z: i32| #[trigger] with_key(out@, z) == with_key(input.take(i as int), z),
        decreases children@.len() - i,
    {
        let x: Keyed = (children[i], z_index[i]);
        let mut p: usize = 0;
        while p < out.len() && out[p].1 <= x.1
            invariant
                p <= out@.len(),
                forall|q: int| 0 <= q < p ==> (#[trigger] out@[q]).1 <= x.1,
            decreases out@.len() - p,
        {
            p = p + 1;
        }
        let ghost prev = out@;
        proof {
            assert forall|q: int| p <= q < prev.len() implies (#[trigger] prev[q]).1 > x.1 by {
                if q > p {
                    assert(prev[p as int].1 <= prev[q].1);
                }
            }
        }
        out.insert(p, x);
        proof {
            assert(input.take(i + 1) =~= input.take(i as int).push(x));
            assert forall|z: i32| #[trigger] with_key(out@, z) == with_key(input.take(i + 1), z) by {
                lemma_insert_keeps_keys(prev, p as int, x, z);
                lemma_with_key_push(input.take(i as int), x, z);
            }
            assert forall|a: int, b: int| 0 <= a < b < out@.len() implies (#[trigger] out@[a]).1
                <= (#[trigger] out@[b]).1 by {
                if b < p {
                    assert(out@[a] == prev[a] && out@[b] == prev[b]);
                } else if b == p {
                    assert(out@[a] == prev[a]);
                } else if a == p {
                    assert(out@[b] == prev[b - 1]);
                } else if a < p {
                    assert(out@[a] == prev[a] && out@[b] == prev[b - 1]);
                } else {
                    assert(out@[a] == prev[a - 1] && out@[b] == prev[b - 1]);
                }
            }
        }
        i = i + 1;
    }
    assert(input.take(children@.len() as int) =~= input);
    let mut ids: Vec<ElementId> = Vec::new();
    let mut k: usize = 0;
    while k < out.len()
        invariant
            k <= out@.len(),
            ids@ == out@.take(k as int).map_values(|e: Keyed| e.0),
        decreases out@.len() - k,
    {
        ids.push(out[k].0);
        assert(out@.take(k + 1).map_values(|e: Keyed| e.0) =~= out@.take(k as int).map_values(
            |e: Keyed| e.0,
        ).push(out@[k as int].0));
        k = k + 1;
    }
    assert(out@.take(out@.len() as int) =~= out@);
    assert(stable_sort_of(input, out@));
    ids
}

proof fn lemma_with_key_empty(s: Seq<Keyed>, z: i32)
    requires
        s.len() == 0,
    ensures
        with_key(s, z).len() == 0,
{
    reveal(Seq::filter);
}

proof fn lemma_key_present(s: Seq<Keyed>, z: i32)
    ensures
        with_key(s, z).len() > 0 <==> exists|i: int| 0 <= i < s.len() && (#[trigger] s[i]).1 == z,
    decreases s.len(),
{
    if s.len() == 0 {
        lemma_with_key_empty(s, z);
    } else {
        let d = s.drop_last();
        assert(s =~= d.push(s.last()));
        lemma_with_key_push(d, s.last(), z);
        lemma_key_present(d, z);
        if exists|i: int| 0 <= i < d.len() && (#[trigger] d[i]).1 == z {
            let w = choose|i: int| 0 <= i < d.len() && (#[trigger] d[i]).1 == z;
            assert(s[w] == d[w]);
        }
        if exists|i: int| 0 <= i < s.len() && (#[trigger] s[i]).1 == z {
            let w = choose|i: int| 0 <= i < s.len() && (#[trigger] s[i]).1 == z;
            if w < d.len() {
                assert(d[w] == s[w]);
            }
        }
    }
}

proof fn lemma_sorted_by_filters_unique(a: Seq<Keyed>, b: Seq<Keyed>)
    requires
        sorted_by_key(a),
        sorted_by_key(b),
        forall|z: i32| #[trigger] with_key(a, z) == with_key(b, z),
    ensures
        a == b,
    decreases a.len() + b.len(),
{
    if a.len() == 0 && b.len() == 0 {
        assert(a =~= b);
    } else if a.len() == 0 {
        lemma_key_present(b, b.last().1);
        lemma_with_key_empty(a, b.last().1);
        assert(b[b.len() - 1].1 == b.last().1);
    } else if b.len() == 0 {
        lemma_key_present(a, a.last().1);
        lemma_with_key_empty(b, a.last().1);
        assert(a[a.len() - 1].1 == a.last().1);
    } else {
        let ka = a.last().1;
        let kb = b.last().1;
        assert(a[a.len() - 1] == a.last());
        assert(b[b.len() - 1] == b.last());
        lemma_key_present(a, ka);
        lemma_key_present(b, ka);
        lemma_key_present(a, kb);
        lemma_key_present(b, kb);
        let j = choose|i: int| 0 <= i < b.len() && (#[trigger] b[i]).1 == ka;
        assert(b[j].1 <= b[b.len() - 1].1);
        let i = choose|i: int| 0 <= i < a.len() && (#[trigger] a[i]).1 == kb;
        assert(a[i].1 <= a[a.len() - 1].1);
        let k = ka;
        let da = a.drop_last();
        let db = b.drop_last();
        assert(a =~= da.push(a.last()));
        assert(b =~= db.push(b.last()));
        lemma_with_key_push(da, a.last(), k);
        lemma_with_key_push(db, b.last(), k);
        assert(with_key(da, k).push(a.last()) == with_key(db, k).push(b.last()));
        assert(with_key(da, k).push(a.last()).last() == a.last());
        assert(with_key(da, k) =~= with_key(da, k).push(a.last()).drop_last());
        assert(with_key(db, k) =~= with_key(db, k).push(b.last()).drop_last());
        assert forall|z: i32| #[trigger] with_key(da, z) == with_key(db, z) by {
            lemma_with_key_push(da, a.last(), z);
            lemma_with_key_push(db, b.last(), z);
        }
        assert forall|x: int, y: int| 0 <= x < y < da.len() implies (#[trigger] da[x]).1 <= (
        #[trigger] da[y]).1 by {
            assert(da[x] == a[x] && da[y] == a[y]);
        }
        assert forall|x: int, y: int| 0 <= x < y < db.len() implies (#[trigger] db[x]).1 <= (
        #[trigger] db[y]).1 by {
            assert(db[x] == b[x] && db[y] == b[y]);
        }
        lemma_sorted_by_filters_unique(da, db);
    }
}

/// The paint order is a function of the children and their z-indices: two orders
/// that both are paint orders of the same children are equal.
pub proof fn law_paint_order_is_unique(
    children: Seq<ElementId>,
    z: Seq<i32>,
    o1: Seq<ElementId>,
    o2: Seq<ElementId>,
)
    requires
        is_paint_order(children, z, o1),
        is_paint_order(children, z, o2),
    ensures
        o1 == o2,
{
    let input = keyed(children, z);
    let a = choose|out: Seq<Keyed>|
        stable_sort_of(input, out) && o1 == out.map_values(|e: Keyed| e.0);
    let b = choose|out: Seq<Keyed>|
        stable_sort_of(input, out) && o2 == out.map_values(|e: Keyed| e.0);
    assert forall|zz: i32| #[trigger] with_key(a, zz) == with_key(b, zz) by {
        assert(with_key(a, zz) == with_key(input, zz));
        assert(with_key(b, zz) == with_key(input, zz));
    }
    lemma_sorted_by_filters_unique(a, b);
}


/// The cached paint order of one parent.
pub struct OrderModel {
    /// The children in paint order, as last rebuilt.
    pub children: Seq<ElementId>,
    /// The order must be rebuilt before the next read.
    pub dirty: bool,
    /// How many times the order was rebuilt.
    pub rebuilds: nat,
}

struct ParentPaintOrder {
    children: Vec<ElementId>,
    dirty: bool,
    rebuild_count: usize,
}

/// The paint order of every registered parent.
pub struct PaintOrder {
    parents: Vec<(ElementId, ParentPaintOrder)>,
}

spec fn model_of(o: ParentPaintOrder) -> OrderModel {
    OrderModel { children: o.children@, dirty: o.dirty, rebuilds: o.rebuild_count as nat }
}

/// The entry of `parent` in a list with unique keys.
spec fn entry_in(entries: Seq<(ElementId, ParentPaintOrder)>, parent: ElementId) -> Option<OrderModel> {
    if exists|i: int| 0 <= i < entries.len() && (#[trigger] entries[i]).0 == parent {
        Some(model_of(entries[choose|i: int| 0 <= i < entries.len() && (#[trigger] entries[i]).0 == parent].1))
    } else {
        None
    }
}

spec fn unique_keys(entries: Seq<(ElementId, ParentPaintOrder)>) -> bool {
    forall|i: int, j: int|
        0 <= i < entries.len() && 0 <= j < entries.len() && (#[trigger] entries[i]).0 == (
        #[trigger] entries[j]).0 ==> i == j
}

proof fn lemma_entry_at(entries: Seq<(ElementId, ParentPaintOrder)>, i: int)
    requires
        unique_keys(entries),
        0 <= i < entries.len(),
    ensures
        entry_in(entries, entries[i].0) == Some(model_of(entries[i].1)),
{
}

impl PaintOrder {
    /// The cached order of `parent`, or `None` when it is not registered.
    pub closed spec fn order_of(&self, parent: ElementId) -> Option<OrderModel> {
        entry_in(self.parents@, parent)
    }

    /// Each parent is registered at most once.
    pub closed spec fn wf(&self) -> bool {
        unique_keys(self.parents@)
    }

    /// Nothing is registered.
    pub fn new() -> (r: Self)
        ensures
            r.wf(),
            forall|p: ElementId| r.order_of(p) is None,
    {
        PaintOrder { parents: Vec::new() }
    }

    fn find(&self, parent: ElementId) -> (r: Option<usize>)
        requires
            self.wf(),
        ensures
            match r {
                Some(i) => i < self.parents@.len() && self.parents@[i as int].0 == parent,
                None => self.order_of(parent) is None,
            },
    {
        let mut i: usize = 0;
        while i < self.parents.len()
            invariant
                i <= self.parents@.len(),
                forall|k: int| 0 <= k < i ==> (#[trigger] self.parents@[k]).0 != parent,
            decreases self.parents@.len() - i,
        {
            if self.parents[i].0 == parent {
                return Some(i);
            }
            i = i + 1;
        }
        None
    }

    /// Registers `id` as a parent whose order must be built; an already registered
    /// parent keeps its cached order.
    pub fn register(&mut self, id: ElementId)
        requires
            old(self).wf(),
        ensures
            final(self).wf(),
            final(self).order_of(id) == match old(self).order_of(id) {
                Some(o) => Some(o),
                None => Some(OrderModel { children: Seq::empty(), dirty: true, rebuilds: 0 }),
            },
            forall|p: ElementId| p != id ==> #[trigger] final(self).order_of(p) == old(self).order_of(p),
    {
        match self.find(id) {
            Some(i) => {
                proof {
                    lemma_entry_at(self.parents@, i as int);
                }
            },
            None => {
                let ghost prev = self.parents@;
                self.parents.push((id, ParentPaintOrder { children: Vec::new(), dirty: true, rebuild_count: 0 }));
                proof {
                    let n = prev.len() as int;
                    assert(self.parents@[n].0 == id);
                    assert forall|i: int, j: int|
                        0 <= i < self.parents@.len() && 0 <= j < self.parents@.len() && (#[trigger] self.parents@[i]).0 == (
                        #[trigger] self.parents@[j]).0 implies i == j by {
                        if i < n && j < n {
                            assert(self.parents@[i] == prev[i] && self.parents@[j] == prev[j]);
                        } else if i < n {
                            assert(self.parents@[i] == prev[i]);
                        } else if j < n {
                            assert(self.parents@[j] == prev[j]);
                        }
                    }
                    lemma_entry_at(self.parents@, n);
                    assert(self.parents@[n].1.children@ =~= Seq::<ElementId>::empty());
                    assert forall|p: ElementId| p != id implies #[trigger] entry_in(self.parents@, p) == entry_in(prev, p) by {
                        if exists|i: int| 0 <= i < prev.len() && (#[trigger] prev[i]).0 == p {
                            let w = choose|i: int| 0 <= i < prev.len() && (#[trigger] prev[i]).0 == p;
                            assert(self.parents@[w] == prev[w]);
                            lemma_entry_at(prev, w);
                            lemma_entry_at(self.parents@, w);
                        } else {
                            assert forall|i: int| 0 <= i < self.parents@.len() implies (#[trigger] self.parents@[i]).0 != p by {
                                if i < n {
                                    assert(self.parents@[i] == prev[i]);
                                }
                            }
                        }
                    }
                }
            },
        }
    }

    /// Marks the order of `parent` for rebuilding; an unregistered parent is ignored.
    pub fn invalidate(&mut self, parent: ElementId)
        requires
            old(self).wf(),
        ensures
            final(self).wf(),
            final(self).order_of(parent) == match old(self).order_of(parent) {
                Some(o) => Some(OrderModel { dirty: true, ..o }),
                None => None,
            },
            forall|p: ElementId| p != parent ==> #[trigger] final(self).order_of(p) == old(self).order_of(p),
    {
        if let Some(i) = self.find(parent) {
            let ghost prev = self.parents@;
            let mut entry = self.parents.remove(i);
            entry.1.dirty = true;
            self.parents.insert(i, entry);
            proof {
                self.lemma_replaced(prev, i as int);
            }
        }
    }

    proof fn lemma_replaced(&self, prev: Seq<(ElementId, ParentPaintOrder)>, i: int)
        requires
            unique_keys(prev),
            0 <= i < prev.len(),
            self.parents@.len() == prev.len(),
            self.parents@[i].0 == prev[i].0,
            forall|k: int| 0 <= k < prev.len() && k != i ==> self.parents@[k] == prev[k],
        ensures
            self.wf(),
            self.order_of(prev[i].0) == Some(model_of(self.parents@[i].1)),
            forall|p: ElementId| p != prev[i].0 ==> #[trigger] self.order_of(p) == entry_in(prev, p),
    {
        let s = self.parents@;
        assert forall|a: int, b: int|
            0 <= a < s.len() && 0 <= b < s.len() && (#[trigger] s[a]).0 == (#[trigger] s[b]).0 implies a == b by {
            assert(s[a].0 == prev[a].0);
            assert(s[b].0 == prev[b].0);
        }
        lemma_entry_at(s, i);
        assert forall|p: ElementId| p != prev[i].0 implies #[trigger] self.order_of(p) == entry_in(prev, p) by {
            if exists|k: int| 0 <= k < prev.len() && (#[trigger] prev[k]).0 == p {
                let w = choose|k: int| 0 <= k < prev.len() && (#[trigger] prev[k]).0 == p;
                assert(s[w] == prev[w]);
                lemma_entry_at(prev, w);
                lemma_entry_at(s, w);
            } else {
                assert forall|k: int| 0 <= k < s.len() implies (#[trigger] s[k]).0 != p by {
                    assert(s[k].0 == prev[k].0);
                }
            }
        }
    }

    /// The paint order of `parent`'s children, from `document_children` and their
    /// z-indices. An unregistered parent has no order; a clean cached order is returned
    /// as it is; a dirty one is rebuilt (children stably sorted by z-index), cached,
    /// and marked clean.
    pub fn with_order(
        &mut self,
        parent: ElementId,
        document_children: &[ElementId],
        z_index: &[i32],
    ) -> (r: Vec<ElementId>)
        requires
            old(self).wf(),
            document_children@.len() == z_index@.len(),
            old(self).order_of(parent) matches Some(o) ==> o.rebuilds < usize::MAX,
        ensures
            final(self).wf(),
            forall|p: ElementId| p != parent ==> #[trigger] final(self).order_of(p) == old(self).order_of(p),
            match old(self).order_of(parent) {
                None => r@ == Seq::<ElementId>::empty() && final(self).order_of(parent) is None,
                Some(o) => if o.dirty {
                    &&& is_paint_order(document_children@, z_index@, r@)
                    &&& final(self).order_of(parent) == Some(
                        OrderModel { children: r@, dirty: false, rebuilds: o.rebuilds + 1 },
                    )
                } else {
                    r@ == o.children && final(self).order_of(parent) == Some(o)
                },
            },
    {
        match self.find(parent) {
            None => Vec::new(),
            Some(i) => {
                proof {
                    lemma_entry_at(self.parents@, i as int);
                }
                if self.parents[i].1.dirty {
                    let order = sort_by_z_index(document_children, z_index);
                    let ghost prev = self.parents@;
                    let mut entry = self.parents.remove(i);
                    entry.1.children = order.clone();
                    entry.1.dirty = false;
                    entry.1.rebuild_count = entry.1.rebuild_count + 1;
                    self.parents.insert(i, entry);
                    proof {
                        self.lemma_replaced(prev, i as int);
                    }
                    order
                } else {
                    self.parents[i].1.children.clone()
                }
            },
        }
    }

    /// Forgets `id` as a parent.
    pub fn remove(&mut self, id: ElementId)
        requires
            old(self).wf(),
        ensures
            final(self).wf(),
            final(self).order_of(id) is None,
            forall|p: ElementId| p != id ==> #[trigger] final(self).order_of(p) == old(self).order_of(p),
    {
        if let Some(i) = self.find(id) {
            let ghost prev = self.parents@;
            self.parents.remove(i);
            proof {
                let s = self.parents@;
                assert forall|a: int, b: int|
                    0 <= a < s.len() && 0 <= b < s.len() && (#[trigger] s[a]).0 == (#[trigger] s[b]).0 implies a == b by {
                    let pa = if a < i { a } else { a + 1 };
                    let pb = if b < i { b } else { b + 1 };
                    assert(s[a] == prev[pa]);
                    assert(s[b] == prev[pb]);
                }
                assert forall|k: int| 0 <= k < s.len() implies (#[trigger] s[k]).0 != id by {
                    let pk = if k < i { k } else { k + 1 };
                    assert(s[k] == prev[pk]);
                }
                assert forall|p: ElementId| p != id implies #[trigger] entry_in(s, p) == entry_in(prev, p) by {
                    if exists|k: int| 0 <= k < prev.len() && (#[trigger] prev[k]).0 == p {
                        let w = choose|k: int| 0 <= k < prev.len() && (#[trigger] prev[k]).0 == p;
                        assert(w != i);
                        let sw = if w < i { w } else { w - 1 };
                        assert(s[sw] == prev[w]);
                        lemma_entry_at(prev, w);
                        lemma_entry_at(s, sw);
                    } else {
                        assert forall|k: int| 0 <= k < s.len() implies (#[trigger] s[k]).0 != p by {
                            let pk = if k < i { k } else { k + 1 };
                            assert(s[k] == prev[pk]);
                        }
                    }
                }
            }
        }
    }

    /// How many times the order of `parent` was rebuilt (0 when it is not registered).
    pub fn rebuild_count(&self, parent: ElementId) -> (r: usize)
        requires
            self.wf(),
        ensures
            r == match self.order_of(parent) {
                Some(o) => o.rebuilds,
                None => 0,
            },
    {
        match self.find(parent) {
            Some(i) => {
                proof {
                    lemma_entry_at(self.parents@, i as int);
                }
                self.parents[i].1.rebuild_count
            },
            None => 0,
        }
    }
}

} // verus!

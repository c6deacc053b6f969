//! The document runtime: the listener registry, dispatch along a target-first path,
//! and the queue of deliveries the host drains.
//!
//! Listener handles are slot-map keys; the host sees them as `u64` values.
use vstd::prelude::*;
use slotmap::{DefaultKey, Key, KeyData, SlotMap};
use crate::id::ElementId;

verus! {

/// The slot map that stores the listeners and hands out their keys. Verus takes no
/// declaration of `SlotMap` (its key parameter is bound by an outside trait), so the
/// map sits in the private field of this struct; what it holds is named by
/// [`listener_slots`].
#[verifier::external_body]
pub struct ListenerSlots {
    map: SlotMap<DefaultKey, (ElementId, DocumentEventKind)>,
}

/// The kinds of document event a listener subscribes to.
#[derive(Clone, Copy, Debug, PartialEq, Eq, Hash, Structural)]
pub enum DocumentEventKind {
    Click,
    Focus,
    Blur,
    TextInput,
    CompositionStart,
    CompositionUpdate,
    CompositionEnd,
    Scroll,
    HoverEnter,
    HoverLeave,
    ActiveStart,
    ActiveEnd,
    KeyDown,
}

/// The listeners a slot map holds, by the `u64` form of their keys (the key's
/// version in the high 32 bits, its index in the low ones).
pub uninterp spec fn listener_slots(m: ListenerSlots) -> Map<u64, (ElementId, DocumentEventKind)>;

/// The key a `u64` handle decodes to, in `u64` form: the version is made odd (the
/// form of every key a slot map hands out).
pub open spec fn key_form(raw: u64) -> u64 {
    raw | 0x1_0000_0000u64
}

/// Calls `SlotMap::new`: an empty map.
#[verifier::external_body]
fn slots_new() -> (r: ListenerSlots)
    ensures
        listener_slots(r) =~= Map::empty(),
{
    ListenerSlots { map: SlotMap::new() }
}

/// Calls `SlotMap::insert` and returns the new key in `u64` form (`KeyData::as_ffi`).
/// Per the source, the key is one no stored value has, its version is odd, and the
/// value is stored under it; the map panics only when it has no free slot and
/// `u32::MAX` slots (its sentinel slot included), which the bound on the stored values
/// rules out. Which fresh key comes back (the head of the map's free list) is not
/// stated: the name models the stored values only.
#[verifier::external_body]
fn slots_insert(m: &mut ListenerSlots, v: (ElementId, DocumentEventKind)) -> (raw: u64)
    requires
        listener_slots(*old(m)).dom().len() + 2 <= u32::MAX,
    ensures
        !listener_slots(*old(m)).contains_key(raw),
        key_form(raw) == raw,
        listener_slots(*final(m)) == listener_slots(*old(m)).insert(raw, v),
{
    m.map.insert(v).data().as_ffi()
}

/// Calls `SlotMap::remove` with the key `KeyData::from_ffi(raw)` decodes to: the value
/// stored under that key, removed from the map, or `None` (nothing changes).
#[verifier::external_body]
fn slots_remove(m: &mut ListenerSlots, raw: u64) -> (r: Option<(ElementId, DocumentEventKind)>)
    ensures
        r == (if listener_slots(*old(m)).contains_key(key_form(raw)) {
            Some(listener_slots(*old(m))[key_form(raw)])
        } else {
            None
        }),
        listener_slots(*final(m)) == listener_slots(*old(m)).remove(key_form(raw)),
{
    m.map.remove(DefaultKey::from(KeyData::from_ffi(raw)))
}

/// An opaque listener handle: the index and (odd) version of a slot-map key.
#[derive(Clone, Copy, Debug, PartialEq, Eq, Hash)]
pub struct ListenerId {
    idx: u32,
    version: u32,
}

impl View for ListenerId {
    type V = (u32, u32);

    closed spec fn view(&self) -> (u32, u32) {
        (self.idx, self.version)
    }
}

impl ListenerId {
    #[verifier::type_invariant]
    spec fn version_is_odd(self) -> bool {
        self.version & 1 == 1
    }
}

/// The `u64` form of a handle: its version in the high 32 bits, its index in the low.
pub open spec fn raw_of(id: ListenerId) -> u64 {
    ((id@.1 as u64) << 32u64) | (id@.0 as u64)
}

impl ListenerId {
    /// The handle's `u64` form, for the host.
    pub fn to_u64(self) -> (r: u64)
        ensures
            r == ((self@.1 as u64) << 32u64) | self@.0 as u64,
            r == raw_of(self),
            key_form(r) == r,
    {
        proof {
            use_type_invariant(&self);
        }
        let v = self.version;
        let i = self.idx;
        let r = ((v as u64) << 32u64) | (i as u64);
        assert(v & 1 == 1 ==> (((v as u64) << 32u64) | (i as u64)) | 0x1_0000_0000u64 == ((v as u64)
            << 32u64) | (i as u64)) by (bit_vector);
        r
    }

    /// The handle a `u64` from the host stands for: the index is the low 32 bits, the
    /// version the high ones made odd.
    pub fn from_u64(raw: u64) -> (r: ListenerId)
        ensures
            r@.0 == (raw & 0xffff_ffffu64) as u32,
            r@.1 == ((raw >> 32u64) | 1u64) as u32,
            raw_of(r) == key_form(raw),
    {
        let idx = (raw & 0xffff_ffffu64) as u32;
        let version = ((raw >> 32u64) | 1u64) as u32;
        assert(((raw >> 32u64) | 1u64) as u32 & 1 == 1) by (bit_vector);
        assert(((((raw >> 32u64) | 1u64) as u32 as u64) << 32u64) | ((raw & 0xffff_ffffu64) as u32
            as u64) == raw | 0x1_0000_0000u64) by (bit_vector);
        ListenerId { idx, version }
    }
}

/// A handle survives the trip through its `u64` form: decoding what `to_u64` gives
/// yields the same index and version.
pub proof fn law_handle_round_trip(idx: u32, version: u32)
    requires
        version & 1 == 1,
    ensures
        ((((version as u64) << 32u64) | idx as u64) & 0xffff_ffffu64) as u32 == idx,
        (((((version as u64) << 32u64) | idx as u64) >> 32u64) | 1u64) as u32 == version,
{
    assert(((((version as u64) << 32u64) | idx as u64) & 0xffff_ffffu64) as u32 == idx)
        by (bit_vector);
    assert(version & 1 == 1 ==> (((((version as u64) << 32u64) | idx as u64) >> 32u64) | 1u64) as u32
        == version) by (bit_vector);
}

/// A delivery queued for the host: the listener and the event it receives.
#[derive(Clone, Debug)]
pub struct EventDelivery<E> {
    pub listener_id: ListenerId,
    pub event: E,
}

/// A registration: the element, the event kind and the listener's handle.
pub type Registration = (ElementId, DocumentEventKind, ListenerId);

/// The runtime as values: the listeners by the `u64` form of their handles, every
/// registration in registration order (element, kind, handle), and the queued
/// deliveries (handle, event) oldest first.
pub struct RuntimeModel<E> {
    pub listeners: Map<u64, (ElementId, DocumentEventKind)>,
    pub order: Seq<(ElementId, DocumentEventKind, u64)>,
    pub queue: Seq<(u64, E)>,
}

/// The listener registry, bubble dispatch and delivery queue of a document.
pub struct DocumentRuntime<E> {
    listeners: ListenerSlots,
    registrations: Vec<Registration>,
    delivery_queue: Vec<EventDelivery<E>>,
}

pub open spec fn reg_view(r: Registration) -> (ElementId, DocumentEventKind, u64) {
    (r.0, r.1, raw_of(r.2))
}

pub open spec fn delivery_view<E>(d: EventDelivery<E>) -> (u64, E) {
    (raw_of(d.listener_id), d.event)
}

impl<E> View for DocumentRuntime<E> {
    type V = RuntimeModel<E>;

    closed spec fn view(&self) -> RuntimeModel<E> {
        RuntimeModel {
            listeners: listener_slots(self.listeners),
            order: self.registrations@.map_values(|r: Registration| reg_view(r)),
            queue: self.delivery_queue@.map_values(|d: EventDelivery<E>| delivery_view(d)),
        }
    }
}

/// The registrations that survive removing every listener of `e`, in order.
pub open spec fn keep_other_elements(order: Seq<(ElementId, DocumentEventKind, u64)>, e: ElementId) -> Seq<
    (ElementId, DocumentEventKind, u64),
>
    decreases order.len(),
{
    if order.len() == 0 {
        order
    } else if order.last().0 == e {
        keep_other_elements(order.drop_last(), e)
    } else {
        keep_other_elements(order.drop_last(), e).push(order.last())
    }
}

/// The registrations that survive removing the listener with handle `raw`, in order.
pub open spec fn drop_listener(order: Seq<(ElementId, DocumentEventKind, u64)>, raw: u64) -> Seq<
    (ElementId, DocumentEventKind, u64),
>
    decreases order.len(),
{
    if order.len() == 0 {
        order
    } else if order.last().2 == raw {
        drop_listener(order.drop_last(), raw)
    } else {
        drop_listener(order.drop_last(), raw).push(order.last())
    }
}

/// The listeners of `e` for `kind`, in registration order.
pub open spec fn listeners_of(order: Seq<(ElementId, DocumentEventKind, u64)>, e: ElementId, kind: DocumentEventKind) -> Seq<u64>
    decreases order.len(),
{
    if order.len() == 0 {
        Seq::empty()
    } else if order.last().0 == e && order.last().1 == kind {
        listeners_of(order.drop_last(), e, kind).push(order.last().2)
    } else {
        listeners_of(order.drop_last(), e, kind)
    }
}

/// The listeners an event of `kind` reaches along `path`: those of each element of the
/// path in turn (the target first), each element's in registration order.
pub open spec fn path_listeners(
    order: Seq<(ElementId, DocumentEventKind, u64)>,
    path: Seq<ElementId>,
    kind: DocumentEventKind,
) -> Seq<u64>
    decreases path.len(),
{
    if path.len() == 0 {
        Seq::empty()
    } else {
        path_listeners(order, path.drop_last(), kind) + listeners_of(order, path.last(), kind)
    }
}

/// The listeners left after removing those of `e`.
pub open spec fn without_element(m: Map<u64, (ElementId, DocumentEventKind)>, e: ElementId) -> Map<
    u64,
    (ElementId, DocumentEventKind),
> {
    Map::new(|k: u64| m.contains_key(k) && m[k].0 != e, |k: u64| m[k])
}

/// A handle is in the registry exactly when it is registered, with the element and
/// kind the registration names, and the registry is finite.
pub open spec fn registry_agrees(
    listeners: Map<u64, (ElementId, DocumentEventKind)>,
    order: Seq<(ElementId, DocumentEventKind, u64)>,
) -> bool {
    &&& listeners.dom().finite()
    &&& forall|k: u64| listeners.contains_key(k) <==> exists|i: int|
        0 <= i < order.len() && #[trigger] order[i].2 == k
    &&& forall|i: int|
        0 <= i < order.len() ==> listeners.contains_key(#[trigger] order[i].2)
            && listeners[order[i].2] == (order[i].0, order[i].1)
}

impl<E> DocumentRuntime<E> {
    /// The registry and the registrations agree: a handle is in the registry exactly
    /// when it is registered, with the element and kind the registration names, and
    /// the registry is finite.
    pub closed spec fn wf(&self) -> bool {
        registry_agrees(self@.listeners, self@.order)
    }

    /// A runtime with no listener and no delivery.
    pub fn new() -> (r: Self)
        ensures
            r.wf(),
            r@.listeners == Map::<u64, (ElementId, DocumentEventKind)>::empty(),
            r@.order == Seq::<(ElementId, DocumentEventKind, u64)>::empty(),
            r@.queue == Seq::<(u64, E)>::empty(),
    {
        let r = DocumentRuntime {
            listeners: slots_new(),
            registrations: Vec::new(),
            delivery_queue: Vec::new(),
        };
        assert(r@.order =~= Seq::<(ElementId, DocumentEventKind, u64)>::empty());
        assert(r@.queue =~= Seq::<(u64, E)>::empty());
        r
    }

    /// Registers a listener of `element_id` for `kind` and returns its fresh handle.
    pub fn register_listener(&mut self, element_id: ElementId, kind: DocumentEventKind) -> (id: ListenerId)
        requires
            old(self).wf(),
            old(self)@.listeners.dom().len() + 2 <= u32::MAX,
        ensures
            final(self).wf(),
            !old(self)@.listeners.contains_key(raw_of(id)),
            final(self)@.listeners == old(self)@.listeners.insert(raw_of(id), (element_id, kind)),
            final(self)@.order == old(self)@.order.push((element_id, kind, raw_of(id))),
            final(self)@.queue == old(self)@.queue,
    {
        let ghost m0 = self@;
        let raw = slots_insert(&mut self.listeners, (element_id, kind));
        let id = ListenerId::from_u64(raw);
        self.registrations.push((element_id, kind, id));
        proof {
            let m = self@;
            assert(m.order =~= m0.order.push((element_id, kind, raw)));
            assert forall|k: u64| m.listeners.contains_key(k) <==> exists|i: int|
                0 <= i < m.order.len() && #[trigger] m.order[i].2 == k by {
                if k == raw {
                    assert(m.order[m0.order.len() as int].2 == k);
                } else if m.listeners.contains_key(k) {
                    let i = choose|i: int| 0 <= i < m0.order.len() && #[trigger] m0.order[i].2 == k;
                    assert(m.order[i].2 == k);
                } else if exists|i: int| 0 <= i < m.order.len() && #[trigger] m.order[i].2 == k {
                    let i = choose|i: int| 0 <= i < m.order.len() && #[trigger] m.order[i].2 == k;
                    assert(m0.order[i].2 == k);
                }
            }
            assert forall|i: int| 0 <= i < m.order.len() implies m.listeners.contains_key(#[trigger] m.order[i].2)
                && m.listeners[m.order[i].2] == (m.order[i].0, m.order[i].1) by {
                if i < m0.order.len() {
                    assert(m.order[i] == m0.order[i]);
                }
            }
        }
        id
    }
}

proof fn lemma_push_contains<T>(s: Seq<T>, a: T, x: T)
    ensures
        s.push(a).contains(x) == (s.contains(x) || x == a),
{
    if s.contains(x) {
        let i = choose|i: int| 0 <= i < s.len() && s[i] == x;
        assert(s.push(a)[i] == x);
    }
    if x == a {
        assert(s.push(a)[s.len() as int] == x);
    }
    if s.push(a).contains(x) && x != a {
        let i = choose|i: int| 0 <= i < s.push(a).len() && s.push(a)[i] == x;
        assert(s[i] == x);
    }
}

proof fn lemma_drop_listener(o: Seq<(ElementId, DocumentEventKind, u64)>, raw: u64)
    ensures
        forall|x: (ElementId, DocumentEventKind, u64)|
            drop_listener(o, raw).contains(x) == (o.contains(x) && x.2 != raw),
    decreases o.len(),
{
    if o.len() > 0 {
        let p = o.drop_last();
        lemma_drop_listener(p, raw);
        assert(o =~= p.push(o.last()));
        assert forall|x: (ElementId, DocumentEventKind, u64)|
            drop_listener(o, raw).contains(x) == (o.contains(x) && x.2 != raw) by {
            lemma_push_contains(p, o.last(), x);
            lemma_push_contains(drop_listener(p, raw), o.last(), x);
        }
    }
}

proof fn lemma_keep_other_elements(o: Seq<(ElementId, DocumentEventKind, u64)>, e: ElementId)
    ensures
        forall|x: (ElementId, DocumentEventKind, u64)|
            keep_other_elements(o, e).contains(x) == (o.contains(x) && x.0 != e),
    decreases o.len(),
{
    if o.len() > 0 {
        let p = o.drop_last();
        lemma_keep_other_elements(p, e);
        assert(o =~= p.push(o.last()));
        assert forall|x: (ElementId, DocumentEventKind, u64)|
            keep_other_elements(o, e).contains(x) == (o.contains(x) && x.0 != e) by {
            lemma_push_contains(p, o.last(), x);
            lemma_push_contains(keep_other_elements(p, e), o.last(), x);
        }
    }
}

proof fn lemma_drop_absent(o: Seq<(ElementId, DocumentEventKind, u64)>, raw: u64)
    requires
        forall|i: int| 0 <= i < o.len() ==> #[trigger] o[i].2 != raw,
    ensures
        drop_listener(o, raw) == o,
    decreases o.len(),
{
    if o.len() > 0 {
        let p = o.drop_last();
        assert forall|i: int| 0 <= i < p.len() implies #[trigger] p[i].2 != raw by {
            assert(p[i] == o[i]);
        }
        lemma_drop_absent(p, raw);
        assert(o.last().2 != raw);
        assert(p.push(o.last()) =~= o);
    }
}

/// Unregistering a listener right after registering it gives the registry and the
/// registration order back as they were (and reports that it was registered): the
/// handle a registration hands out is one the registry did not hold.
pub proof fn law_unregister_undoes_register(
    listeners: Map<u64, (ElementId, DocumentEventKind)>,
    order: Seq<(ElementId, DocumentEventKind, u64)>,
    element_id: ElementId,
    kind: DocumentEventKind,
    raw: u64,
)
    requires
        registry_agrees(listeners, order),
        !listeners.contains_key(raw),
    ensures
        listeners.insert(raw, (element_id, kind)).contains_key(raw),
        listeners.insert(raw, (element_id, kind)).remove(raw) == listeners,
        drop_listener(order.push((element_id, kind, raw)), raw) == order,
{
    assert forall|i: int| 0 <= i < order.len() implies #[trigger] order[i].2 != raw by {
        assert(listeners.contains_key(order[i].2));
    }
    lemma_drop_absent(order, raw);
    assert(order.push((element_id, kind, raw)).drop_last() =~= order);
    assert(listeners.insert(raw, (element_id, kind)).remove(raw) =~= listeners);
}

/// The handles of queued deliveries, oldest first.
pub open spec fn queue_ids<E>(q: Seq<(u64, E)>) -> Seq<u64> {
    q.map_values(|d: (u64, E)| d.0)
}

impl<E> DocumentRuntime<E> {
    /// Removes the listener `id`; reports whether it was registered.
    pub fn unregister_listener(&mut self, id: ListenerId) -> (r: bool)
        requires
            old(self).wf(),
        ensures
            final(self).wf(),
            r == old(self)@.listeners.contains_key(raw_of(id)),
            final(self)@.listeners == old(self)@.listeners.remove(raw_of(id)),
            final(self)@.order == drop_listener(old(self)@.order, raw_of(id)),
            final(self)@.queue == old(self)@.queue,
    {
        let ghost m0 = self@;
        let raw = id.to_u64();
        let removed = slots_remove(&mut self.listeners, raw);
        let mut kept: Vec<Registration> = Vec::new();
        let mut i: usize = 0;
        while i < self.registrations.len()
            invariant
                i <= self.registrations.len(),
                self.registrations@.map_values(|r: Registration| reg_view(r)) == m0.order,
                kept@.map_values(|r: Registration| reg_view(r)) == drop_listener(m0.order.take(i as int), raw),
            decreases self.registrations.len() - i,
        {
            let reg = self.registrations[i];
            assert(m0.order.take(i + 1).drop_last() =~= m0.order.take(i as int));
            assert(m0.order.take(i + 1).last() == reg_view(reg));
            if reg.2.to_u64() != raw {
                kept.push(reg);
                assert(kept@.map_values(|r: Registration| reg_view(r)) =~= drop_listener(m0.order.take(i as int), raw).push(reg_view(reg)));
            }
            i = i + 1;
        }
        assert(m0.order.take(m0.order.len() as int) =~= m0.order);
        self.registrations = kept;
        proof {
            let m = self@;
            lemma_drop_listener(m0.order, raw);
            let d = drop_listener(m0.order, raw);
            assert(m.order == d);
            assert forall|x: (ElementId, DocumentEventKind, u64)| #[trigger] m.order.contains(x) == (
            m0.order.contains(x) && x.2 != raw) by {
                assert(d.contains(x) == (m0.order.contains(x) && x.2 != raw));
            }
            assert forall|k: u64| m.listeners.contains_key(k) <==> exists|j: int|
                0 <= j < m.order.len() && #[trigger] m.order[j].2 == k by {
                if m.listeners.contains_key(k) {
                    let j = choose|j: int| 0 <= j < m0.order.len() && #[trigger] m0.order[j].2 == k;
                    assert(m0.order.contains(m0.order[j]));
                    assert(m.order.contains(m0.order[j]));
                    let t = choose|t: int| 0 <= t < m.order.len() && m.order[t] == m0.order[j];
                    assert(m.order[t].2 == k);
                }
                if exists|j: int| 0 <= j < m.order.len() && #[trigger] m.order[j].2 == k {
                    let j = choose|j: int| 0 <= j < m.order.len() && #[trigger] m.order[j].2 == k;
                    assert(m.order.contains(m.order[j]));
                    let t = choose|t: int| 0 <= t < m0.order.len() && m0.order[t] == m.order[j];
                    assert(m0.order[t].2 == k);
                }
            }
            assert forall|j: int| 0 <= j < m.order.len() implies m.listeners.contains_key(#[trigger] m.order[j].2)
                && m.listeners[m.order[j].2] == (m.order[j].0, m.order[j].1) by {
                assert(m.order.contains(m.order[j]));
                let t = choose|t: int| 0 <= t < m0.order.len() && m0.order[t] == m.order[j];
                assert(m0.listeners.contains_key(m0.order[t].2));
            }
        }
        removed.is_some()
    }

    /// Removes every listener of `element_id` (an element leaving the document).
    pub fn remove_element_listeners(&mut self, element_id: ElementId)
        requires
            old(self).wf(),
        ensures
            final(self).wf(),
            final(self)@.listeners == without_element(old(self)@.listeners, element_id),
            final(self)@.order == keep_other_elements(old(self)@.order, element_id),
            final(self)@.queue == old(self)@.queue,
    {
        let ghost m0 = self@;
        let mut kept: Vec<Registration> = Vec::new();
        let mut i: usize = 0;
        while i < self.registrations.len()
            invariant
                i <= self.registrations.len(),
                self.registrations@.map_values(|r: Registration| reg_view(r)) == m0.order,
                self.delivery_queue@.map_values(|d: EventDelivery<E>| delivery_view(d)) == m0.queue,
                kept@.map_values(|r: Registration| reg_view(r)) == keep_other_elements(
                    m0.order.take(i as int),
                    element_id,
                ),
                forall|k: u64| #[trigger] listener_slots(self.listeners).contains_key(k) <==> (
                m0.listeners.contains_key(k) && !(exists|j: int|
                    0 <= j < i && m0.order[j].2 == k && m0.order[j].0 == element_id)),
                forall|k: u64| #[trigger] listener_slots(self.listeners).contains_key(k)
                    ==> listener_slots(self.listeners)[k] == m0.listeners[k],
            decreases self.registrations.len() - i,
        {
            let reg = self.registrations[i];
            assert(m0.order.take(i + 1).drop_last() =~= m0.order.take(i as int));
            assert(m0.order.take(i + 1).last() == reg_view(reg));
            assert(m0.order[i as int] == reg_view(reg));
            if reg.0 == element_id {
                let raw = reg.2.to_u64();
                slots_remove(&mut self.listeners, raw);
            } else {
                kept.push(reg);
                assert(kept@.map_values(|r: Registration| reg_view(r)) =~= keep_other_elements(
                    m0.order.take(i as int),
                    element_id,
                ).push(reg_view(reg)));
            }
            i = i + 1;
        }
        assert(m0.order.take(m0.order.len() as int) =~= m0.order);
        self.registrations = kept;
        proof {
            let m = self@;
            let w = without_element(m0.listeners, element_id);
            assert forall|k: u64| #![auto] m.listeners.contains_key(k) == w.contains_key(k) by {
                if m0.listeners.contains_key(k) {
                    let j = choose|j: int| 0 <= j < m0.order.len() && #[trigger] m0.order[j].2 == k;
                    if m0.listeners[k].0 == element_id {
                        assert(m0.order[j].0 == element_id);
                    } else {
                        assert forall|t: int| 0 <= t < m0.order.len() && m0.order[t].2 == k implies m0.order[t].0 != element_id by {
                            assert(m0.listeners[m0.order[t].2] == (m0.order[t].0, m0.order[t].1));
                        }
                    }
                }
            }
            assert(m.listeners =~= w);
            lemma_keep_other_elements(m0.order, element_id);
            let d = keep_other_elements(m0.order, element_id);
            assert(m.order == d);
            assert forall|x: (ElementId, DocumentEventKind, u64)| #[trigger] m.order.contains(x) == (
            m0.order.contains(x) && x.0 != element_id) by {
                assert(d.contains(x) == (m0.order.contains(x) && x.0 != element_id));
            }
            assert forall|k: u64| m.listeners.contains_key(k) <==> exists|j: int|
                0 <= j < m.order.len() && #[trigger] m.order[j].2 == k by {
                if m.listeners.contains_key(k) {
                    let j = choose|j: int| 0 <= j < m0.order.len() && #[trigger] m0.order[j].2 == k;
                    assert(m0.listeners[m0.order[j].2] == (m0.order[j].0, m0.order[j].1));
                    assert(m0.order.contains(m0.order[j]));
                    assert(m.order.contains(m0.order[j]));
                    let t = choose|t: int| 0 <= t < m.order.len() && m.order[t] == m0.order[j];
                    assert(m.order[t].2 == k);
                }
                if exists|j: int| 0 <= j < m.order.len() && #[trigger] m.order[j].2 == k {
                    let j = choose|j: int| 0 <= j < m.order.len() && #[trigger] m.order[j].2 == k;
                    assert(m.order.contains(m.order[j]));
                    let t = choose|t: int| 0 <= t < m0.order.len() && m0.order[t] == m.order[j];
                    assert(m0.order[t].2 == k);
                    assert(m0.listeners[m0.order[t].2] == (m0.order[t].0, m0.order[t].1));
                }
            }
            assert forall|j: int| 0 <= j < m.order.len() implies m.listeners.contains_key(#[trigger] m.order[j].2)
                && m.listeners[m.order[j].2] == (m.order[j].0, m.order[j].1) by {
                assert(m.order.contains(m.order[j]));
                let t = choose|t: int| 0 <= t < m0.order.len() && m0.order[t] == m.order[j];
                assert(m0.listeners[m0.order[t].2] == (m0.order[t].0, m0.order[t].1));
            }
            assert(m.listeners.dom() =~= m0.listeners.dom().filter(|k: u64| m0.listeners[k].0 != element_id));
        }
    }
}

impl<E: Clone> DocumentRuntime<E> {
    /// Queues `event` for every listener of `kind` along `path` (the target first, then
    /// its ancestors; a non-bubbling event passes the target alone): each element's
    /// listeners in registration order. Each delivery carries a clone of `event`.
    pub fn dispatch_to_path(&mut self, path: &[ElementId], kind: DocumentEventKind, event: E)
        requires
            old(self).wf(),
        ensures
            final(self).wf(),
            final(self)@.listeners == old(self)@.listeners,
            final(self)@.order == old(self)@.order,
            queue_ids(final(self)@.queue) == queue_ids(old(self)@.queue) + path_listeners(
                old(self)@.order,
                path@,
                kind,
            ),
            final(self)@.queue.take(old(self)@.queue.len() as int) == old(self)@.queue,
            forall|k: int|
                old(self)@.queue.len() <= k < final(self)@.queue.len() ==> cloned(
                    event,
                    #[trigger] final(self)@.queue[k].1,
                ),
    {
        let ghost m0 = self@;
        let mut p: usize = 0;
        while p < path.len()
            invariant
                p <= path@.len(),
                self@.listeners == m0.listeners,
                self@.order == m0.order,
                self.wf(),
                queue_ids(self@.queue) == queue_ids(m0.queue) + path_listeners(
                    m0.order,
                    path@.take(p as int),
                    kind,
                ),
                self@.queue.take(m0.queue.len() as int) == m0.queue,
                self@.queue.len() >= m0.queue.len(),
                forall|k: int|
                    m0.queue.len() <= k < self@.queue.len() ==> cloned(event, #[trigger] self@.queue[k].1),
            decreases path@.len() - p,
        {
            let target = path[p];
            let ghost before = self@.queue;
            let mut r: usize = 0;
            while r < self.registrations.len()
                invariant
                    r <= self.registrations.len(),
                    self@.listeners == m0.listeners,
                    self@.order == m0.order,
                    self.wf(),
                    queue_ids(self@.queue) == queue_ids(before) + listeners_of(
                        m0.order.take(r as int),
                        target,
                        kind,
                    ),
                    self@.queue.take(before.len() as int) == before,
                    self@.queue.len() >= before.len(),
                    before.take(m0.queue.len() as int) == m0.queue,
                    before.len() >= m0.queue.len(),
                    forall|k: int|
                        m0.queue.len() <= k < self@.queue.len() ==> cloned(event, #[trigger] self@.queue[k].1),
                decreases self.registrations.len() - r,
            {
                let reg = self.registrations[r];
                assert(self@.order[r as int] == reg_view(reg));
                assert(m0.order.take(r + 1).drop_last() =~= m0.order.take(r as int));
                assert(m0.order.take(r + 1).last() == reg_view(reg));
                if reg.0 == target && reg.1 == kind {
                    let ghost q0 = self@.queue;
                    let e = event.clone();
                    self.delivery_queue.push(EventDelivery { listener_id: reg.2, event: e });
                    assert(self@.queue =~= q0.push((raw_of(reg.2), e)));
                    assert(queue_ids(self@.queue) =~= queue_ids(q0).push(raw_of(reg.2)));
                    assert(self@.queue.take(before.len() as int) =~= q0.take(before.len() as int));
                }
                r = r + 1;
            }
            assert(m0.order.take(m0.order.len() as int) =~= m0.order);
            assert(path@.take(p + 1).drop_last() =~= path@.take(p as int));
            assert(path@.take(p + 1).last() == target);
            assert(self@.queue.take(m0.queue.len() as int) =~= before.take(m0.queue.len() as int));
            p = p + 1;
        }
        assert(path@.take(path@.len() as int) =~= path@);
    }
}

impl<E> DocumentRuntime<E> {
    /// Hands the queued deliveries to the host, oldest first, and empties the queue.
    pub fn poll_deliveries(&mut self) -> (r: Vec<EventDelivery<E>>)
        requires
            old(self).wf(),
        ensures
            final(self).wf(),
            r@.map_values(|d: EventDelivery<E>| delivery_view(d)) == old(self)@.queue,
            final(self)@.queue == Seq::<(u64, E)>::empty(),
            final(self)@.listeners == old(self)@.listeners,
            final(self)@.order == old(self)@.order,
    {
        let mut r: Vec<EventDelivery<E>> = Vec::new();
        let ghost m0 = self@;
        std::mem::swap(&mut r, &mut self.delivery_queue);
        assert(self@.queue =~= Seq::<(u64, E)>::empty());
        assert(self@.listeners == m0.listeners && self@.order == m0.order);
        r
    }
}

impl<E> Default for DocumentRuntime<E> {
    /// The same as [`DocumentRuntime::new`].
    fn default() -> (r: Self)
        ensures
            r.wf(),
            r@.listeners == Map::<u64, (ElementId, DocumentEventKind)>::empty(),
            r@.order == Seq::<(ElementId, DocumentEventKind, u64)>::empty(),
            r@.queue == Seq::<(u64, E)>::empty(),
    {
        Self::new()
    }
}

} // verus!

//! Reactive cells and the handles that subscribe to them.
use crate::arcmap::ArcMap;
use crate::flag::{Access, Flag};
use crate::fxmap::{map_get, map_insert, map_keys, map_new, map_remove};
use rustc_hash::FxHashMap;
use vstd::std_specs::cmp::PartialEqSpec;
use vstd::prelude::*;

verus! {

/// The registry after one more reference of `id`: a new entry starts at one with
/// callback `f`; an existing entry keeps its callback and counts one more.
pub open spec fn added<C>(m: Map<usize, (usize, C)>, id: usize, f: C) -> Map<usize, (usize, C)> {
    if m.contains_key(id) {
        m.insert(id, ((m[id].0 + 1) as usize, m[id].1))
    } else {
        m.insert(id, (1usize, f))
    }
}

/// The registry after one reference of `id` is dropped: the entry goes when its count
/// reaches zero, and an id without entry changes nothing.
pub open spec fn dropped<C>(m: Map<usize, (usize, C)>, id: usize) -> Map<usize, (usize, C)> {
    if !m.contains_key(id) {
        m
    } else if m[id].0 <= 1 {
        m.remove(id)
    } else {
        m.insert(id, ((m[id].0 - 1) as usize, m[id].1))
    }
}

/// The reference count that registry `m` holds for `id`; zero without an entry.
pub open spec fn count_of<C>(m: Map<usize, (usize, C)>, id: usize) -> nat {
    if m.contains_key(id) {
        m[id].0 as nat
    } else {
        0
    }
}

/// A reactive cell: a value and the registry of its listeners.
///
/// The registry maps a subscriber id to a reference count and the callback that the
/// subscriber asked to have called when the value changes. An entry exists exactly while
/// its count is at least one. The cell's identity is that of `token`, an allocation that
/// only this cell and the handles on it point at.
pub struct Link<T, C> {
    value: T,
    listeners: FxHashMap<usize, (usize, C)>,
    token: ArcMap<()>,
}

impl<T, C: Fn()> Link<T, C> {
    /// The value held by the cell.
    pub closed spec fn value(&self) -> T {
        self.value
    }

    /// The registry: subscriber id to (reference count, callback).
    pub closed spec fn listeners(&self) -> Map<usize, (usize, C)> {
        self.listeners@
    }

    /// The identity of the cell, which its handles carry.
    pub closed spec fn cell(&self) -> int {
        self.token.id()
    }

    /// The reference count of a subscriber; zero for one that is not registered.
    pub open spec fn count(&self, id: usize) -> nat {
        count_of(self.listeners(), id)
    }

    /// The subscribers that a tracked write notifies.
    pub open spec fn subscribers(&self) -> Set<usize> {
        self.listeners().dom()
    }

    /// Every entry has a positive count and a callback that may be called.
    pub open spec fn wf(&self) -> bool {
        forall|id: usize| #[trigger]
            self.listeners().contains_key(id) ==> self.listeners()[id].0 >= 1
                && self.listeners()[id].1.requires(())
    }

    /// A cell holding `t`, with no listener.
    pub fn new(t: T) -> (r: Self)
        ensures
            r.wf(),
            r.value() == t,
            r.subscribers().is_empty(),
    {
        Link { value: t, listeners: map_new(), token: ArcMap::new(()) }
    }

    /// The pointer that names the cell.
    pub fn token(&self) -> (r: &ArcMap<()>)
        ensures
            r.id() == self.cell(),
    {
        &self.token
    }

    /// Registers one more reference of subscriber `id`. The callback `f` is kept only when
    /// `id` had no entry; otherwise the callback registered first stays.
    pub fn add_listener(&mut self, id: usize, f: C)
        requires
            old(self).wf(),
            old(self).count(id) < usize::MAX,
            f.requires(()),
        ensures
            final(self).wf(),
            final(self).value() == old(self).value(),
            final(self).cell() == old(self).cell(),
            final(self).listeners() == added(old(self).listeners(), id, f),
    {
        match map_remove(&mut self.listeners, id) {
            Some((count, g)) => {
                map_insert(&mut self.listeners, id, (count + 1, g));
            },
            None => {
                map_insert(&mut self.listeners, id, (1, f));
            },
        }
        assert forall|k: usize| #[trigger] self.listeners().contains_key(k) implies self.listeners()[k].0
            >= 1 && self.listeners()[k].1.requires(()) by {
            if k != id {
                assert(old(self).listeners().contains_key(k));
            }
        }
    }

    /// Drops one reference of subscriber `id`, removing its entry when the count reaches
    /// zero. For an id with no entry nothing changes.
    pub fn drop_listener(&mut self, id: usize)
        requires
            old(self).wf(),
        ensures
            final(self).wf(),
            final(self).value() == old(self).value(),
            final(self).cell() == old(self).cell(),
            final(self).listeners() == dropped(old(self).listeners(), id),
    {
        match map_remove(&mut self.listeners, id) {
            Some((count, g)) => {
                if count > 1 {
                    map_insert(&mut self.listeners, id, (count - 1, g));
                }
            },
            None => {},
        }
        assert forall|k: usize| #[trigger] self.listeners().contains_key(k) implies self.listeners()[k].0
            >= 1 && self.listeners()[k].1.requires(()) by {
            assert(old(self).listeners().contains_key(k));
        }
    }

    /// Calls the callback of every registered subscriber once, and returns their ids in
    /// the order they were called. The registry is not changed.
    pub fn needs_update(&self) -> (r: Vec<usize>)
        requires
            self.wf(),
        ensures
            r@.no_duplicates(),
            r@.to_set() == self.subscribers(),
    {
        let ids = map_keys(&self.listeners);
        let mut i: usize = 0;
        while i < ids.len()
            invariant
                0 <= i <= ids.len(),
                self.wf(),
            decreases ids.len() - i,
        {
            let id = ids[i];
            match map_get(&self.listeners, id) {
                Some(entry) => {
                    assert(self.listeners().contains_key(id));
                    (entry.1)();
                },
                None => {},
            }
            i = i + 1;
        }
        ids
    }

    /// The current value.
    pub fn borrow(&self) -> (r: &T)
        ensures
            *r == self.value(),
    {
        &self.value
    }

    /// Replaces the value, notifying nobody.
    pub fn store(&mut self, t: T)
        requires
            old(self).wf(),
        ensures
            final(self).wf(),
            final(self).value() == t,
            final(self).cell() == old(self).cell(),
            final(self).listeners() == old(self).listeners(),
    {
        self.value = t;
        assert(self.listeners() == old(self).listeners());
    }

    /// The reference count of subscriber `id`; zero when it is not registered.
    pub fn listener_count(&self, id: usize) -> (r: usize)
        ensures
            r == self.count(id),
    {
        match map_get(&self.listeners, id) {
            Some(entry) => entry.0,
            None => 0,
        }
    }
}

/// One change to the registration of a subscriber: one more reference, offering a
/// callback, or one reference fewer.
pub enum ListenerOp<C> {
    Add(usize, C),
    Drop(usize),
}

/// The registry after the changes `ops`, applied in order to `m`.
pub open spec fn replay<C>(m: Map<usize, (usize, C)>, ops: Seq<ListenerOp<C>>) -> Map<
    usize,
    (usize, C),
>
    decreases ops.len(),
{
    if ops.len() == 0 {
        m
    } else {
        let before = replay(m, ops.drop_last());
        match ops.last() {
            ListenerOp::Add(id, f) => added(before, id, f),
            ListenerOp::Drop(id) => dropped(before, id),
        }
    }
}

/// The number of `Add` minus the number of `Drop` for subscriber `id` in `ops`.
pub open spec fn net_references<C>(ops: Seq<ListenerOp<C>>, id: usize) -> int
    decreases ops.len(),
{
    if ops.len() == 0 {
        0
    } else {
        net_references(ops.drop_last(), id) + match ops.last() {
            ListenerOp::Add(i, _) => if i == id {
                1int
            } else {
                0int
            },
            ListenerOp::Drop(i) => if i == id {
                -1int
            } else {
                0int
            },
        }
    }
}

/// Reference-count discipline: starting from an empty registry, after any sequence of
/// registrations and unregistrations in which subscriber `id` is never dropped more often
/// than it was added, its count is the number of additions minus the number of drops,
/// and it has an entry exactly when that number is positive.
pub proof fn lemma_reference_count<C>(ops: Seq<ListenerOp<C>>, id: usize)
    requires
        forall|k: int|
            0 <= k <= ops.len() ==> 0 <= #[trigger] net_references(ops.take(k), id)
                <= usize::MAX,
    ensures
        count_of(replay(Map::empty(), ops), id) == net_references(ops, id),
        replay(Map::empty(), ops).contains_key(id) <==> net_references(ops, id) > 0,
    decreases ops.len(),
{
    if ops.len() > 0 {
        let prefix = ops.drop_last();
        assert forall|k: int| 0 <= k <= prefix.len() implies 0 <= #[trigger] net_references(
            prefix.take(k),
            id,
        ) <= usize::MAX by {
            assert(prefix.take(k) =~= ops.take(k));
        }
        lemma_reference_count(prefix, id);
        assert(ops.take(ops.len() as int) =~= ops);
        assert(ops.take(prefix.len() as int) =~= prefix);
    } else {
        assert(ops.take(0) =~= ops);
    }
}

/// A handle to a reactive cell, tagged with a capability other than `Hidden`.
///
/// The handle points at its cell's identity. A `ReadWrite` handle carries the id of its
/// subscriber and stands for one reference in the cell's registry; a `Write` handle
/// carries none and registers nothing.
pub struct Shared {
    access: Access,
    id: Option<usize>,
    cell: ArcMap<()>,
}

impl Shared {
    /// The handle's capability.
    pub closed spec fn access(&self) -> Access {
        self.access
    }

    /// The subscriber the handle stands for, if it is subscribed.
    pub closed spec fn subscriber(&self) -> Option<usize> {
        self.id
    }

    /// The identity of the cell the handle is on.
    pub closed spec fn cell(&self) -> int {
        self.cell.id()
    }

    /// A handle is never `Hidden`, and it is subscribed exactly when it is `ReadWrite`.
    pub open spec fn wf(&self) -> bool {
        &&& self.access() != Access::Hidden
        &&& (self.subscriber() is Some <==> self.access() == Access::ReadWrite)
    }

    /// The registry `m` after a handle with capability `access` is made for the listener
    /// `(id, f)`: only a read-write handle registers.
    pub open spec fn registered<C>(
        access: Access,
        m: Map<usize, (usize, C)>,
        id: usize,
        f: C,
    ) -> Map<usize, (usize, C)> {
        if access == Access::ReadWrite {
            added(m, id, f)
        } else {
            m
        }
    }

    /// Makes a handle with capability `access` for the listener `(id, f)` on `link`.
    ///
    /// `Hidden` gives no handle; `Write` gives one that registers nothing; `ReadWrite`
    /// registers one reference of `id` at once.
    pub fn init_with_listener<T, C: Fn()>(access: Access, listener: (usize, C), link: &mut Link<
        T,
        C,
    >) -> (r: Option<Shared>)
        requires
            old(link).wf(),
            access == Access::ReadWrite ==> old(link).count(listener.0) < usize::MAX
                && listener.1.requires(()),
        ensures
            final(link).wf(),
            final(link).value() == old(link).value(),
            final(link).cell() == old(link).cell(),
            final(link).listeners() == Self::registered(
                access,
                old(link).listeners(),
                listener.0,
                listener.1,
            ),
            access == Access::Hidden <==> r is None,
            r matches Some(h) ==> h.wf() && h.access() == access && h.cell() == old(link).cell()
                && (access == Access::ReadWrite ==> h.subscriber() == Some(listener.0)),
    {
        let (id, f) = listener;
        match access {
            Access::Hidden => None,
            Access::Write => Some(Shared { access, id: None, cell: link.token().clone() }),
            Access::ReadWrite => {
                link.add_listener(id, f);
                Some(Shared { access, id: Some(id), cell: link.token().clone() })
            },
        }
    }

    /// Makes a handle with the capability of the flag `B` for the listener `(id, f)` on
    /// `link`; with [`crate::flag::RW`] it registers one reference of `id` at once.
    pub fn init<B: Flag, T, C: Fn()>(_flag: B, listener: (usize, C), link: &mut Link<T, C>) -> (r:
        Shared)
        requires
            old(link).wf(),
            B::access() == Access::ReadWrite ==> old(link).count(listener.0) < usize::MAX
                && listener.1.requires(()),
        ensures
            final(link).wf(),
            final(link).value() == old(link).value(),
            final(link).cell() == old(link).cell(),
            final(link).listeners() == Self::registered(
                B::access(),
                old(link).listeners(),
                listener.0,
                listener.1,
            ),
            r.wf(),
            r.access() == B::access(),
            r.cell() == old(link).cell(),
            B::access() == Access::ReadWrite ==> r.subscriber() == Some(listener.0),
    {
        let access = B::flag();
        let (id, f) = listener;
        if B::read() {
            link.add_listener(id, f);
            Shared { access, id: Some(id), cell: link.token().clone() }
        } else {
            Shared { access, id: None, cell: link.token().clone() }
        }
    }

    /// A write handle on `link`, which registers nothing.
    pub fn write_only<T, C: Fn()>(link: &Link<T, C>) -> (r: Shared)
        ensures
            r.wf(),
            r.access() == Access::Write,
            r.cell() == link.cell(),
    {
        Shared { access: Access::Write, id: None, cell: link.token().clone() }
    }

    /// The capability of the handle.
    pub fn flag(&self) -> (r: Access)
        ensures
            r == self.access(),
    {
        self.access
    }

    /// The subscriber of the handle, if it is subscribed.
    pub fn id(&self) -> (r: Option<usize>)
        ensures
            r == self.subscriber(),
    {
        self.id
    }

    /// Whether the handle is on `link`.
    pub fn is_on<T, C: Fn()>(&self, link: &Link<T, C>) -> (r: bool)
        ensures
            r == (self.cell() == link.cell()),
    {
        ArcMap::ptr_eq(&self.cell, link.token())
    }

    /// A second handle like this one on the same cell. A subscribed handle registers one
    /// more reference of its subscriber, offering `f` as the callback in case the entry
    /// is gone; a write handle changes nothing.
    pub fn clone_in<T, C: Fn()>(&self, link: &mut Link<T, C>, f: C) -> (r: Shared)
        requires
            self.wf(),
            self.cell() == old(link).cell(),
            old(link).wf(),
            self.subscriber() matches Some(id) ==> old(link).count(id) < usize::MAX
                && f.requires(()),
        ensures
            r.wf(),
            r.access() == self.access(),
            r.subscriber() == self.subscriber(),
            r.cell() == self.cell(),
            final(link).wf(),
            final(link).value() == old(link).value(),
            final(link).cell() == old(link).cell(),
            self.subscriber() is None ==> final(link).listeners() == old(link).listeners(),
            self.subscriber() matches Some(id) ==> final(link).listeners() == added(
                old(link).listeners(),
                id,
                f,
            ),
    {
        match self.id {
            Some(id) => link.add_listener(id, f),
            None => {},
        }
        Shared { access: self.access, id: self.id, cell: self.cell.clone() }
    }

    /// Gives the handle up; a subscribed handle drops its reference.
    pub fn release<T, C: Fn()>(self, link: &mut Link<T, C>)
        requires
            self.cell() == old(link).cell(),
            old(link).wf(),
        ensures
            final(link).wf(),
            final(link).value() == old(link).value(),
            final(link).cell() == old(link).cell(),
            self.subscriber() is None ==> final(link).listeners() == old(link).listeners(),
            self.subscriber() matches Some(id) ==> final(link).listeners() == dropped(
                old(link).listeners(),
                id,
            ),
    {
        match self.id {
            Some(id) => link.drop_listener(id),
            None => {},
        }
    }

    /// Writes `t` and notifies every subscriber of the cell once; returns the ids notified.
    pub fn write<T, C: Fn()>(&self, link: &mut Link<T, C>, t: T) -> (r: Vec<usize>)
        requires
            self.cell() == old(link).cell(),
            old(link).wf(),
        ensures
            final(link).wf(),
            final(link).value() == t,
            final(link).cell() == old(link).cell(),
            final(link).listeners() == old(link).listeners(),
            r@.no_duplicates(),
            r@.to_set() == old(link).subscribers(),
    {
        link.store(t);
        link.needs_update()
    }

    /// Writes `t` and notifies nobody.
    pub fn write_silent<T, C: Fn()>(&self, link: &mut Link<T, C>, t: T)
        requires
            self.cell() == old(link).cell(),
            old(link).wf(),
        ensures
            final(link).wf(),
            final(link).value() == t,
            final(link).cell() == old(link).cell(),
            final(link).listeners() == old(link).listeners(),
    {
        link.store(t);
    }

    /// Notifies every subscriber of the cell once, without writing; returns their ids.
    pub fn needs_update<T, C: Fn()>(&self, link: &Link<T, C>) -> (r: Vec<usize>)
        requires
            self.cell() == link.cell(),
            link.wf(),
        ensures
            r@.no_duplicates(),
            r@.to_set() == link.subscribers(),
    {
        link.needs_update()
    }

    /// The current value of the cell.
    pub fn read<'a, T, C: Fn()>(&self, link: &'a Link<T, C>) -> (r: &'a T)
        requires
            self.cell() == link.cell(),
        ensures
            *r == link.value(),
    {
        link.borrow()
    }

    /// Writes `t` only if it differs from the current value, and then notifies every
    /// subscriber once; an equal value changes nothing and notifies nobody. Returns the
    /// ids notified.
    pub fn set<T: PartialEq, C: Fn()>(&self, link: &mut Link<T, C>, t: T) -> (r: Vec<usize>)
        requires
            self.cell() == old(link).cell(),
            old(link).wf(),
        ensures
            final(link).wf(),
            final(link).cell() == old(link).cell(),
            final(link).listeners() == old(link).listeners(),
            r@.no_duplicates(),
            final(link).value() == old(link).value() && r@.len() == 0 || final(link).value()
                == t && r@.to_set() == old(link).subscribers(),
            T::obeys_eq_spec() && old(link).value().eq_spec(&t) ==> final(link).value() == old(
                link,
            ).value() && r@.len() == 0,
            T::obeys_eq_spec() && !old(link).value().eq_spec(&t) ==> final(link).value() == t
                && r@.to_set() == old(link).subscribers(),
    {
        if *link.borrow() != t {
            self.write(link, t)
        } else {
            Vec::new()
        }
    }

    /// Writes `f(x)`, where `x` is the current value, under the same rule as [`Self::set`].
    pub fn set_with<T: PartialEq, C: Fn(), F: Fn(&T) -> T>(
        &self,
        link: &mut Link<T, C>,
        f: F,
    ) -> (r: Vec<usize>)
        requires
            self.cell() == old(link).cell(),
            old(link).wf(),
            f.requires((&old(link).value(),)),
        ensures
            final(link).wf(),
            final(link).cell() == old(link).cell(),
            final(link).listeners() == old(link).listeners(),
            r@.no_duplicates(),
            exists|t: T|
                {
                    &&& #[trigger] f.ensures((&old(link).value(),), t)
                    &&& (final(link).value() == old(link).value() && r@.len() == 0
                        || final(link).value() == t && r@.to_set() == old(link).subscribers())
                    &&& T::obeys_eq_spec() && old(link).value().eq_spec(&t)
                        ==> final(link).value() == old(link).value() && r@.len() == 0
                    &&& T::obeys_eq_spec() && !old(link).value().eq_spec(&t)
                        ==> final(link).value() == t && r@.to_set() == old(link).subscribers()
                },
    {
        let updated = f(link.borrow());
        self.set(link, updated)
    }
}

/// The slot of a shared value that is made on first use: empty until then, and the same
/// cell afterwards.
pub struct Shareable<T, C> {
    link: Option<Link<T, C>>,
}

impl<T, C: Fn()> Shareable<T, C> {
    /// The cell, once it has been made.
    pub closed spec fn slot(&self) -> Option<Link<T, C>> {
        self.link
    }

    /// An empty slot.
    pub fn new() -> (r: Self)
        ensures
            r.slot() is None,
    {
        Shareable { link: None }
    }

    /// Whether the cell has been made.
    pub fn is_initialized(&self) -> (r: bool)
        ensures
            r == self.slot() is Some,
    {
        self.link.is_some()
    }

    /// The cell, made from `f()` if the slot is still empty; `f` is not called otherwise.
    pub fn get_or_init<F: FnOnce() -> T>(&mut self, f: F) -> (r: &mut Link<T, C>)
        requires
            old(self).slot() is None ==> f.requires(()),
            old(self).slot() matches Some(l) ==> l.wf(),
        ensures
            r.wf(),
            old(self).slot() matches Some(l) ==> *r == l,
            old(self).slot() is None ==> f.ensures((), r.value()) && r.subscribers().is_empty(),
            final(self).slot() == Some(*final(r)),
    {
        if self.link.is_none() {
            self.link = Some(Link::new(f()));
        }
        self.link.as_mut().unwrap()
    }
}

} // verus!

//! Records of reactive cells, and the views that hold handles on their fields.
use crate::action::{action_implies, implies_actions, ActionError, ActionsFor, AsActions, ShareableStruct};
use crate::flag::{covers, Access};
use crate::shared::{count_of, dropped, Link, Shared};
use std::marker::PhantomData;
use vstd::prelude::*;
use vstd::std_specs::convert::IntoSpec;

verus! {

/// A record instance: one reactive cell per field.
pub struct Record<T, C> {
    fields: Vec<Link<T, C>>,
}

impl<T, C: Fn()> Record<T, C> {
    /// The cells, field by field.
    pub closed spec fn links(&self) -> Seq<Link<T, C>> {
        self.fields@
    }

    /// Every cell is well formed.
    pub open spec fn wf(&self) -> bool {
        forall|i: int| 0 <= i < self.links().len() ==> (#[trigger] self.links()[i]).wf()
    }

    /// A record whose fields hold `values`, in order, with no listener.
    pub fn new(values: Vec<T>) -> (r: Self)
        ensures
            r.wf(),
            r.links().len() == values@.len(),
            forall|i: int|
                0 <= i < values@.len() ==> (#[trigger] r.links()[i]).value() == values@[i]
                    && r.links()[i].subscribers().is_empty(),
    {
        let mut values = values;
        let ghost vals = values@;
        let mut rev: Vec<Link<T, C>> = Vec::new();
        while values.len() > 0
            invariant
                rev@.len() + values@.len() == vals.len(),
                values@ == vals.take(values@.len() as int),
                forall|k: int|
                    0 <= k < rev@.len() ==> (#[trigger] rev@[k]).wf() && rev@[k].value()
                        == vals[vals.len() - 1 - k] && rev@[k].subscribers().is_empty(),
            decreases values@.len(),
        {
            let t = values.pop().unwrap();
            proof {
                assert(values@ =~= vals.take(values@.len() as int));
            }
            rev.push(Link::new(t));
        }
        let mut fields: Vec<Link<T, C>> = Vec::new();
        while rev.len() > 0
            invariant
                rev@.len() + fields@.len() == vals.len(),
                forall|k: int|
                    0 <= k < rev@.len() ==> (#[trigger] rev@[k]).wf() && rev@[k].value()
                        == vals[vals.len() - 1 - k] && rev@[k].subscribers().is_empty(),
                forall|k: int|
                    0 <= k < fields@.len() ==> (#[trigger] fields@[k]).wf() && fields@[k].value()
                        == vals[k] && fields@[k].subscribers().is_empty(),
            decreases rev@.len(),
        {
            let link = rev.pop().unwrap();
            fields.push(link);
        }
        Record { fields }
    }

    /// The number of fields.
    pub fn len(&self) -> (r: usize)
        ensures
            r == self.links().len(),
    {
        self.fields.len()
    }

    /// The cell of field `i`.
    pub fn link(&self, i: usize) -> (r: &Link<T, C>)
        requires
            i < self.links().len(),
        ensures
            *r == self.links()[i as int],
    {
        &self.fields[i]
    }

    /// The cell of field `i`, for writing.
    pub fn link_mut(&mut self, i: usize) -> (r: &mut Link<T, C>)
        requires
            i < old(self).links().len(),
        ensures
            *r == old(self).links()[i as int],
            final(self).links() == old(self).links().update(i as int, *final(r)),
    {
        &mut self.fields[i]
    }
}

/// A view of a record: one handle per field that its action gives access to.
///
/// The action may give less than the handles allow (after [`RecordView::with_actions`]); a
/// field the action hides is not handed out, though its handle is kept until release.
pub struct RecordView {
    action: Vec<Access>,
    handles: Vec<Option<Shared>>,
}

impl RecordView {
    /// The capability the view grants on each field.
    pub closed spec fn action(&self) -> Seq<Access> {
        self.action@
    }

    /// The handle held for each field.
    pub closed spec fn handles(&self) -> Seq<Option<Shared>> {
        self.handles@
    }

    /// One handle slot per field; every handle is well formed; every field the action
    /// grants has a handle that covers it.
    pub open spec fn wf(&self) -> bool {
        &&& self.action().len() == self.handles().len()
        &&& forall|i: int|
            0 <= i < self.handles().len() ==> (#[trigger] self.handles()[i] matches Some(h) ==> h.wf())
        &&& forall|i: int|
            0 <= i < self.action().len() && #[trigger] self.action()[i] != Access::Hidden ==> {
                &&& self.handles()[i] is Some
                &&& covers(self.handles()[i].unwrap().access(), self.action()[i])
            }
    }

    /// The view is a view of `record`: one slot per field, and every handle on the cell of
    /// its field.
    pub open spec fn of<T, C: Fn()>(&self, record: &Record<T, C>) -> bool {
        &&& self.handles().len() == record.links().len()
        &&& forall|i: int|
            0 <= i < self.handles().len() ==> (#[trigger] self.handles()[i] matches Some(h)
                ==> h.cell() == record.links()[i].cell())
    }

    /// Builds the view of `record` that `action` describes, for subscriber `id`: a handle
    /// for every field the action does not hide, subscribed where it asks for read-write,
    /// with `callbacks[i]` offered as the callback on field `i`. Fails, changing nothing,
    /// unless the action and the callbacks have one entry per field.
    pub fn use_<T, C: Fn()>(
        record: &mut Record<T, C>,
        action: &Vec<Access>,
        id: usize,
        callbacks: Vec<C>,
    ) -> (r: Result<RecordView, ActionError>)
        requires
            old(record).wf(),
            forall|i: int|
                0 <= i < action@.len() && i < old(record).links().len() && i < callbacks@.len()
                    && #[trigger] action@[i] == Access::ReadWrite ==> old(record).links()[i].count(id)
                    < usize::MAX && callbacks@[i].requires(()),
        ensures
            r is Ok <==> action@.len() == old(record).links().len() && callbacks@.len()
                == old(record).links().len(),
            r matches Err(e) ==> e == ActionError::Shape && *final(record) == *old(record),
            final(record).wf(),
            final(record).links().len() == old(record).links().len(),
            r matches Ok(v) ==> {
                &&& v.wf()
                &&& v.of(final(record))
                &&& v.action() == action@
                &&& forall|i: int|
                    0 <= i < action@.len() ==> {
                        &&& (#[trigger] v.handles()[i] is Some <==> action@[i] != Access::Hidden)
                        &&& v.handles()[i] matches Some(h) ==> h.access() == action@[i] && (
                        action@[i] == Access::ReadWrite ==> h.subscriber() == Some(id))
                    }
                &&& forall|i: int|
                    0 <= i < old(record).links().len() ==> {
                        &&& (#[trigger] final(record).links()[i]).value() == old(
                            record,
                        ).links()[i].value()
                        &&& final(record).links()[i].cell() == old(record).links()[i].cell()
                        &&& final(record).links()[i].listeners() == Shared::registered(
                            action@[i],
                            old(record).links()[i].listeners(),
                            id,
                            callbacks@[i],
                        )
                    }
            },
    {
        if action.len() != record.len() || callbacks.len() != record.len() {
            return Err(ActionError::Shape);
        }
        let ghost start = *record;
        let ghost cbs = callbacks@;
        let mut callbacks = callbacks;
        let mut rev: Vec<Option<Shared>> = Vec::new();
        while callbacks.len() > 0
            invariant
                action@.len() == start.links().len(),
                cbs.len() == start.links().len(),
                record.links().len() == start.links().len(),
                callbacks@.len() <= cbs.len(),
                callbacks@ == cbs.take(callbacks@.len() as int),
                rev@.len() + callbacks@.len() == cbs.len(),
                start.wf(),
                record.wf(),
                forall|k: int|
                    0 <= k < action@.len() && #[trigger] action@[k] == Access::ReadWrite
                        ==> start.links()[k].count(id) < usize::MAX && cbs[k].requires(()),
                forall|j: int|
                    0 <= j < rev@.len() ==> {
                        let k = cbs.len() - 1 - j;
                        &&& (#[trigger] rev@[j] is Some <==> action@[k] != Access::Hidden)
                        &&& rev@[j] matches Some(h) ==> h.wf() && h.access() == action@[k]
                            && h.cell() == start.links()[k].cell() && (action@[k]
                            == Access::ReadWrite ==> h.subscriber() == Some(id))
                    },
                forall|k: int|
                    0 <= k < start.links().len() ==> {
                        &&& (#[trigger] record.links()[k]).value() == start.links()[k].value()
                        &&& record.links()[k].cell() == start.links()[k].cell()
                        &&& k >= callbacks@.len() ==> record.links()[k].listeners()
                            == Shared::registered(action@[k], start.links()[k].listeners(), id, cbs[k])
                        &&& k < callbacks@.len() ==> record.links()[k].listeners()
                            == start.links()[k].listeners()
                    },
            decreases callbacks@.len(),
        {
            let i = callbacks.len() - 1;
            let f = callbacks.pop().unwrap();
            proof {
                assert(callbacks@ =~= cbs.take(callbacks@.len() as int));
            }
            let ghost before = *record;
            let link = record.link_mut(i);
            let h = Shared::init_with_listener(action[i], (id, f), link);
            proof {
                assert forall|k: int| 0 <= k < record.links().len() implies (
                #[trigger] record.links()[k]).wf() by {
                    if k != i {
                        assert(record.links()[k] == before.links()[k]);
                    }
                }
            }
            rev.push(h);
        }
        let mut handles: Vec<Option<Shared>> = Vec::new();
        while rev.len() > 0
            invariant
                action@.len() == start.links().len(),
                record.links().len() == start.links().len(),
                rev@.len() + handles@.len() == action@.len(),
                forall|j: int|
                    0 <= j < rev@.len() ==> {
                        let k = action@.len() - 1 - j;
                        &&& (#[trigger] rev@[j] is Some <==> action@[k] != Access::Hidden)
                        &&& rev@[j] matches Some(h) ==> h.wf() && h.access() == action@[k]
                            && h.cell() == record.links()[k].cell() && (action@[k]
                            == Access::ReadWrite ==> h.subscriber() == Some(id))
                    },
                forall|k: int|
                    0 <= k < handles@.len() ==> {
                        &&& (#[trigger] handles@[k] is Some <==> action@[k] != Access::Hidden)
                        &&& handles@[k] matches Some(h) ==> h.wf() && h.access() == action@[k]
                            && h.cell() == record.links()[k].cell() && (action@[k]
                            == Access::ReadWrite ==> h.subscriber() == Some(id))
                    },
            decreases rev@.len(),
        {
            let h = rev.pop().unwrap();
            handles.push(h);
        }
        let view = RecordView { action: action.clone(), handles };
        assert(view.action() =~= action@);
        Ok(view)
    }

    /// Builds a view of `record` without a subscriber: a write handle for every field the
    /// action does not hide. Fails when the action does not have one capability per field,
    /// or asks for read-write on a field (the first such field is named).
    pub fn share<T, C: Fn()>(record: &Record<T, C>, action: &Vec<Access>) -> (r: Result<
        RecordView,
        ActionError,
    >)
        ensures
            action@.len() != record.links().len() ==> r == Err::<RecordView, ActionError>(
                ActionError::Shape,
            ),
            action@.len() == record.links().len() ==> {
                &&& r is Ok <==> forall|i: int|
                    0 <= i < action@.len() ==> #[trigger] action@[i] != Access::ReadWrite
                &&& r matches Err(ActionError::Subscribed(i)) ==> i < action@.len()
                    && action@[i as int] == Access::ReadWrite && forall|k: int|
                    0 <= k < i ==> #[trigger] action@[k] != Access::ReadWrite
                &&& r matches Err(e) ==> e is Subscribed
            },
            r matches Ok(v) ==> {
                &&& v.wf()
                &&& v.of(record)
                &&& v.action() == action@
                &&& forall|i: int|
                    0 <= i < action@.len() ==> {
                        &&& (#[trigger] v.handles()[i] is Some <==> action@[i] != Access::Hidden)
                        &&& v.handles()[i] matches Some(h) ==> h.access() == Access::Write
                    }
            },
    {
        if action.len() != record.len() {
            return Err(ActionError::Shape);
        }
        let mut handles: Vec<Option<Shared>> = Vec::new();
        let mut i: usize = 0;
        while i < action.len()
            invariant
                action@.len() == record.links().len(),
                0 <= i <= action@.len(),
                handles@.len() == i,
                forall|k: int| 0 <= k < i ==> #[trigger] action@[k] != Access::ReadWrite,
                forall|k: int|
                    0 <= k < i ==> {
                        &&& (#[trigger] handles@[k] is Some <==> action@[k] != Access::Hidden)
                        &&& handles@[k] matches Some(h) ==> h.wf() && h.access() == Access::Write
                            && h.cell() == record.links()[k].cell()
                    },
            decreases action@.len() - i,
        {
            match action[i] {
                Access::ReadWrite => {
                    return Err(ActionError::Subscribed(i));
                },
                Access::Write => {
                    handles.push(Some(Shared::write_only(record.link(i))));
                },
                Access::Hidden => {
                    handles.push(None);
                },
            }
            i = i + 1;
        }
        let view = RecordView { action: action.clone(), handles };
        assert(view.action() =~= action@);
        Ok(view)
    }

    /// The capability the view grants on each field.
    pub fn actions(&self) -> (r: &Vec<Access>)
        ensures
            r@ == self.action(),
    {
        &self.action
    }

    /// The handle of field `i`. A field the action hides, or one the record does not have,
    /// is refused.
    pub fn field(&self, i: usize) -> (r: Result<&Shared, ActionError>)
        requires
            self.wf(),
        ensures
            i >= self.action().len() ==> r == Err::<&Shared, ActionError>(
                ActionError::UnknownField(i),
            ),
            i < self.action().len() && self.action()[i as int] == Access::Hidden ==> r == Err::<
                &Shared,
                ActionError,
            >(ActionError::Hidden(i)),
            i < self.action().len() && self.action()[i as int] != Access::Hidden ==> (r matches Ok(
                h,
            ) && self.handles()[i as int] == Some(*h) && covers(h.access(), self.action()[i as int])),
    {
        if i >= self.action.len() {
            return Err(ActionError::UnknownField(i));
        }
        if self.action[i] == Access::Hidden {
            return Err(ActionError::Hidden(i));
        }
        match &self.handles[i] {
            Some(h) => Ok(h),
            None => Err(ActionError::Hidden(i)),
        }
    }

    /// Reinterprets the view as one with action `narrower`, keeping every handle as it is:
    /// no registration changes. Refused, handing the view back unchanged, unless the
    /// view's action implies `narrower` field by field.
    pub fn with_actions(self, narrower: Vec<Access>) -> (r: Result<RecordView, RecordView>)
        requires
            self.wf(),
        ensures
            r is Ok <==> action_implies(self.action(), narrower@),
            r matches Ok(v) ==> v.wf() && v.action() == narrower@ && v.handles() == self.handles(),
            r matches Err(v) ==> v == self,
    {
        if implies_actions(&self.action, &narrower) {
            let RecordView { action: _, handles } = self;
            let v = RecordView { action: narrower, handles };
            proof {
                assert forall|i: int|
                    0 <= i < v.action().len() && #[trigger] v.action()[i] != Access::Hidden implies {
                    &&& v.handles()[i] is Some
                    &&& covers(v.handles()[i].unwrap().access(), v.action()[i])
                } by {
                    crate::flag::lemma_implies_partial_order(
                        v.handles()[i].unwrap().access(),
                        self.action()[i],
                        v.action()[i],
                    );
                }
            }
            Ok(v)
        } else {
            Err(self)
        }
    }

    /// Reinterprets the view as one made with the named action `A`, which `B` declares
    /// it implies. The declaration is checked against what `A::action()` returns: the
    /// cast succeeds exactly when the view's action implies it, and a view whose action
    /// does not is handed back unchanged.
    pub fn cast<S: ShareableStruct, A: ActionsFor<S>, B: AsActions<S, A>>(self) -> (r: Result<
        RecordView,
        RecordView,
    >)
        requires
            self.wf(),
        ensures
            exists|a: Vec<Access>|
                {
                    &&& #[trigger] call_ensures(A::action, (), a)
                    &&& r is Ok <==> action_implies(self.action(), a@)
                    &&& r matches Ok(v) ==> v.wf() && v.action() == a@ && v.handles()
                        == self.handles()
                },
            r matches Err(v) ==> v == self,
    {
        let a = A::action();
        let ghost target = a;
        let r = self.with_actions(a);
        assert(call_ensures(A::action, (), target));
        r
    }

    /// Gives the view up: every subscribed handle drops its reference in its field's cell.
    pub fn release<T, C: Fn()>(self, record: &mut Record<T, C>)
        requires
            self.wf(),
            self.of(old(record)),
            old(record).wf(),
        ensures
            final(record).wf(),
            final(record).links().len() == old(record).links().len(),
            forall|i: int|
                0 <= i < old(record).links().len() ==> {
                    &&& (#[trigger] final(record).links()[i]).value() == old(record).links()[i].value()
                    &&& final(record).links()[i].cell() == old(record).links()[i].cell()
                    &&& final(record).links()[i].listeners() == match self.handles()[i] {
                        Some(h) => match h.subscriber() {
                            Some(id) => dropped(old(record).links()[i].listeners(), id),
                            None => old(record).links()[i].listeners(),
                        },
                        None => old(record).links()[i].listeners(),
                    }
                },
    {
        let ghost start = *record;
        let ghost hs = self.handles();
        let RecordView { action: _, handles } = self;
        let mut handles = handles;
        assert(hs.take(hs.len() as int) =~= hs);
        while handles.len() > 0
            invariant
                handles@.len() <= hs.len(),
                hs.len() == start.links().len(),
                record.links().len() == start.links().len(),
                handles@ == hs.take(handles@.len() as int),
                record.wf(),
                forall|k: int|
                    0 <= k < hs.len() ==> (#[trigger] hs[k] matches Some(h) ==> h.cell()
                        == start.links()[k].cell()),
                forall|k: int|
                    0 <= k < start.links().len() ==> {
                        &&& (#[trigger] record.links()[k]).value() == start.links()[k].value()
                        &&& record.links()[k].cell() == start.links()[k].cell()
                        &&& k >= handles@.len() ==> record.links()[k].listeners() == match hs[k] {
                            Some(h) => match h.subscriber() {
                                Some(id) => dropped(start.links()[k].listeners(), id),
                                None => start.links()[k].listeners(),
                            },
                            None => start.links()[k].listeners(),
                        }
                        &&& k < handles@.len() ==> record.links()[k].listeners()
                            == start.links()[k].listeners()
                    },
            decreases handles@.len(),
        {
            let i = handles.len() - 1;
            let slot = handles.pop().unwrap();
            proof {
                assert(handles@ =~= hs.take(handles@.len() as int));
            }
            let ghost before = *record;
            match slot {
                Some(h) => {
                    let link = record.link_mut(i);
                    h.release(link);
                },
                None => {},
            }
            proof {
                assert forall|k: int| 0 <= k < record.links().len() implies (
                #[trigger] record.links()[k]).wf() by {
                    if k != i {
                        assert(record.links()[k] == before.links()[k]);
                    }
                }
            }
        }
    }
}

/// A one-shot initializer for field `F`: the initial value, or what computes it, handed
/// over at most once.
pub struct Init<F, A> {
    field: PhantomData<F>,
    init: Option<A>,
}

impl<F, A> Init<F, A> {
    /// What the initializer still holds.
    pub closed spec fn pending(&self) -> Option<A> {
        self.init
    }

    /// An initializer holding `a`.
    pub fn new(a: A) -> (r: Self)
        ensures
            r.pending() == Some(a),
    {
        Init { field: PhantomData, init: Some(a) }
    }

    /// Takes the held value and converts it into the content `C`; `None` once taken.
    pub fn get_content<C>(&mut self) -> (r: Option<C>) where A: Into<C>
        ensures
            final(self).pending() is None,
            r is Some <==> old(self).pending() is Some,
            r matches Some(c) ==> (A::obeys_into_spec() ==> c == old(self).pending().unwrap().into_spec()),
    {
        match self.init.take() {
            Some(a) => Some(a.into()),
            None => None,
        }
    }
}

impl<F, O, A: FnOnce() -> O> Init<F, A> {
    /// Runs the held computation and returns its value; `None` once taken.
    pub fn output(&mut self) -> (r: Option<O>)
        requires
            old(self).pending() matches Some(a) ==> a.requires(()),
        ensures
            final(self).pending() is None,
            r is Some <==> old(self).pending() is Some,
            r matches Some(o) ==> old(self).pending().unwrap().ensures((), o),
    {
        match self.init.take() {
            Some(f) => Some(f()),
            None => None,
        }
    }
}

} // verus!

//! A reference-counted pointer to a shared value, compared by identity.
use crate::flag::Access;
use crate::action::ActionError;
use crate::record::{Record, RecordView};
use std::sync::Arc;
use vstd::prelude::*;

verus! {

/// A shared, reference-counted owner of a value. Clones share the value; equality is
/// identity of the allocation, which the ghost `ident` names.
pub struct ArcMap<T> {
    outer: Arc<T>,
    ident: Ghost<int>,
}

/// Relies on `Arc::new`: a new allocation holding `t`. Its identity is not tied to any
/// other: nothing is said of `r.id()`.
#[verifier::external_body]
fn owner_new<T>(t: T) -> (r: ArcMap<T>)
    ensures
        r@ == t,
{
    ArcMap { outer: Arc::new(t), ident: Ghost(arbitrary()) }
}

/// Relies on `Arc::clone`: the clone points at the same allocation, so it has the same
/// identity and the same value.
#[verifier::external_body]
fn owner_clone<T>(a: &ArcMap<T>) -> (r: ArcMap<T>)
    ensures
        r@ == a@,
        r.id() == a.id(),
{
    ArcMap { outer: Arc::clone(&a.outer), ident: Ghost(a.ident@) }
}

/// Relies on `Arc::ptr_eq`: true exactly when both point at one allocation, which then
/// holds one value.
#[verifier::external_body]
fn owner_ptr_eq<T>(a: &ArcMap<T>, b: &ArcMap<T>) -> (r: bool)
    ensures
        r == (a.id() == b.id()),
        r ==> a@ == b@,
{
    Arc::ptr_eq(&a.outer, &b.outer)
}

impl<T> View for ArcMap<T> {
    type V = T;

    closed spec fn view(&self) -> T {
        *self.outer
    }
}

impl<T> ArcMap<T> {
    /// The identity of the allocation: two pointers have the same one exactly when they
    /// point at the same place.
    pub closed spec fn id(&self) -> int {
        self.ident@
    }

    /// A new allocation holding `t`.
    pub fn new(t: T) -> (r: Self)
        ensures
            r@ == t,
    {
        owner_new(t)
    }

    /// Whether `a` and `b` point at the same allocation. When they do, they hold the same
    /// value.
    pub fn ptr_eq(a: &Self, b: &Self) -> (r: bool)
        ensures
            r == (a.id() == b.id()),
            r ==> a@ == b@,
    {
        owner_ptr_eq(a, b)
    }

    /// The shared value.
    pub fn as_ref(&self) -> (r: &T)
        ensures
            *r == self@,
    {
        &self.outer
    }
}

impl<T> Clone for ArcMap<T> {
    /// One more owner of the same allocation.
    fn clone(&self) -> (r: Self)
        ensures
            r@ == self@,
            r.id() == self.id(),
    {
        owner_clone(self)
    }
}

impl<T, C: Fn()> ArcMap<Record<T, C>> {
    /// A view of the shared record without a subscriber, as [`RecordView::share`] makes it:
    /// a write handle for every field the action does not hide; refused when the action
    /// does not fit the record or asks for read-write.
    pub fn share(&self, action: &Vec<Access>) -> (r: Result<RecordView, ActionError>)
        ensures
            action@.len() != self@.links().len() ==> r == Err::<RecordView, ActionError>(
                ActionError::Shape,
            ),
            action@.len() == self@.links().len() ==> {
                &&& r is Ok <==> forall|i: int|
                    0 <= i < action@.len() ==> #[trigger] action@[i] != Access::ReadWrite
                &&& r matches Err(ActionError::Subscribed(i)) ==> i < action@.len()
                    && action@[i as int] == Access::ReadWrite && forall|k: int|
                    0 <= k < i ==> #[trigger] action@[k] != Access::ReadWrite
                &&& r matches Err(e) ==> e is Subscribed
            },
            r matches Ok(v) ==> {
                &&& v.wf()
                &&& v.of(&self@)
                &&& v.action() == action@
                &&& forall|i: int|
                    0 <= i < action@.len() ==> {
                        &&& (#[trigger] v.handles()[i] is Some <==> action@[i] != Access::Hidden)
                        &&& v.handles()[i] matches Some(h) ==> h.access() == Access::Write
                    }
            },
    {
        RecordView::share(self.as_ref(), action)
    }
}

} // verus!

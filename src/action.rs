//! Actions: what a view of a record needs, field by field, and how actions combine.
use crate::flag::{covers, join, Access};
use vstd::prelude::*;

verus! {

/// Why an action or an access was refused.
#[derive(Clone, Copy, Debug, PartialEq, Eq, Structural)]
pub enum ActionError {
    /// An action term names a field the record does not have.
    UnknownField(usize),
    /// The view's action gives no access to this field.
    Hidden(usize),
    /// A view made without a subscriber cannot hold this field read-write.
    Subscribed(usize),
    /// The action does not have one capability per field of the record.
    Shape,
}

/// The capability that the terms `terms` ask for field `i`: the join of every term that
/// names it, `Hidden` when none does.
pub open spec fn field_access(terms: Seq<(usize, Access)>, i: int) -> Access
    decreases terms.len(),
{
    if terms.len() == 0 {
        Access::Hidden
    } else {
        join(
            field_access(terms.drop_last(), i),
            if terms.last().0 == i {
                terms.last().1
            } else {
                Access::Hidden
            },
        )
    }
}

/// Every term of `terms` names one of the `n` fields.
pub open spec fn terms_in_range(terms: Seq<(usize, Access)>, n: nat) -> bool {
    forall|j: int| 0 <= j < terms.len() ==> (#[trigger] terms[j]).0 < n
}

/// The action of `n` fields that `terms` asks for.
pub open spec fn resolved(terms: Seq<(usize, Access)>, n: nat) -> Seq<Access> {
    Seq::new(n, |i: int| field_access(terms, i))
}

/// `a` gives, field by field, at least what `b` needs.
pub open spec fn action_implies(a: Seq<Access>, b: Seq<Access>) -> bool {
    a.len() == b.len() && forall|i: int| 0 <= i < a.len() ==> covers(#[trigger] a[i], b[i])
}

/// The action that serves both `a` and `b`: the join field by field.
pub open spec fn action_join(a: Seq<Access>, b: Seq<Access>) -> Seq<Access> {
    Seq::new(a.len(), |i: int| join(a[i], b[i]))
}

/// An action term: field `0` with a write handle.
#[derive(Clone, Copy, Debug, PartialEq, Eq, Structural)]
pub struct LoadW(pub usize);

/// An action term: field `0` with a subscribed handle.
#[derive(Clone, Copy, Debug, PartialEq, Eq, Structural)]
pub struct LoadRW(pub usize);

impl LoadW {
    /// The term as a field and the capability it asks for.
    pub fn term(self) -> (r: (usize, Access))
        ensures
            r == (self.0, Access::Write),
    {
        (self.0, Access::Write)
    }
}

impl LoadRW {
    /// The term as a field and the capability it asks for.
    pub fn term(self) -> (r: (usize, Access))
        ensures
            r == (self.0, Access::ReadWrite),
    {
        (self.0, Access::ReadWrite)
    }
}

/// A record type, as its declaration describes it: the number of its fields.
pub trait ShareableStruct {
    fn fields() -> usize;
}

/// A named action on the record type `S`: one capability per field of `S`.
pub trait ActionsFor<S: ShareableStruct> {
    fn action() -> Vec<Access>;
}

/// `B: AsActions<S, A>` declares that the action `B` implies the action `A`, so a view
/// made with `B` may be used as one made with `A` (see [`crate::RecordView::cast`]).
pub trait AsActions<S: ShareableStruct, A: ActionsFor<S>>: ActionsFor<S> {
}

/// The terms by which a sub-record's action enters the action of the record that holds
/// it: the sub-record's field `j` is the record's field `offset + j`.
pub open spec fn embedded(offset: int, action: Seq<Access>) -> Seq<(usize, Access)> {
    Seq::new(action.len(), |j: int| ((offset + j) as usize, action[j]))
}

/// The terms of a sub-record's action, placed at the sub-record's first field `offset`
/// in the record that holds it.
pub fn substruct_terms(offset: usize, action: &Vec<Access>) -> (r: Vec<(usize, Access)>)
    requires
        offset + action@.len() <= usize::MAX,
    ensures
        r@ == embedded(offset as int, action@),
{
    let mut r: Vec<(usize, Access)> = Vec::new();
    let mut j: usize = 0;
    while j < action.len()
        invariant
            offset + action@.len() <= usize::MAX,
            0 <= j <= action@.len(),
            r@ == embedded(offset as int, action@).take(j as int),
        decreases action@.len() - j,
    {
        r.push((offset + j, action[j]));
        proof {
            assert(r@ =~= embedded(offset as int, action@).take(j + 1));
        }
        j = j + 1;
    }
    assert(r@ =~= embedded(offset as int, action@));
    r
}

/// Resolving two lists of terms one after the other joins what each asks for.
pub proof fn lemma_field_access_append(t1: Seq<(usize, Access)>, t2: Seq<(usize, Access)>, i: int)
    ensures
        field_access(t1 + t2, i) == join(field_access(t1, i), field_access(t2, i)),
    decreases t2.len(),
{
    if t2.len() == 0 {
        assert(t1 + t2 =~= t1);
    } else {
        assert((t1 + t2).drop_last() =~= t1 + t2.drop_last());
        lemma_field_access_append(t1, t2.drop_last(), i);
    }
}

/// The order of the terms of an action does not matter: the same terms in either order
/// resolve to the same capability on every field.
pub proof fn lemma_resolution_order_free(t1: Seq<(usize, Access)>, t2: Seq<(usize, Access)>, i: int)
    ensures
        field_access(t1 + t2, i) == field_access(t2 + t1, i),
{
    lemma_field_access_append(t1, t2, i);
    lemma_field_access_append(t2, t1, i);
}

/// A sub-record's action, embedded at `offset`, asks for exactly its own capability on
/// the sub-record's fields and for nothing elsewhere; so resolving a record's terms
/// together with it joins, field by field, the record's own requirement with the
/// sub-record's.
pub proof fn lemma_substruct_resolution(
    terms: Seq<(usize, Access)>,
    offset: usize,
    action: Seq<Access>,
    i: int,
)
    requires
        offset + action.len() <= usize::MAX,
        0 <= i <= usize::MAX,
    ensures
        offset <= i < offset + action.len() ==> field_access(embedded(offset as int, action), i)
            == action[i - offset],
        !(offset <= i < offset + action.len()) ==> field_access(embedded(offset as int, action), i)
            == Access::Hidden,
        field_access(terms + embedded(offset as int, action), i) == join(
            field_access(terms, i),
            field_access(embedded(offset as int, action), i),
        ),
{
    lemma_embedded_access(offset, action, action.len(), i);
    assert(embedded(offset as int, action).take(action.len() as int) =~= embedded(
        offset as int,
        action,
    ));
    lemma_field_access_append(terms, embedded(offset as int, action), i);
}

proof fn lemma_embedded_access(offset: usize, action: Seq<Access>, k: nat, i: int)
    requires
        offset + action.len() <= usize::MAX,
        k <= action.len(),
        0 <= i <= usize::MAX,
    ensures
        offset <= i < offset + k ==> field_access(embedded(offset as int, action).take(k as int), i)
            == action[i - offset],
        !(offset <= i < offset + k) ==> field_access(
            embedded(offset as int, action).take(k as int),
            i,
        ) == Access::Hidden,
    decreases k,
{
    if k > 0 {
        let e = embedded(offset as int, action);
        assert(e.take(k as int).drop_last() =~= e.take(k - 1));
        lemma_embedded_access(offset, action, (k - 1) as nat, i);
    }
}

/// Resolves the terms of an action over a record of `n` fields: each field gets the join
/// of the capabilities of the terms that name it.
pub fn resolve(n: usize, terms: &Vec<(usize, Access)>) -> (r: Result<Vec<Access>, ActionError>)
    ensures
        r is Ok <==> terms_in_range(terms@, n as nat),
        r matches Ok(a) ==> a@ == resolved(terms@, n as nat),
        r matches Err(e) ==> exists|j: int|
            {
                &&& 0 <= j < terms@.len()
                &&& #[trigger] terms@[j].0 >= n
                &&& e == ActionError::UnknownField(terms@[j].0)
                &&& forall|k: int| 0 <= k < j ==> (#[trigger] terms@[k]).0 < n
            },
{
    let mut j: usize = 0;
    while j < terms.len()
        invariant
            0 <= j <= terms@.len(),
            forall|k: int| 0 <= k < j ==> (#[trigger] terms@[k]).0 < n,
        decreases terms@.len() - j,
    {
        if terms[j].0 >= n {
            return Err(ActionError::UnknownField(terms[j].0));
        }
        j = j + 1;
    }
    let mut a: Vec<Access> = Vec::new();
    let mut i: usize = 0;
    while i < n
        invariant
            0 <= i <= n,
            a@.len() == i,
            forall|k: int| 0 <= k < i ==> #[trigger] a@[k] == field_access(terms@, k),
        decreases n - i,
    {
        let mut acc = Access::Hidden;
        let mut j: usize = 0;
        while j < terms.len()
            invariant
                0 <= j <= terms@.len(),
                acc == field_access(terms@.take(j as int), i as int),
            decreases terms@.len() - j,
        {
            proof {
                assert(terms@.take(j + 1).drop_last() =~= terms@.take(j as int));
            }
            if terms[j].0 == i {
                acc = acc.combine(terms[j].1);
            } else {
                acc = acc.combine(Access::Hidden);
            }
            j = j + 1;
        }
        proof {
            assert(terms@.take(terms@.len() as int) =~= terms@);
        }
        a.push(acc);
        i = i + 1;
    }
    assert(a@ =~= resolved(terms@, n as nat));
    Ok(a)
}

/// Joins two actions over the same record, field by field.
pub fn combine_actions(a: &Vec<Access>, b: &Vec<Access>) -> (r: Result<Vec<Access>, ActionError>)
    ensures
        r is Ok <==> a@.len() == b@.len(),
        r matches Ok(c) ==> c@ == action_join(a@, b@),
        r matches Err(e) ==> e == ActionError::Shape,
{
    if a.len() != b.len() {
        return Err(ActionError::Shape);
    }
    let mut c: Vec<Access> = Vec::new();
    let mut i: usize = 0;
    while i < a.len()
        invariant
            a@.len() == b@.len(),
            0 <= i <= a@.len(),
            c@.len() == i,
            forall|k: int| 0 <= k < i ==> #[trigger] c@[k] == join(a@[k], b@[k]),
        decreases a@.len() - i,
    {
        c.push(a[i].combine(b[i]));
        i = i + 1;
    }
    assert(c@ =~= action_join(a@, b@));
    Ok(c)
}

/// Whether a view with action `a` may be used as a view with action `b`.
pub fn implies_actions(a: &Vec<Access>, b: &Vec<Access>) -> (r: bool)
    ensures
        r == action_implies(a@, b@),
{
    if a.len() != b.len() {
        return false;
    }
    let mut i: usize = 0;
    while i < a.len()
        invariant
            a@.len() == b@.len(),
            0 <= i <= a@.len(),
            forall|k: int| 0 <= k < i ==> covers(#[trigger] a@[k], b@[k]),
        decreases a@.len() - i,
    {
        if !a[i].implies(b[i]) {
            return false;
        }
        i = i + 1;
    }
    true
}

/// Actions over one record form the same lattice as capabilities, field by field:
/// joining is commutative, associative and idempotent, and the join implies both sides.
pub proof fn lemma_action_join_laws(a: Seq<Access>, b: Seq<Access>, c: Seq<Access>)
    requires
        a.len() == b.len(),
        b.len() == c.len(),
    ensures
        action_join(a, b) == action_join(b, a),
        action_join(action_join(a, b), c) == action_join(a, action_join(b, c)),
        action_join(a, a) == a,
        action_implies(action_join(a, b), a),
        action_implies(action_join(a, b), b),
{
    assert(action_join(a, b) =~= action_join(b, a));
    assert(action_join(action_join(a, b), c) =~= action_join(a, action_join(b, c)));
    assert(action_join(a, a) =~= a);
}

/// Implication between actions is a partial order.
pub proof fn lemma_action_implies_order(a: Seq<Access>, b: Seq<Access>, c: Seq<Access>)
    ensures
        action_implies(a, a),
        action_implies(a, b) && action_implies(b, c) ==> action_implies(a, c),
        action_implies(a, b) && action_implies(b, a) ==> a == b,
{
    if action_implies(a, b) && action_implies(b, a) {
        assert(a =~= b);
    }
}

} // verus!

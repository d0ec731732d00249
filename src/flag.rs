//! The capability lattice `{Hidden, Write, ReadWrite}` and its type-level markers.
use vstd::prelude::*;

verus! {

/// What a view may do with one field.
///
/// `Hidden` gives no access; `Write` gives a handle that may read and write but is never
/// notified; `ReadWrite` gives a handle that is subscribed to the field's changes.
#[derive(Clone, Copy, Debug, PartialEq, Eq, Structural)]
pub enum Access {
    Hidden,
    Write,
    ReadWrite,
}

/// The join of two capabilities: the least capability that serves both requirements.
pub open spec fn join(a: Access, b: Access) -> Access {
    if a == Access::ReadWrite || b == Access::ReadWrite {
        Access::ReadWrite
    } else if a == Access::Write || b == Access::Write {
        Access::Write
    } else {
        Access::Hidden
    }
}

/// `covers(a, b)`: a handle obtained with capability `a` may stand in for one with `b`.
pub open spec fn covers(a: Access, b: Access) -> bool {
    b == Access::Hidden || a == b || a == Access::ReadWrite
}

impl Access {
    /// Joins two requirements on the same field.
    pub fn combine(self, other: Access) -> (r: Access)
        ensures
            r == join(self, other),
    {
        match (self, other) {
            (Access::ReadWrite, _) | (_, Access::ReadWrite) => Access::ReadWrite,
            (Access::Write, _) | (_, Access::Write) => Access::Write,
            _ => Access::Hidden,
        }
    }

    /// Whether a view holding `self` on a field may be reinterpreted as one needing `other`.
    pub fn implies(self, other: Access) -> (r: bool)
        ensures
            r == covers(self, other),
    {
        match (self, other) {
            (_, Access::Hidden) => true,
            (Access::ReadWrite, _) => true,
            (Access::Write, Access::Write) => true,
            _ => false,
        }
    }

    /// Whether a handle with this capability is subscribed to changes.
    pub fn reads(self) -> (r: bool)
        ensures
            r == (self == Access::ReadWrite),
    {
        matches!(self, Access::ReadWrite)
    }
}

/// Joining is commutative.
pub proof fn lemma_combine_commutative(a: Access, b: Access)
    ensures
        join(a, b) == join(b, a),
{
}

/// Joining is associative.
pub proof fn lemma_combine_associative(a: Access, b: Access, c: Access)
    ensures
        join(join(a, b), c) == join(a, join(b, c)),
{
}

/// Joining a requirement with itself changes nothing.
pub proof fn lemma_combine_idempotent(a: Access)
    ensures
        join(a, a) == a,
{
}

/// `Hidden` is the unit of the join.
pub proof fn lemma_combine_hidden(a: Access)
    ensures
        join(Access::Hidden, a) == a,
        join(a, Access::Hidden) == a,
{
}

/// The order behind `implies`: read-write covers write, write covers hidden, every
/// capability covers itself, and hidden does not cover write nor write read-write.
pub proof fn lemma_implies_order(x: Access)
    ensures
        covers(Access::ReadWrite, Access::Write),
        covers(Access::Write, Access::Hidden),
        covers(x, x),
        !covers(Access::Hidden, Access::Write),
        !covers(Access::Write, Access::ReadWrite),
{
}

/// `implies` is a partial order: transitive and antisymmetric.
pub proof fn lemma_implies_partial_order(a: Access, b: Access, c: Access)
    ensures
        covers(a, b) && covers(b, c) ==> covers(a, c),
        covers(a, b) && covers(b, a) ==> a == b,
{
}

/// The join is the least upper bound for `implies`: it covers both operands, and any
/// capability that covers both operands covers the join.
pub proof fn lemma_combine_least_upper_bound(a: Access, b: Access, c: Access)
    ensures
        covers(join(a, b), a),
        covers(join(a, b), b),
        covers(c, a) && covers(c, b) ==> covers(c, join(a, b)),
{
}

/// Marker for a write access: a handle that may write, and read, but is never notified.
#[derive(Clone, Copy)]
pub struct W;

/// Marker for a read access: a handle that is notified of every tracked write.
#[derive(Clone, Copy)]
pub struct RW;

/// A capability written as a type: `()` for no access, [`W`] and [`RW`].
pub trait StructFlag: Sized {
    spec fn access() -> Access;

    fn flag() -> (r: Access)
        ensures
            r == Self::access(),
    ;
}

impl StructFlag for () {
    open spec fn access() -> Access {
        Access::Hidden
    }

    fn flag() -> (r: Access) {
        Access::Hidden
    }
}

impl StructFlag for W {
    open spec fn access() -> Access {
        Access::Write
    }

    fn flag() -> (r: Access) {
        Access::Write
    }
}

impl StructFlag for RW {
    open spec fn access() -> Access {
        Access::ReadWrite
    }

    fn flag() -> (r: Access) {
        Access::ReadWrite
    }
}

/// The flags that give a handle: [`W`] and [`RW`].
pub trait Flag: StructFlag {
    /// Whether a handle with this flag subscribes to the value.
    fn read() -> (r: bool)
        ensures
            r == (Self::access() == Access::ReadWrite),
            Self::access() != Access::Hidden,
    ;
}

impl Flag for W {
    fn read() -> (r: bool) {
        false
    }
}

impl Flag for RW {
    fn read() -> (r: bool) {
        true
    }
}

/// The flags under which a handle may be made without a subscriber: `()` and [`W`].
pub trait ShareFlag: StructFlag {
    proof fn lemma_unsubscribed()
        ensures
            Self::access() != Access::ReadWrite,
    ;
}

impl ShareFlag for () {
    proof fn lemma_unsubscribed() {
    }
}

impl ShareFlag for W {
    proof fn lemma_unsubscribed() {
    }
}

/// The join of two flags, computed by the type system.
pub trait CombineFlag<F: StructFlag>: StructFlag {
    type Combined: StructFlag;

    proof fn lemma_combined()
        ensures
            <Self::Combined as StructFlag>::access() == join(Self::access(), F::access()),
    ;
}

impl CombineFlag<()> for () {
    type Combined = ();

    proof fn lemma_combined() {
    }
}

impl CombineFlag<W> for () {
    type Combined = W;

    proof fn lemma_combined() {
    }
}

impl CombineFlag<RW> for () {
    type Combined = RW;

    proof fn lemma_combined() {
    }
}

impl CombineFlag<()> for W {
    type Combined = W;

    proof fn lemma_combined() {
    }
}

impl CombineFlag<W> for W {
    type Combined = W;

    proof fn lemma_combined() {
    }
}

impl CombineFlag<RW> for W {
    type Combined = RW;

    proof fn lemma_combined() {
    }
}

impl CombineFlag<()> for RW {
    type Combined = RW;

    proof fn lemma_combined() {
    }
}

impl CombineFlag<W> for RW {
    type Combined = RW;

    proof fn lemma_combined() {
    }
}

impl CombineFlag<RW> for RW {
    type Combined = RW;

    proof fn lemma_combined() {
    }
}

/// `A: ImpliesFlag<B>`: a view with flag `A` on a field may be used where flag `B` is
/// needed.
pub trait ImpliesFlag<B: StructFlag>: StructFlag {
    proof fn lemma_implies()
        ensures
            covers(Self::access(), B::access()),
    ;
}

impl ImpliesFlag<()> for () {
    proof fn lemma_implies() {
    }
}

impl ImpliesFlag<()> for W {
    proof fn lemma_implies() {
    }
}

impl ImpliesFlag<()> for RW {
    proof fn lemma_implies() {
    }
}

impl ImpliesFlag<W> for W {
    proof fn lemma_implies() {
    }
}

impl ImpliesFlag<W> for RW {
    proof fn lemma_implies() {
    }
}

impl ImpliesFlag<RW> for RW {
    proof fn lemma_implies() {
    }
}

/// The order on flags, for use in bounds: every [`ImpliesFlag`] pair.
pub trait Implies<B: StructFlag>: ImpliesFlag<B> {
}

impl<B: StructFlag, A: ImpliesFlag<B>> Implies<B> for A {
}

} // verus!

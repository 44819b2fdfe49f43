use vstd::prelude::*;
use std::marker::PhantomData;
use vstd::std_specs::iter::IteratorSpec;
use crate::entity::EntityId;

verus! {

/// The entities that a detector's aggregate has collected, in order.
#[derive(Debug)]
pub struct TIntersectionsAggregate(pub Vec<EntityId>);

impl TIntersectionsAggregate {
    /// An empty aggregate.
    pub fn new() -> (a: TIntersectionsAggregate)
        ensures
            a.0@ == Seq::<EntityId>::empty(),
    {
        return Self(Vec::new())
    }

    /// An iterator over the aggregated entities, in order.
    pub fn iter(&self) -> (it: std::slice::Iter<'_, EntityId>)
        ensures
            it.remaining() == self.0@.as_ref(),
    {
        broadcast use vstd::std_specs::slice::axiom_spec_slice_iter;

        return self.0.as_slice().iter();
    }
}

impl Default for TIntersectionsAggregate {
    fn default() -> (a: TIntersectionsAggregate)
        ensures
            a.0@ == Seq::<EntityId>::empty(),
    {
        Self(Vec::new())
    }
}

/// Signed waymark: the entity of a detector, for references of signature `S`.
pub struct ToDetector<S> {
    waymark: EntityId,
    signature: PhantomData<S>,
}

impl<S> ToDetector<S> {
    /// The detector entity that the waymark points to.
    pub closed spec fn points_to(self) -> EntityId {
        self.waymark
    }

    /// A waymark to the given detector entity.
    pub fn new(waymark: EntityId) -> (t: ToDetector<S>)
        ensures
            t.points_to() == waymark,
    {
        ToDetector { waymark, signature: PhantomData }
    }

    /// The detector entity that the waymark points to.
    pub fn go(&self) -> (e: EntityId)
        ensures
            e == self.points_to(),
    {
        return self.waymark
    }
}

/// A component that holds one entity distilled from a detector's aggregate,
/// for users to implement.
pub trait DistillationColumn {
    /// The distilled entity that the component holds.
    spec fn distilled(&self) -> Option<EntityId>;

    /// Meant for general use.
    fn read_detection(&self) -> (r: Option<EntityId>)
        ensures
            r == self.distilled(),
    ;

    /// Meant for use with systems that edit a component type traited with
    /// distillation column, by using their local aggregate.
    fn distiller_set(&mut self, v: Option<EntityId>)
        ensures
            final(self).distilled() == v,
    ;
}

/// Prefab function for distillation systems: clears the column, then sets it,
/// entity by entity in the aggregate's order, to what the distillation logic
/// gives for that entity. The column ends with the logic's result for the last
/// aggregated entity, or empty when the aggregate is.
pub fn distill<Column: DistillationColumn>(
    column: &mut Column,
    aggregate: &TIntersectionsAggregate,
    distillation_logic: impl Fn(EntityId) -> Option<EntityId>,
)
    requires
        forall|i: int|
            0 <= i < aggregate.0@.len() ==> distillation_logic.requires((aggregate.0@[i],)),
    ensures
        aggregate.0@.len() == 0 ==> final(column).distilled() is None,
        aggregate.0@.len() > 0 ==> distillation_logic.ensures(
            (aggregate.0@.last(),),
            final(column).distilled(),
        ),
{
    column.distiller_set(None);
    let n = aggregate.0.len();
    let mut i: usize = 0;
    while i < n
        invariant
            n == aggregate.0@.len(),
            0 <= i <= n,
            forall|j: int|
                0 <= j < aggregate.0@.len() ==> distillation_logic.requires((aggregate.0@[j],)),
            i == 0 ==> column.distilled() is None,
            i > 0 ==> distillation_logic.ensures((aggregate.0@[i - 1],), column.distilled()),
        decreases n - i,
    {
        let entity = aggregate.0[i];
        let v = distillation_logic(entity);
        column.distiller_set(v);
        i = i + 1;
    }
}

} // verus!

use vstd::prelude::*;
use bevy::utils::HashMap;

verus! {

/// The key of `f32::MAX`: the bits of that float, read as an integer.
/// For distances that are not negative, comparing keys compares the distances.
pub const FAR_DISTANCE_KEY: u32 = 0x7f7f_ffffu32;

/// Distances of detected entities, keyed by the entities' bits. A distance is
/// held by its key (the bits of a non-negative float), which orders distances
/// as the floats themselves are ordered. The table is a hash map of the ECS's
/// utilities, in which a later insertion under the same entity replaces the
/// earlier one, and which is walked in an order that its hashing decides.
#[verifier::external_body]
pub struct DistanceTable {
    table: HashMap<u64, u32>,
}

/// What a distance table holds: entity bits to distance keys.
pub uninterp spec fn distance_table_contents(table: DistanceTable) -> Map<u64, u32>;

impl View for DistanceTable {
    type V = Map<u64, u32>;

    open spec fn view(&self) -> Map<u64, u32> {
        distance_table_contents(*self)
    }
}

impl DistanceTable {
    /// Calls `HashMap::new` of the ECS utilities: the new table holds nothing.
    #[verifier::external_body]
    fn hash_map_new() -> (table: DistanceTable)
        ensures
            distance_table_contents(table).is_empty(),
    {
        DistanceTable { table: HashMap::new() }
    }

    /// A table that holds no distance.
    pub fn new() -> (table: DistanceTable)
        ensures
            table@.is_empty(),
    {
        Self::hash_map_new()
    }

    /// Calls `HashMap::insert`: afterwards the entity maps to the given
    /// distance, and every other entry is kept.
    #[verifier::external_body]
    pub(crate) fn insert(&mut self, entity: u64, distance: u32)
        ensures
            distance_table_contents(*final(self)) == distance_table_contents(*old(self)).insert(
                entity,
                distance,
            ),
    {
        self.table.insert(entity, distance);
    }

    /// Calls `HashMap::is_empty`: true exactly when the table holds nothing.
    #[verifier::external_body]
    pub(crate) fn is_empty(&self) -> (r: bool)
        ensures
            r == distance_table_contents(*self).is_empty(),
    {
        self.table.is_empty()
    }

    /// Calls `HashMap::iter` and hands each entry out as a pair. Each entry of
    /// the table comes out exactly once; the order is the map's walk, which
    /// its hashing decides and which nothing here states.
    #[verifier::external_body]
    pub(crate) fn entries(&self) -> (r: Vec<(u64, u32)>)
        ensures
            forall|i: int|
                0 <= i < r@.len() ==> distance_table_contents(*self).contains_key(
                    #[trigger] r@[i].0,
                ) && distance_table_contents(*self)[r@[i].0] == r@[i].1,
            forall|i: int, j: int| 0 <= i < j < r@.len() ==> r@[i].0 != r@[j].0,
            forall|k: u64| #[trigger]
                distance_table_contents(*self).contains_key(k) ==> exists|i: int|
                    0 <= i < r@.len() && r@[i].0 == k,
    {
        self.table.iter().map(|(k, v)| (*k, *v)).collect()
    }
}

} // verus!

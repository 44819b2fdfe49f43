use vstd::prelude::*;
use crate::entity::{EntityId, placeholder_bits};
use crate::distance_table::FAR_DISTANCE_KEY;

verus! {

/// Whether `i` is the position of the defend target among `enemies`: the last
/// enemy at the least distance, where that distance is at most the largest
/// finite one.
pub open spec fn is_defend_target_index(enemies: Seq<(EntityId, u32)>, i: int) -> bool {
    &&& 0 <= i < enemies.len()
    &&& enemies[i].1 <= FAR_DISTANCE_KEY
    &&& forall|j: int| 0 <= j < enemies.len() ==> enemies[i].1 <= #[trigger] enemies[j].1
    &&& forall|j: int| i < j < enemies.len() ==> enemies[i].1 < #[trigger] enemies[j].1
}

/// Defend target = closest. Each enemy comes with the key of its distance from
/// the defender's body, in the order the enemies are queried. The target is
/// the last enemy at the least distance; where no enemy is at a finite
/// distance, it is the placeholder entity.
pub fn defend_target_selection(enemies: &Vec<(EntityId, u32)>) -> (target: EntityId)
    ensures
        (forall|j: int| 0 <= j < enemies@.len() ==> #[trigger] enemies@[j].1 > FAR_DISTANCE_KEY)
            ==> target.0 == placeholder_bits(),
        (exists|j: int| 0 <= j < enemies@.len() && #[trigger] enemies@[j].1 <= FAR_DISTANCE_KEY)
            ==> exists|i: int| is_defend_target_index(enemies@, i) && enemies@[i].0 == target,
{
    let mut closest = EntityId::placeholder();
    let mut closest_val: u32 = FAR_DISTANCE_KEY;
    let ghost mut idx: int = -1;
    let n = enemies.len();
    let mut i: usize = 0;
    while i < n
        invariant
            n == enemies@.len(),
            0 <= i <= n,
            idx == -1 ==> {
                &&& closest.0 == placeholder_bits()
                &&& closest_val == FAR_DISTANCE_KEY
                &&& forall|j: int| 0 <= j < i ==> #[trigger] enemies@[j].1 > FAR_DISTANCE_KEY
            },
            idx != -1 ==> {
                &&& 0 <= idx < i
                &&& enemies@[idx].0 == closest
                &&& enemies@[idx].1 == closest_val
                &&& closest_val <= FAR_DISTANCE_KEY
                &&& forall|j: int| 0 <= j < i ==> closest_val <= #[trigger] enemies@[j].1
                &&& forall|j: int| idx < j < i ==> closest_val < #[trigger] enemies@[j].1
            },
        decreases n - i,
    {
        let (enemy, distance) = enemies[i];
        if distance > closest_val {
            i = i + 1;
            continue;
        }
        closest_val = distance;
        closest = enemy;
        proof {
            idx = i as int;
        }
        i = i + 1;
    }
    proof {
        if exists|j: int| 0 <= j < enemies@.len() && #[trigger] enemies@[j].1 <= FAR_DISTANCE_KEY {
            let j = choose|j: int| 0 <= j < enemies@.len() && #[trigger] enemies@[j].1 <= FAR_DISTANCE_KEY;
            assert(idx != -1);
            assert(is_defend_target_index(enemies@, idx));
        }
    }
    closest
}

} // verus!

use vstd::prelude::*;
use bevy_rapier2d::prelude::Group;
use crate::entity::{EntityId, placeholder_bits};
use crate::distance_table::{DistanceTable, FAR_DISTANCE_KEY, distance_table_contents};
use crate::single_result::SingleResultDetection;

verus! {

/// The soul of an RTS unit: the entity by which the unit is found and targeted.
#[derive(Clone, Copy, Debug, PartialEq, Eq, Structural)]
pub struct RTSUnitSoul {
    entity: EntityId,
}

impl RTSUnitSoul {
    /// The soul of the given entity.
    pub closed spec fn soul_of(entity: EntityId) -> RTSUnitSoul {
        RTSUnitSoul { entity }
    }

    /// The entity of a soul.
    pub closed spec fn entity_of(self) -> EntityId {
        self.entity
    }

    /// The soul of the given entity.
    pub fn new(entity: EntityId) -> (s: RTSUnitSoul)
        ensures
            s == RTSUnitSoul::soul_of(entity),
            s.entity_of() == entity,
    {
        RTSUnitSoul { entity }
    }

    /// The entity of this soul.
    pub fn entity(&self) -> (e: EntityId)
        ensures
            e == self.entity_of(),
    {
        self.entity
    }
}

/// The entity of an optional soul.
pub open spec fn soul_entity(soul: Option<RTSUnitSoul>) -> Option<EntityId> {
    match soul {
        Some(s) => Some(s.entity_of()),
        None => None,
    }
}

/// The team of a unit.
#[derive(Clone, Copy, Debug, PartialEq, Eq, Structural)]
pub enum RTSTeam {
    Player,
    Enemy,
}

/// The physics query filter with which a detector looks for units: the one
/// that sees the detectable units of the player, or those of the enemy.
#[derive(Clone, Copy, Debug, PartialEq, Eq, Structural)]
pub enum DetectableFilter {
    PlayerDetectable,
    EnemyDetectable,
}

/// One collider that a detector's circle intersects: its entity, and the key
/// of its distance from the detector (`None` where the entity has no collider
/// to measure).
#[derive(Clone, Copy, Debug, PartialEq, Eq, Structural)]
pub struct DetectionHit {
    pub entity: EntityId,
    pub distance: Option<u32>,
}

/// One intersection met by a detector with an additional group filter: the
/// hit, and the collision-group memberships of its entity (`None` where the
/// entity has no collision groups).
#[derive(Clone, Copy, Debug, PartialEq, Eq, Structural)]
pub struct FilteredHit {
    pub hit: DetectionHit,
    pub memberships: Option<u32>,
}

/// The distances that a sequence of hits records, in order: a later hit of the
/// same entity replaces an earlier one, and a hit without a distance records
/// nothing.
pub open spec fn hits_table(hits: Seq<DetectionHit>) -> Map<u64, u32>
    decreases hits.len(),
{
    if hits.len() == 0 {
        Map::empty()
    } else {
        let before = hits_table(hits.drop_last());
        match hits.last().distance {
            Some(d) => before.insert(hits.last().entity.0, d),
            None => before,
        }
    }
}

/// Whether some entry of a distance table is nearer than the largest finite
/// distance.
pub open spec fn has_near_entry(m: Map<u64, u32>) -> bool {
    exists|k: u64| m.contains_key(k) && m[k] < FAR_DISTANCE_KEY
}

/// What the closest-entity search may give for a table: nothing for an empty
/// table; otherwise an entity of the table at the least distance, where that
/// distance is below the largest finite one, and the placeholder entity where
/// no distance is.
pub open spec fn is_closest_entity(m: Map<u64, u32>, r: Option<EntityId>) -> bool {
    if m.is_empty() {
        r is None
    } else {
        r matches Some(e) && if has_near_entry(m) {
            &&& m.contains_key(e.0)
            &&& m[e.0] < FAR_DISTANCE_KEY
            &&& forall|k: u64| m.contains_key(k) ==> m[e.0] <= m[k]
        } else {
            e.0 == placeholder_bits()
        }
    }
}

/// The target detection for a detector whose target input is `target`: the
/// target's soul where one of the hits is the target's entity, else nothing.
pub open spec fn target_found(target: Option<RTSUnitSoul>, hits: Seq<DetectionHit>) -> Option<
    RTSUnitSoul,
> {
    match target {
        Some(t) => if exists|i: int| 0 <= i < hits.len() && hits[i].entity == t.entity_of() {
            Some(RTSUnitSoul::soul_of(t.entity_of()))
        } else {
            None
        },
        None => None,
    }
}

/// Whether collision-group memberships hold every bit of a group.
pub open spec fn memberships_hold(memberships: u32, group: u32) -> bool {
    memberships & group == group
}

/// Whether an entity's memberships, where it has collision groups, hold
/// every bit of a group.
pub open spec fn optional_memberships_hold(memberships: Option<u32>, group: u32) -> bool {
    memberships matches Some(m) && memberships_hold(m, group)
}

/// Whether a filtered hit passes the detector's additional group filter.
pub open spec fn passes_group(h: FilteredHit, group: u32) -> bool {
    optional_memberships_hold(h.memberships, group)
}

/// The number of filtered hits before the first one that fails the group
/// filter (all of them where none fails).
pub open spec fn accepted_len(hits: Seq<FilteredHit>, group: u32) -> int {
    choose|n: int| is_accepted_len(hits, group, n)
}

/// Whether the first `n` filtered hits pass the group filter and the next
/// one, if any, fails it.
pub open spec fn is_accepted_len(hits: Seq<FilteredHit>, group: u32, n: int) -> bool {
    &&& 0 <= n <= hits.len()
    &&& forall|i: int| 0 <= i < n ==> passes_group(#[trigger] hits[i], group)
    &&& n < hits.len() ==> !passes_group(hits[n], group)
}

/// The plain hits of a sequence of filtered hits.
pub open spec fn unfiltered(hits: Seq<FilteredHit>) -> Seq<DetectionHit> {
    hits.map_values(|h: FilteredHit| h.hit)
}

/// Calls `Group::contains` of the physics crate on groups made from the raw
/// bits: true exactly when the memberships hold every bit of the group.
#[verifier::external_body]
fn group_memberships_contain(memberships: u32, group: u32) -> (r: bool)
    ensures
        r == memberships_hold(memberships, group),
{
    Group::from_bits_retain(memberships).contains(Group::from_bits_retain(group))
}

/// A detector that reports the units that intersect a circle around it: the
/// held target unit, the closest unit and an arbitrary unit.
#[derive(Clone, Copy, Debug, PartialEq, Eq, Structural)]
pub struct CircleIntersectUnitDetector {
    target_team: RTSTeam,
    target: Option<RTSUnitSoul>,
    target_detection: Option<RTSUnitSoul>,
    closest_detection: Option<RTSUnitSoul>,
    arbitrary_detection: Option<RTSUnitSoul>,
}

impl CircleIntersectUnitDetector {
    /// The team whose units the detector looks for.
    pub closed spec fn team(self) -> RTSTeam {
        self.target_team
    }

    /// The target unit that the detector is asked to find.
    pub closed spec fn target_input(self) -> Option<RTSUnitSoul> {
        self.target
    }

    /// The target unit as last detected.
    pub closed spec fn target_output(self) -> Option<RTSUnitSoul> {
        self.target_detection
    }

    /// The closest unit as last detected.
    pub closed spec fn closest_output(self) -> Option<RTSUnitSoul> {
        self.closest_detection
    }

    /// An arbitrary unit as last detected.
    pub closed spec fn arbitrary_output(self) -> Option<RTSUnitSoul> {
        self.arbitrary_detection
    }

    /// A detector for the units of a team, with no target and nothing detected.
    pub fn new(target_team: RTSTeam) -> (d: CircleIntersectUnitDetector)
        ensures
            d.team() == target_team,
            d.target_input() is None,
            d.target_output() is None,
            d.closest_output() is None,
            d.arbitrary_output() is None,
    {
        CircleIntersectUnitDetector {
            target_team,
            target: None,
            target_detection: None,
            closest_detection: None,
            arbitrary_detection: None,
        }
    }

    /// The query filter for the detector's team.
    pub fn filter(&self) -> (f: DetectableFilter)
        ensures
            f == (match self.team() {
                RTSTeam::Player => DetectableFilter::PlayerDetectable,
                RTSTeam::Enemy => DetectableFilter::EnemyDetectable,
            }),
    {
        match self.target_team {
            RTSTeam::Player => {
                return DetectableFilter::PlayerDetectable;
            },
            RTSTeam::Enemy => {
                return DetectableFilter::EnemyDetectable;
            },
        }
    }

    /// The team whose units the detector looks for.
    pub fn target_team(&self) -> (t: RTSTeam)
        ensures
            t == self.team(),
    {
        self.target_team
    }

    /// The target unit that the detector is asked to find.
    pub fn target(&self) -> (t: Option<RTSUnitSoul>)
        ensures
            t == self.target_input(),
    {
        self.target
    }

    /// The target unit as last detected.
    pub fn target_detection(&self) -> (t: Option<RTSUnitSoul>)
        ensures
            t == self.target_output(),
    {
        self.target_detection
    }

    /// The closest unit as last detected.
    pub fn closest_detection(&self) -> (t: Option<RTSUnitSoul>)
        ensures
            t == self.closest_output(),
    {
        self.closest_detection
    }

    /// An arbitrary unit as last detected.
    pub fn arbitrary_detection(&self) -> (t: Option<RTSUnitSoul>)
        ensures
            t == self.arbitrary_output(),
    {
        self.arbitrary_detection
    }
}

/// Target unit processing: records the target's soul when the detected entity
/// is the target unit.
pub fn check_if_target_unit(
    target_unit: EntityId,
    entity: EntityId,
    target_output: &mut Option<RTSUnitSoul>,
)
    ensures
        entity == target_unit ==> *final(target_output) == Some(RTSUnitSoul::soul_of(entity)),
        entity != target_unit ==> *final(target_output) == *old(target_output),
{
    if entity == target_unit {
        *target_output = Some(RTSUnitSoul::new(entity));
    }
}

/// Closest unit processing: records the distance of a detected entity. The
/// distance is `None` where the entity has no collider to measure; then nothing
/// is recorded and the result is false.
pub fn output_entity_distances(
    entity: EntityId,
    distance: Option<u32>,
    entity_distance_output: &mut DistanceTable,
) -> (recorded: bool)
    ensures
        recorded == distance is Some,
        distance_table_contents(*final(entity_distance_output)) == (match distance {
            Some(d) => distance_table_contents(*old(entity_distance_output)).insert(entity.0, d),
            None => distance_table_contents(*old(entity_distance_output)),
        }),
{
    match distance {
        None => {
            return false;
        },
        Some(d) => {
            entity_distance_output.insert(entity.0, d);
            return true;
        },
    }
}

/// Closest entity from the detection results: nothing where nothing was
/// detected; else the entity with the least distance, or the placeholder entity
/// where no distance is below the largest finite one.
pub fn closest_entity_from_detection_results(entity_distances: DistanceTable) -> (r: Option<
    EntityId,
>)
    ensures
        is_closest_entity(distance_table_contents(entity_distances), r),
{
    let ghost m = distance_table_contents(entity_distances);
    // If no detected
    if entity_distances.is_empty() {
        return None;
    }
    // Find closest
    let entries = entity_distances.entries();
    let n = entries.len();
    let mut output_entity = EntityId::placeholder();
    let mut lowest_distance: u32 = FAR_DISTANCE_KEY;
    let mut i: usize = 0;
    while i < n
        invariant
            n == entries@.len(),
            0 <= i <= n,
            lowest_distance <= FAR_DISTANCE_KEY,
            forall|j: int| 0 <= j < i ==> lowest_distance <= #[trigger] entries@[j].1,
            lowest_distance == FAR_DISTANCE_KEY ==> output_entity.0 == placeholder_bits(),
            lowest_distance < FAR_DISTANCE_KEY ==> m.contains_key(output_entity.0) && m[output_entity.0]
                == lowest_distance,
            forall|j: int|
                0 <= j < entries@.len() ==> m.contains_key(#[trigger] entries@[j].0) && m[entries@[j].0]
                    == entries@[j].1,
        decreases n - i,
    {
        let (entity, distance) = entries[i];
        if distance < lowest_distance {
            output_entity = EntityId::from_bits(entity);
            lowest_distance = distance;
        }
        i = i + 1;
    }
    proof {
        assert forall|k: u64| m.contains_key(k) implies lowest_distance <= m[k] by {
            let j = choose|j: int| 0 <= j < entries@.len() && entries@[j].0 == k;
            assert(lowest_distance <= entries@[j].1);
        }
        if has_near_entry(m) {
            let k = choose|k: u64| m.contains_key(k) && m[k] < FAR_DISTANCE_KEY;
            assert(lowest_distance <= m[k]);
        }
    }
    Some(output_entity)
}

/// Closest unit from the detection results: the soul of the closest entity.
pub fn closest_unit_from_detection_results(entity_distances: DistanceTable) -> (r: Option<
    RTSUnitSoul,
>)
    ensures
        is_closest_entity(distance_table_contents(entity_distances), soul_entity(r)),
{
    let closest_entity = closest_entity_from_detection_results(entity_distances);
    if closest_entity.is_none() {
        return None
    }
    let closest_entity = closest_entity.unwrap();
    return Some(RTSUnitSoul::new(closest_entity));
}

/// Runs the detection callbacks over the hits, in order: checks each entity
/// against the target entity (where there is one) and records its distance.
fn detect_hits(target_unit: Option<EntityId>, hits: &Vec<DetectionHit>) -> (r: (
    Option<RTSUnitSoul>,
    DistanceTable,
))
    ensures
        distance_table_contents(r.1) == hits_table(hits@),
        r.0 == (match target_unit {
            Some(t) => if exists|i: int| 0 <= i < hits@.len() && hits@[i].entity == t {
                Some(RTSUnitSoul::soul_of(t))
            } else {
                None
            },
            None => None,
        }),
{
    let mut entity_distances = DistanceTable::new();
    let mut target_output: Option<RTSUnitSoul> = None;
    let n = hits.len();
    let mut i: usize = 0;
    while i < n
        invariant
            n == hits@.len(),
            0 <= i <= n,
            distance_table_contents(entity_distances) == hits_table(hits@.take(i as int)),
            target_output == (match target_unit {
                Some(t) => if exists|j: int| 0 <= j < i && hits@[j].entity == t {
                    Some(RTSUnitSoul::soul_of(t))
                } else {
                    None
                },
                None => None,
            }),
        decreases n - i,
    {
        let hit = hits[i];
        if let Some(t) = target_unit {
            check_if_target_unit(t, hit.entity, &mut target_output);
        }
        output_entity_distances(hit.entity, hit.distance, &mut entity_distances);
        assert(hits@.take(i + 1).drop_last() =~= hits@.take(i as int));
        assert(hits@.take(i + 1).last() == hit);
        i = i + 1;
    }
    assert(hits@.take(n as int) =~= hits@);
    (target_output, entity_distances)
}

/// Writes the outputs of one detection pass into the detector.
fn post_detection_output(
    detector: &mut CircleIntersectUnitDetector,
    target_output: Option<RTSUnitSoul>,
    entity_distances: DistanceTable,
)
    ensures
        final(detector).team() == old(detector).team(),
        final(detector).target_input() == old(detector).target_input(),
        final(detector).target_output() == target_output,
        is_closest_entity(
            distance_table_contents(entity_distances),
            soul_entity(final(detector).closest_output()),
        ),
        final(detector).arbitrary_output() == final(detector).closest_output(),
{
    // Post detection processes
    let closest_output = closest_unit_from_detection_results(entity_distances);
    let arbitrary_output = closest_output;

    // Post detection output
    detector.target_detection = target_output;
    detector.closest_detection = closest_output;
    detector.arbitrary_detection = arbitrary_output;
}

/// One detection pass of a detector without an additional filter, over the
/// colliders that its circle intersects (`hits`, in the order the physics
/// query reports them). The target unit is detected where it is among the
/// hits; the closest unit is the one at the least distance; the arbitrary unit
/// is the closest one.
pub fn detector_update(detector: &mut CircleIntersectUnitDetector, hits: &Vec<DetectionHit>)
    ensures
        final(detector).team() == old(detector).team(),
        final(detector).target_input() == old(detector).target_input(),
        final(detector).target_output() == target_found(old(detector).target_input(), hits@),
        is_closest_entity(hits_table(hits@), soul_entity(final(detector).closest_output())),
        final(detector).arbitrary_output() == final(detector).closest_output(),
{
    // During detection processes
    let target_unit = detector.target;
    let (target_output, entity_distances) = if target_unit.is_some() {
        let target_unit = target_unit.unwrap().entity();
        detect_hits(Some(target_unit), hits)
    } else {
        detect_hits(None, hits)
    };
    post_detection_output(detector, target_output, entity_distances);
}

/// One detection pass of a detector with an additional group filter
/// (`filter_group`), over the colliders that its circle intersects.
/// With a target: the pass runs only where the target's memberships
/// (`target_memberships`, `None` where it has no collision groups) hold the
/// filter group, and then as for an unfiltered detector; otherwise nothing is
/// detected. Without a target: the hits are taken in order up to the first
/// one whose entity lacks collision groups or whose memberships do not hold the
/// filter group, where the physics query stops.
pub fn detector_update_filtered(
    detector: &mut CircleIntersectUnitDetector,
    filter_group: u32,
    target_memberships: Option<u32>,
    hits: &Vec<FilteredHit>,
)
    ensures
        final(detector).team() == old(detector).team(),
        final(detector).target_input() == old(detector).target_input(),
        final(detector).arbitrary_output() == final(detector).closest_output(),
        old(detector).target_input() is Some && optional_memberships_hold(
            target_memberships,
            filter_group,
        ) ==> {
            &&& final(detector).target_output() == target_found(
                old(detector).target_input(),
                unfiltered(hits@),
            )
            &&& is_closest_entity(
                hits_table(unfiltered(hits@)),
                soul_entity(final(detector).closest_output()),
            )
        },
        old(detector).target_input() is Some && !optional_memberships_hold(
            target_memberships,
            filter_group,
        ) ==> {
            &&& final(detector).target_output() is None
            &&& final(detector).closest_output() is None
        },
        old(detector).target_input() is None ==> {
            &&& final(detector).target_output() is None
            &&& is_closest_entity(
                hits_table(unfiltered(hits@.take(accepted_len(hits@, filter_group)))),
                soul_entity(final(detector).closest_output()),
            )
        },
{
    let n = hits.len();
    // During detection processes
    let target_unit = detector.target;
    if target_unit.is_some() {
        let target_unit = target_unit.unwrap().entity();
        let mut detected = false;
        if let Some(target_unit_group) = target_memberships {
            if group_memberships_contain(target_unit_group, filter_group) {
                detected = true;
            }
        }
        if detected {
            let mut plain: Vec<DetectionHit> = Vec::new();
            let mut i: usize = 0;
            while i < n
                invariant
                    n == hits@.len(),
                    0 <= i <= n,
                    plain@ =~= unfiltered(hits@).take(i as int),
                decreases n - i,
            {
                plain.push(hits[i].hit);
                i = i + 1;
            }
            assert(plain@ =~= unfiltered(hits@));
            let (target_output, entity_distances) = detect_hits(Some(target_unit), &plain);
            post_detection_output(detector, target_output, entity_distances);
        } else {
            let entity_distances = DistanceTable::new();
            post_detection_output(detector, None, entity_distances);
        }
    } else {
        let mut accepted: Vec<DetectionHit> = Vec::new();
        let mut i: usize = 0;
        while i < n
            invariant
                n == hits@.len(),
                0 <= i <= n,
                accepted@ =~= unfiltered(hits@).take(i as int),
                forall|j: int| 0 <= j < i ==> passes_group(#[trigger] hits@[j], filter_group),
            ensures
                i < n ==> !passes_group(hits@[i as int], filter_group),
            decreases n - i,
        {
            let h = hits[i];
            let mut passes = false;
            if let Some(entity_group) = h.memberships {
                if group_memberships_contain(entity_group, filter_group) {
                    passes = true;
                }
            }
            if !passes {
                break;
            }
            accepted.push(h.hit);
            i = i + 1;
        }
        proof {
            assert(is_accepted_len(hits@, filter_group, i as int));
            let len = accepted_len(hits@, filter_group);
            assert(is_accepted_len(hits@, filter_group, len));
            if len < i {
                assert(passes_group(hits@[len], filter_group));
            }
            if i < len {
                assert(passes_group(hits@[i as int], filter_group));
            }
            assert(len == i);
            assert(unfiltered(hits@).take(i as int) =~= unfiltered(hits@.take(i as int)));
        }
        let (target_output, entity_distances) = detect_hits(None, &accepted);
        post_detection_output(detector, target_output, entity_distances);
    }
}

/// Stores the target that a target detection asks for into the detector.
pub fn store_detection_target(
    detector: &mut CircleIntersectUnitDetector,
    target: Option<RTSUnitSoul>,
)
    ensures
        final(detector).target_input() == target,
        final(detector).team() == old(detector).team(),
        final(detector).target_output() == old(detector).target_output(),
        final(detector).closest_output() == old(detector).closest_output(),
        final(detector).arbitrary_output() == old(detector).arbitrary_output(),
{
    detector.target = target;
}

/// Outputs the detector's target detection to a single-result detection.
pub fn stored_target_output_to_detection<D: SingleResultDetection>(
    detector: &CircleIntersectUnitDetector,
    detection: &mut D,
)
    ensures
        final(detection).held_detection() == detector.target_output(),
{
    detection.set_detection(detector.target_detection);
}

/// Outputs the detector's closest detection to a single-result detection.
pub fn stored_closest_output_to_detection<D: SingleResultDetection>(
    detector: &CircleIntersectUnitDetector,
    detection: &mut D,
)
    ensures
        final(detection).held_detection() == detector.closest_output(),
{
    detection.set_detection(detector.closest_detection);
}

/// Outputs the detector's arbitrary detection to a single-result detection.
pub fn stored_arbitrary_output_to_detection<D: SingleResultDetection>(
    detector: &CircleIntersectUnitDetector,
    detection: &mut D,
)
    ensures
        final(detection).held_detection() == detector.arbitrary_output(),
{
    detection.set_detection(detector.arbitrary_detection);
}

/// A filtered detector without a target whose hits all pass its group filter
/// records the same distances as an unfiltered detector over the same hits.
pub proof fn lemma_filter_passing_all_hits(hits: Seq<FilteredHit>, group: u32)
    requires
        forall|i: int| 0 <= i < hits.len() ==> passes_group(#[trigger] hits[i], group),
    ensures
        accepted_len(hits, group) == hits.len(),
        hits_table(unfiltered(hits.take(accepted_len(hits, group)))) == hits_table(unfiltered(hits)),
{
    assert(is_accepted_len(hits, group, hits.len() as int));
    let len = accepted_len(hits, group);
    assert(is_accepted_len(hits, group, len));
    if len < hits.len() {
        assert(passes_group(hits[len], group));
    }
    assert(hits.take(len) =~= hits);
}

/// Every distance that a detection pass meets is recorded: a hit with a
/// distance, whose entity no later hit gives another distance, leaves its
/// entity mapped to that distance; and every recorded entry comes from a hit
/// of that entity with that distance.
pub proof fn lemma_every_distance_is_recorded(hits: Seq<DetectionHit>)
    ensures
        forall|i: int|
            0 <= i < hits.len() && (#[trigger] hits[i]).distance is Some && (forall|j: int|
                i < j < hits.len() && hits[j].entity == hits[i].entity ==> hits[j].distance is None)
                ==> hits_table(hits).contains_key(hits[i].entity.0) && hits[i].distance == Some(
                hits_table(hits)[hits[i].entity.0],
            ),
        forall|k: u64| #[trigger]
            hits_table(hits).contains_key(k) ==> exists|i: int|
                0 <= i < hits.len() && hits[i].entity.0 == k && hits[i].distance == Some(
                    hits_table(hits)[k],
                ),
    decreases hits.len(),
{
    if hits.len() > 0 {
        let before = hits.drop_last();
        let last = hits.last();
        let n = hits.len() - 1;
        lemma_every_distance_is_recorded(before);
        assert forall|i: int|
            0 <= i < hits.len() && (#[trigger] hits[i]).distance is Some && (forall|j: int|
                i < j < hits.len() && hits[j].entity == hits[i].entity ==> hits[j].distance is None)
                implies hits_table(hits).contains_key(hits[i].entity.0) && hits[i].distance == Some(
                hits_table(hits)[hits[i].entity.0],
            ) by {
            if i < n {
                assert(before[i] == hits[i]);
                assert forall|j: int|
                    i < j < before.len() && before[j].entity == before[i].entity implies before[j].distance is None by {
                    assert(before[j] == hits[j]);
                }
                if last.distance is Some {
                    assert(hits[n] == last);
                    assert(last.entity != hits[i].entity);
                }
            }
        }
        assert forall|k: u64| #[trigger]
            hits_table(hits).contains_key(k) implies exists|i: int|
                0 <= i < hits.len() && hits[i].entity.0 == k && hits[i].distance == Some(
                    hits_table(hits)[k],
                ) by {
            if last.distance is Some && k == last.entity.0 {
                assert(hits[n] == last);
            } else {
                assert(hits_table(before).contains_key(k));
                let i = choose|i: int|
                    0 <= i < before.len() && before[i].entity.0 == k && before[i].distance == Some(
                        hits_table(before)[k],
                    );
                assert(hits[i] == before[i]);
            }
        }
    }
}

/// A single unit in range at a finite distance is the closest unit.
pub proof fn lemma_single_hit_is_closest(h: DetectionHit, d: u32, r: Option<EntityId>)
    requires
        h.distance == Some(d),
        d < FAR_DISTANCE_KEY,
        is_closest_entity(hits_table(seq![h]), r),
    ensures
        r == Some(h.entity),
{
    lemma_every_distance_is_recorded(seq![h]);
    let m = hits_table(seq![h]);
    assert(seq![h][0].distance == Some(d));
    assert(m.contains_key(h.entity.0) && m[h.entity.0] == d);
    assert(has_near_entry(m));
    assert(!m.is_empty());
    let e = r->0;
    assert(m.contains_key(e.0));
    let i = choose|i: int| 0 <= i < 1 && seq![h][i].entity.0 == e.0 && seq![h][i].distance == Some(m[e.0]);
    assert(seq![h][i] == h);
}

/// Any two closest-unit results of one table are equally near.
pub proof fn lemma_closest_results_equally_near(m: Map<u64, u32>, r1: Option<EntityId>, r2: Option<EntityId>)
    requires
        is_closest_entity(m, r1),
        is_closest_entity(m, r2),
    ensures
        r1 is None <==> r2 is None,
        has_near_entry(m) ==> m[r1.unwrap().0] == m[r2.unwrap().0],
        !m.is_empty() && !has_near_entry(m) ==> r1 == r2,
{
}

/// The target is reported exactly when one of the hits is the target's
/// entity, whatever the number of hits; and a detector without a target
/// reports none.
pub proof fn lemma_target_found_exactly_when_hit(t: RTSUnitSoul, hits: Seq<DetectionHit>)
    ensures
        (exists|i: int| 0 <= i < hits.len() && hits[i].entity == t.entity_of()) ==> target_found(
            Some(t),
            hits,
        ) == Some(t),
        (forall|i: int| 0 <= i < hits.len() ==> hits[i].entity != t.entity_of()) ==> target_found(
            Some(t),
            hits,
        ) is None,
        target_found(None, hits) is None,
        forall|i: int| 0 <= i < hits.len() && hits[i].entity == t.entity_of() ==> #[trigger] hits.subrange(i, i + 1).len() == 1 && target_found(Some(t), hits.subrange(i, i + 1)) == Some(t),
{
    assert(RTSUnitSoul::soul_of(t.entity_of()) == t);
    assert forall|i: int| 0 <= i < hits.len() && hits[i].entity == t.entity_of() implies #[trigger] hits.subrange(i, i + 1).len() == 1 && target_found(Some(t), hits.subrange(i, i + 1)) == Some(t) by {
        assert(hits.subrange(i, i + 1)[0] == hits[i]);
    }
}

/// The group filter passes exactly when the memberships hold every bit of the
/// filter group (the memberships contain the group); an entity without
/// collision groups never passes.
pub proof fn lemma_group_filter_is_containment(m: u32, g: u32, h: FilteredHit)
    ensures
        optional_memberships_hold(Some(m), g) == (m & g == g),
        memberships_hold(m, g) == (m & g == g),
        !optional_memberships_hold(None, g),
        passes_group(h, g) == (h.memberships is Some && h.memberships->0 & g == g),
        m & g == g ==> forall|b: u32| b < 32 && #[trigger] (g & (1u32 << b)) != 0 ==> m & (1u32 << b) != 0,
        m & g != g ==> g & !m != 0,
{
    if m & g == g {
        assert forall|b: u32| b < 32 && #[trigger] (g & (1u32 << b)) != 0 implies m & (1u32 << b) != 0 by {
            assert(m & g == g && b < 32 && (g & (1u32 << b)) != 0 ==> m & (1u32 << b) != 0) by (bit_vector);
        }
    }
    assert(m & g != g ==> g & !m != 0) by (bit_vector);
}

/// The end of the run of passing hits that starts at `n`, after a prefix of
/// `n` passing hits.
proof fn passing_prefix_from(hits: Seq<FilteredHit>, group: u32, n: int) -> (r: int)
    requires
        0 <= n <= hits.len(),
        forall|i: int| 0 <= i < n ==> passes_group(#[trigger] hits[i], group),
    ensures
        is_accepted_len(hits, group, r),
    decreases hits.len() - n,
{
    if n < hits.len() && passes_group(hits[n], group) {
        passing_prefix_from(hits, group, n + 1)
    } else {
        n
    }
}

/// A filtered detector passes every hit on to its detection unchanged and in
/// order: the plain hits of filtered hits are their hits, one for one.
pub proof fn lemma_unfiltered_keeps_every_hit(hits: Seq<FilteredHit>)
    ensures
        unfiltered(hits).len() == hits.len(),
        forall|i: int| 0 <= i < hits.len() ==> #[trigger] unfiltered(hits)[i] == hits[i].hit,
        forall|n: int| 0 <= n <= hits.len() ==> #[trigger] unfiltered(hits.take(n)) == unfiltered(hits).take(n),
{
    assert forall|n: int| 0 <= n <= hits.len() implies #[trigger] unfiltered(hits.take(n)) == unfiltered(hits).take(n) by {
        assert(unfiltered(hits.take(n)) =~= unfiltered(hits).take(n));
    }
}

/// The accepted hits of a detector without a target are the longest prefix of
/// hits that pass the group filter: each of them passes, and the next hit, if
/// any, fails.
pub proof fn lemma_accepted_prefix(hits: Seq<FilteredHit>, group: u32)
    ensures
        0 <= accepted_len(hits, group) <= hits.len(),
        forall|i: int| 0 <= i < accepted_len(hits, group) ==> passes_group(#[trigger] hits[i], group),
        accepted_len(hits, group) < hits.len() ==> !passes_group(hits[accepted_len(hits, group)], group),
        (forall|i: int| 0 <= i < hits.len() ==> passes_group(#[trigger] hits[i], group)) ==> accepted_len(hits, group) == hits.len(),
{
    let n = passing_prefix_from(hits, group, 0);
    assert(is_accepted_len(hits, group, n));
    let len = accepted_len(hits, group);
    assert(is_accepted_len(hits, group, len));
    if forall|i: int| 0 <= i < hits.len() ==> passes_group(#[trigger] hits[i], group) {
        if len < hits.len() {
            assert(passes_group(hits[len], group));
        }
    }
}

} // verus!

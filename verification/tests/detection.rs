use rts_units::detection::{
    check_if_target_unit, closest_entity_from_detection_results,
    closest_unit_from_detection_results, detector_update, detector_update_filtered,
    output_entity_distances, store_detection_target, stored_arbitrary_output_to_detection,
    stored_closest_output_to_detection, stored_target_output_to_detection,
    CircleIntersectUnitDetector, DetectableFilter, DetectionHit, FilteredHit, RTSTeam,
    RTSUnitSoul,
};
use rts_units::distance_table::{DistanceTable, FAR_DISTANCE_KEY};
use rts_units::entity::EntityId;
use rts_units::single_result::SingleResultDetection;

fn key(d: f32) -> u32 {
    d.to_bits()
}

fn hit(entity: u64, distance: Option<f32>) -> DetectionHit {
    DetectionHit { entity: EntityId(entity), distance: distance.map(key) }
}

struct Column(Option<RTSUnitSoul>);

impl SingleResultDetection for Column {
    fn held_detection(&self) -> Option<RTSUnitSoul> {
        self.0
    }
    fn set_detection(&mut self, detection: Option<RTSUnitSoul>) {
        self.0 = detection;
    }
    fn detection(&self) -> Option<RTSUnitSoul> {
        self.0
    }
}

#[test]
fn placeholder_is_the_ecs_placeholder() {
    assert_eq!(EntityId::placeholder().to_bits(), 0x1_ffff_ffff);
    assert_eq!(EntityId::placeholder().to_bits(), bevy::ecs::entity::Entity::PLACEHOLDER.to_bits());
}

#[test]
fn far_key_is_the_largest_finite_float() {
    assert_eq!(FAR_DISTANCE_KEY, f32::MAX.to_bits());
    assert!(key(1.5) < key(2.0));
    assert!(key(0.0) < key(f32::MIN_POSITIVE));
}

#[test]
fn later_distance_of_an_entity_replaces_earlier() {
    let mut t = DistanceTable::new();
    assert!(output_entity_distances(EntityId(5), Some(key(1.0)), &mut t));
    assert!(output_entity_distances(EntityId(6), Some(key(3.0)), &mut t));
    assert!(output_entity_distances(EntityId(5), Some(key(7.0)), &mut t));
    assert_eq!(closest_entity_from_detection_results(t), Some(EntityId(6)));
}

#[test]
fn closest_of_empty_table_is_none() {
    assert_eq!(closest_entity_from_detection_results(DistanceTable::new()), None);
    assert_eq!(closest_unit_from_detection_results(DistanceTable::new()), None);
}

#[test]
fn closest_picks_least_distance() {
    let mut t = DistanceTable::new();
    output_entity_distances(EntityId(1), Some(key(4.0)), &mut t);
    output_entity_distances(EntityId(2), Some(key(1.25)), &mut t);
    output_entity_distances(EntityId(3), Some(key(9.0)), &mut t);
    assert_eq!(closest_entity_from_detection_results(t), Some(EntityId(2)));
}

#[test]
fn closest_of_only_far_entries_is_placeholder() {
    let mut t = DistanceTable::new();
    output_entity_distances(EntityId(1), Some(FAR_DISTANCE_KEY), &mut t);
    output_entity_distances(EntityId(2), Some(key(f32::INFINITY)), &mut t);
    assert_eq!(closest_entity_from_detection_results(t), Some(EntityId::placeholder()));
}

#[test]
fn closest_unit_wraps_entity_in_soul() {
    let mut t = DistanceTable::new();
    output_entity_distances(EntityId(8), Some(key(2.0)), &mut t);
    let soul = closest_unit_from_detection_results(t).unwrap();
    assert_eq!(soul.entity(), EntityId(8));
}

#[test]
fn check_if_target_unit_records_only_target() {
    let mut out = None;
    check_if_target_unit(EntityId(4), EntityId(3), &mut out);
    assert_eq!(out, None);
    check_if_target_unit(EntityId(4), EntityId(4), &mut out);
    assert_eq!(out, Some(RTSUnitSoul::new(EntityId(4))));
}

#[test]
fn output_entity_distances_needs_a_collider() {
    let mut t = DistanceTable::new();
    assert!(!output_entity_distances(EntityId(1), None, &mut t));
    assert_eq!(closest_entity_from_detection_results(t), None);
    let mut t = DistanceTable::new();
    assert!(output_entity_distances(EntityId(1), Some(key(3.0)), &mut t));
    assert_eq!(closest_entity_from_detection_results(t), Some(EntityId(1)));
}

#[test]
fn new_detector_has_nothing() {
    let d = CircleIntersectUnitDetector::new(RTSTeam::Enemy);
    assert_eq!(d.target_team(), RTSTeam::Enemy);
    assert_eq!(d.target(), None);
    assert_eq!(d.target_detection(), None);
    assert_eq!(d.closest_detection(), None);
    assert_eq!(d.arbitrary_detection(), None);
    assert_eq!(d.filter(), DetectableFilter::EnemyDetectable);
    assert_eq!(CircleIntersectUnitDetector::new(RTSTeam::Player).filter(), DetectableFilter::PlayerDetectable);
}

#[test]
fn detector_update_without_target() {
    let mut d = CircleIntersectUnitDetector::new(RTSTeam::Player);
    let hits = vec![hit(1, Some(5.0)), hit(2, None), hit(3, Some(2.0))];
    detector_update(&mut d, &hits);
    assert_eq!(d.target_detection(), None);
    assert_eq!(d.closest_detection(), Some(RTSUnitSoul::new(EntityId(3))));
    assert_eq!(d.arbitrary_detection(), d.closest_detection());
}

#[test]
fn detector_update_finds_target() {
    let mut d = CircleIntersectUnitDetector::new(RTSTeam::Player);
    store_detection_target(&mut d, Some(RTSUnitSoul::new(EntityId(1))));
    let hits = vec![hit(1, Some(5.0)), hit(3, Some(2.0))];
    detector_update(&mut d, &hits);
    assert_eq!(d.target_detection(), Some(RTSUnitSoul::new(EntityId(1))));
    assert_eq!(d.closest_detection(), Some(RTSUnitSoul::new(EntityId(3))));
    let missing = vec![hit(3, Some(2.0))];
    detector_update(&mut d, &missing);
    assert_eq!(d.target_detection(), None);
}

#[test]
fn detector_update_with_no_hits_detects_nothing() {
    let mut d = CircleIntersectUnitDetector::new(RTSTeam::Player);
    detector_update(&mut d, &vec![hit(2, Some(1.0))]);
    detector_update(&mut d, &Vec::new());
    assert_eq!(d.closest_detection(), None);
    assert_eq!(d.arbitrary_detection(), None);
}

fn fhit(entity: u64, distance: f32, memberships: Option<u32>) -> FilteredHit {
    FilteredHit { hit: hit(entity, Some(distance)), memberships }
}

#[test]
fn filtered_update_stops_at_first_rejected_hit() {
    let mut d = CircleIntersectUnitDetector::new(RTSTeam::Enemy);
    let hits = vec![
        fhit(1, 8.0, Some(0b0110)),
        fhit(2, 6.0, Some(0b0010)),
        fhit(3, 1.0, Some(0b0100)),
        fhit(4, 0.5, Some(0b0110)),
    ];
    detector_update_filtered(&mut d, 0b0010, None, &hits);
    assert_eq!(d.closest_detection(), Some(RTSUnitSoul::new(EntityId(2))));
    assert_eq!(d.target_detection(), None);
}

#[test]
fn filtered_update_stops_at_hit_without_groups() {
    let mut d = CircleIntersectUnitDetector::new(RTSTeam::Enemy);
    let hits = vec![fhit(1, 8.0, None), fhit(2, 1.0, Some(0b1))];
    detector_update_filtered(&mut d, 0b1, None, &hits);
    assert_eq!(d.closest_detection(), None);
}

#[test]
fn filtered_update_with_target_in_group() {
    let mut d = CircleIntersectUnitDetector::new(RTSTeam::Enemy);
    store_detection_target(&mut d, Some(RTSUnitSoul::new(EntityId(2))));
    let hits = vec![fhit(1, 8.0, None), fhit(2, 3.0, Some(0))];
    detector_update_filtered(&mut d, 0b100, Some(0b111), &hits);
    assert_eq!(d.target_detection(), Some(RTSUnitSoul::new(EntityId(2))));
    assert_eq!(d.closest_detection(), Some(RTSUnitSoul::new(EntityId(2))));
}

#[test]
fn filtered_update_with_target_outside_group_detects_nothing() {
    let mut d = CircleIntersectUnitDetector::new(RTSTeam::Enemy);
    store_detection_target(&mut d, Some(RTSUnitSoul::new(EntityId(2))));
    let hits = vec![fhit(2, 3.0, Some(0b111))];
    detector_update_filtered(&mut d, 0b100, Some(0b011), &hits);
    assert_eq!(d.target_detection(), None);
    assert_eq!(d.closest_detection(), None);
    detector_update_filtered(&mut d, 0b100, None, &hits);
    assert_eq!(d.target_detection(), None);
}

#[test]
fn stored_outputs_reach_single_result_detections() {
    let mut d = CircleIntersectUnitDetector::new(RTSTeam::Player);
    store_detection_target(&mut d, Some(RTSUnitSoul::new(EntityId(7))));
    detector_update(&mut d, &vec![hit(7, Some(4.0)), hit(9, Some(1.0))]);
    let mut target = Column(None);
    let mut closest = Column(None);
    let mut arbitrary = Column(None);
    stored_target_output_to_detection(&d, &mut target);
    stored_closest_output_to_detection(&d, &mut closest);
    stored_arbitrary_output_to_detection(&d, &mut arbitrary);
    assert_eq!(target.detection(), Some(RTSUnitSoul::new(EntityId(7))));
    assert_eq!(closest.detection(), Some(RTSUnitSoul::new(EntityId(9))));
    assert_eq!(arbitrary.detection(), Some(RTSUnitSoul::new(EntityId(9))));
}

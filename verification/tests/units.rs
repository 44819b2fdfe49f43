use rts_units::defend::defend_target_selection;
use rts_units::detectors::{distill, DistillationColumn, TIntersectionsAggregate, ToDetector};
use rts_units::entity::EntityId;
use rts_units::navigation::AttackTargetNavigation;
use rts_units::spawning::{spawn_unit, UnitSpawnManager};

struct Column(Option<EntityId>);

impl DistillationColumn for Column {
    fn distilled(&self) -> Option<EntityId> {
        self.0
    }
    fn read_detection(&self) -> Option<EntityId> {
        self.0
    }
    fn distiller_set(&mut self, v: Option<EntityId>) {
        self.0 = v;
    }
}

fn key(d: f32) -> u32 {
    d.to_bits()
}

#[test]
fn aggregate_starts_empty_and_iterates_in_order() {
    assert_eq!(TIntersectionsAggregate::new().0, Vec::new());
    assert_eq!(TIntersectionsAggregate::default().0, Vec::new());
    let a = TIntersectionsAggregate(vec![EntityId(3), EntityId(1)]);
    let seen: Vec<EntityId> = a.iter().copied().collect();
    assert_eq!(seen, vec![EntityId(3), EntityId(1)]);
}

#[test]
fn to_detector_goes_to_its_entity() {
    let t: ToDetector<u8> = ToDetector::new(EntityId(12));
    assert_eq!(t.go(), EntityId(12));
}

#[test]
fn distill_keeps_result_for_last_entity() {
    let mut column = Column(Some(EntityId(99)));
    let aggregate = TIntersectionsAggregate(vec![EntityId(1), EntityId(2), EntityId(3)]);
    distill(&mut column, &aggregate, |e: EntityId| if e.0 % 2 == 1 { Some(e) } else { None });
    assert_eq!(column.read_detection(), Some(EntityId(3)));
    distill(&mut column, &aggregate, |e: EntityId| if e.0 == 2 { Some(e) } else { None });
    assert_eq!(column.read_detection(), None);
}

#[test]
fn distill_of_empty_aggregate_clears_column() {
    let mut column = Column(Some(EntityId(99)));
    distill(&mut column, &TIntersectionsAggregate::new(), |e: EntityId| Some(e));
    assert_eq!(column.read_detection(), None);
}

#[test]
fn defend_target_is_last_closest_enemy() {
    let enemies = vec![
        (EntityId(1), key(5.0)),
        (EntityId(2), key(3.0)),
        (EntityId(3), key(3.0)),
        (EntityId(4), key(9.0)),
    ];
    assert_eq!(defend_target_selection(&enemies), EntityId(3));
}

#[test]
fn defend_target_without_enemies_is_placeholder() {
    assert_eq!(defend_target_selection(&Vec::new()), EntityId::placeholder());
    let far = vec![(EntityId(1), key(f32::INFINITY))];
    assert_eq!(defend_target_selection(&far), EntityId::placeholder());
    let at_max = vec![(EntityId(1), key(f32::MAX))];
    assert_eq!(defend_target_selection(&at_max), EntityId(1));
}

#[test]
fn attack_navigation_switch() {
    assert!(AttackTargetNavigation(true).is_on());
    assert!(!AttackTargetNavigation(false).is_on());
}

#[test]
fn spawn_requests_are_first_in_first_out() {
    let mut m: UnitSpawnManager<(i32, i32)> = UnitSpawnManager::new();
    assert_eq!(m.pending_count(), 0);
    spawn_unit(&mut m, (1, 2));
    spawn_unit(&mut m, (3, 4));
    spawn_unit(&mut m, (5, 6));
    assert_eq!(m.pending_count(), 3);
    assert_eq!(m.process_spawn_requests(), vec![(1, 2), (3, 4), (5, 6)]);
    assert_eq!(m.pending_count(), 0);
    assert!(m.process_spawn_requests().is_empty());
}

#[test]
fn entity_bits_round_trip() {
    let e = EntityId::from_bits(0xdead_beef);
    assert_eq!(e.to_bits(), 0xdead_beef);
    assert_eq!(e, EntityId(0xdead_beef));
}

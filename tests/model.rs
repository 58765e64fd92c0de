use battleship_sync::model::{CoreHitType, HitType, Position, ShotMap};

#[test]
fn shot_map_replaces_in_place() {
    let mut m = ShotMap::new();
    assert_eq!(m.len(), 0);
    let p = Position::new(3, 4);
    m.insert(p, HitType::Pending);
    m.insert(Position::new(1, 1), HitType::Core(CoreHitType::Miss));
    assert_eq!(m.len(), 2);
    m.insert(p, HitType::Core(CoreHitType::Sunk(2)));
    assert_eq!(m.len(), 2);
    assert_eq!(m.get(p), Some(HitType::Core(CoreHitType::Sunk(2))));
    assert_eq!(m.get(Position::new(1, 1)), Some(HitType::Core(CoreHitType::Miss)));
    assert_eq!(m.get(Position::new(4, 3)), None);
    let v = m.to_vec();
    assert_eq!(v, vec![(p, HitType::Core(CoreHitType::Sunk(2))), (Position::new(1, 1), HitType::Core(CoreHitType::Miss))]);
}

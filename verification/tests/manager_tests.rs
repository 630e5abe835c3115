use asteroid_engine::actor::ActorType;
use asteroid_engine::actor_manager::ActorManager;

#[test]
fn add_hands_out_sequential_fresh_identities() {
    let mut m = ActorManager::new();
    let a = m.add(ActorType::Player, (0, 0), 60);
    let b = m.add(ActorType::Block, (100, 100), 60);
    assert_eq!(a, Some(0));
    assert_eq!(b, Some(1));
    assert_eq!(m.len(), 2);
    assert!(m.get(0).is_some());
    assert!(m.get(1).is_some());
    assert!(m.get(2).is_none());
}

#[test]
fn add_rejects_degenerate_configurations() {
    let mut m = ActorManager::new();
    // zero frame rate aborts construction
    assert_eq!(m.add(ActorType::Item, (0, 0), 0), None);
    // an entity that cannot fit inside the world is rejected
    assert_eq!(m.add(ActorType::Item, (i32::MAX - 3, 0), 60), None);
    assert_eq!(m.len(), 0);
}

#[test]
fn extract_reinsert_round_trip_preserves_contents() {
    let mut m = ActorManager::new();
    let id = m.add(ActorType::Player, (10, 20), 60).unwrap();
    m.add(ActorType::Block, (50, 50), 60).unwrap();

    let before_rect = m.get(id).unwrap().rect;
    let actor = m.temp_remove(id).unwrap();
    // while checked out, the identity is unreachable
    assert!(m.get(id).is_none());
    assert_eq!(m.len(), 1);

    m.temp_reinsert(id, actor);
    assert_eq!(m.len(), 2);
    let after = m.get(id).unwrap();
    assert_eq!(after.id, id);
    assert_eq!(after.rect, before_rect);
    assert_eq!(after.actor_type, ActorType::Player);
}

#[test]
fn temp_remove_of_absent_identity_is_a_silent_skip() {
    let mut m = ActorManager::new();
    m.add(ActorType::Block, (0, 0), 60).unwrap();
    assert!(m.temp_remove(99).is_none());
    assert_eq!(m.len(), 1);
}

#[test]
fn remove_evicts_permanently() {
    let mut m = ActorManager::new();
    let id = m.add(ActorType::Item, (5, 5), 60).unwrap();
    m.remove(id);
    assert!(m.get(id).is_none());
    assert_eq!(m.len(), 0);
    // removing again is harmless
    m.remove(id);
    assert_eq!(m.len(), 0);
}

#[test]
fn ids_track_the_stored_entities() {
    let mut m = ActorManager::new();
    let a = m.add(ActorType::Player, (0, 0), 60).unwrap();
    let b = m.add(ActorType::Item, (10, 10), 60).unwrap();
    let c = m.add(ActorType::Enemy, (20, 20), 60).unwrap();
    m.remove(b);
    let mut ids = m.ids_vec();
    ids.sort();
    assert_eq!(ids, vec![a, c]);
}

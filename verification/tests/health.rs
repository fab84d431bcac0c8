use skirmish::combat::health::{apply_damage, apply_death, is_dead, Health};
use skirmish::entity::Entity;
use skirmish::table::Table;

#[test]
fn damage_is_subtracted_without_a_floor() {
    let mut health = Health::full(100_000_000);
    health.apply_damage(30_000_000);
    assert_eq!(health.hit_points, 70_000_000);
    assert_eq!(health.max_hit_points, 100_000_000);
    health.apply_damage(90_000_000);
    assert_eq!(health.hit_points, -20_000_000);
    assert!(health.is_dead());
}

#[test]
fn sweep_removes_the_dead_once() {
    let mut ledger: Table<Health> = Table::new();
    ledger.insert(Entity { id: 1 }, Health::full(100_000_000));
    ledger.insert(Entity { id: 2 }, Health { hit_points: 0, max_hit_points: 100_000_000 });
    ledger.insert(Entity { id: 3 }, Health { hit_points: -5, max_hit_points: 100_000_000 });
    ledger.insert(Entity { id: 4 }, Health { hit_points: 1, max_hit_points: 100_000_000 });
    apply_damage(&mut ledger, Entity { id: 4 }, 1);
    assert!(is_dead(&ledger, Entity { id: 4 }));
    assert!(!is_dead(&ledger, Entity { id: 1 }));
    let removed = apply_death(&mut ledger);
    assert_eq!(removed, vec![Entity { id: 2 }, Entity { id: 3 }, Entity { id: 4 }]);
    assert_eq!(ledger.len(), 1);
    assert!(ledger.has(Entity { id: 1 }));
    assert!(!ledger.has(Entity { id: 2 }));
    let again = apply_death(&mut ledger);
    assert!(again.is_empty());
    assert_eq!(ledger.len(), 1);
}

use skirmish::combat::health::Health;
use skirmish::combat::projectile::{
    can_sweep_all, handle_tracing_projectile_movement, resolve_target, spawn_physics_projectile,
    spawn_projectile, sweep_tracing_projectiles, ColliderShape, Impact, PhysicsProjectile,
    PhysicsProjectileBundle, Projectile, ProjectileKind, RayHit, RigidBody, SweepQuery,
    TracingProjectile,
};
use skirmish::combat::shoot::SpawnRequest;
use skirmish::entity::{Entity, EntityAllocator};
use skirmish::fixed::{Quat, Transform, Vec3};
use skirmish::particles::{
    EffectTemplate, ParticleEffect, ParticleEffects, TimedParticle, IMPACT_EFFECT_LENGTH,
};
use skirmish::table::Table;

const TURN: Quat = Quat { x: 0, y: 707_106, z: 0, w: 707_106 };

fn tracing(position: Vec3, velocity: Vec3) -> Projectile {
    Projectile {
        transform: Transform { translation: position, rotation: TURN },
        kind: ProjectileKind::Tracing(TracingProjectile { velocity }),
    }
}

fn physics(position: Vec3) -> Projectile {
    Projectile {
        transform: Transform { translation: position, rotation: TURN },
        kind: ProjectileKind::Physics(PhysicsProjectile {}),
    }
}

struct Scene {
    projectiles: Table<Projectile>,
    hits: Table<RayHit>,
    parents: Table<Entity>,
    healths: Table<Health>,
    registry: ParticleEffects,
    effects: Table<ParticleEffect>,
    allocator: EntityAllocator,
}

fn scene() -> Scene {
    Scene {
        projectiles: Table::new(),
        hits: Table::new(),
        parents: Table::new(),
        healths: Table::new(),
        registry: ParticleEffects { firework: Some(EffectTemplate { id: 9 }) },
        effects: Table::new(),
        allocator: EntityAllocator { next: 100 },
    }
}

fn run(scene: &mut Scene, dt: u64) -> Vec<Impact> {
    assert!(can_sweep_all(&scene.projectiles, dt));
    handle_tracing_projectile_movement(
        &mut scene.projectiles,
        &scene.hits,
        &scene.parents,
        &mut scene.healths,
        &scene.registry,
        &mut scene.effects,
        &mut scene.allocator,
        dt,
    )
}

#[test]
fn default_projectiles_are_at_rest() {
    assert_eq!(TracingProjectile::default().velocity, Vec3::new(0, 0, 0));
    assert_eq!(PhysicsProjectile::default(), PhysicsProjectile {});
}

#[test]
fn sweep_goes_along_the_velocity_and_down() {
    let projectile = tracing(Vec3::new(1_000_000, 2_000_000, 3_000_000), Vec3::new(0, 0, -10_000_000));
    assert!(projectile.is_moving());
    let query = projectile.sweep_query(16_000).unwrap();
    assert_eq!(
        query,
        SweepQuery {
            origin: Vec3::new(1_000_000, 2_000_000, 3_000_000),
            direction: Vec3::new(0, -16_000, -160_000),
            max_distance: 160_798,
            exclude_sensors: true,
        }
    );
}

#[test]
fn way_of_a_tick_is_rounded_down() {
    let projectile = tracing(Vec3::new(0, 0, 0), Vec3::new(-1, 1, 999_999));
    let query = projectile.sweep_query(1).unwrap();
    assert_eq!(query.direction, Vec3::new(-1, -1, 0));
    assert_eq!(query.max_distance, 1);
}

#[test]
fn a_projectile_at_rest_is_not_swept() {
    let resting = tracing(Vec3::new(5, 6, 7), Vec3::new(0, 0, 0));
    assert!(!resting.is_moving());
    assert!(resting.sweep_query(16_000).is_none());
    assert!(physics(Vec3::new(5, 6, 7)).sweep_query(16_000).is_none());
    let falling_back = tracing(Vec3::new(5, 6, 7), Vec3::new(-3, 0, 0));
    assert!(falling_back.is_moving());
}

#[test]
fn a_path_that_cannot_be_held_gives_no_sweep() {
    let far = tracing(Vec3::new(0, i64::MIN + 10, 0), Vec3::new(0, 1, 0));
    assert!(far.sweep_query(16_000).is_none());
    let fast = tracing(Vec3::new(0, 0, 0), Vec3::new(i64::MAX, 0, 0));
    assert!(fast.sweep_query(u64::MAX).is_none());
    let mut projectiles: Table<Projectile> = Table::new();
    projectiles.insert(Entity { id: 1 }, far);
    assert!(!can_sweep_all(&projectiles, 16_000));
    assert!(can_sweep_all(&projectiles, 0));
}

#[test]
fn a_miss_advances_by_velocity_and_gravity() {
    let mut scene = scene();
    scene.projectiles.insert(
        Entity { id: 1 },
        tracing(Vec3::new(1_000_000, 2_000_000, 3_000_000), Vec3::new(2_500_000, 0, -10_000_000)),
    );
    let impacts = run(&mut scene, 16_000);
    assert!(impacts.is_empty());
    assert_eq!(
        *scene.projectiles.get(Entity { id: 1 }).unwrap(),
        tracing(
            Vec3::new(1_000_000 + 40_000, 2_000_000 - 16_000, 3_000_000 - 160_000),
            Vec3::new(2_500_000, 0, -10_000_000)
        )
    );
    let impacts = run(&mut scene, 1_000_000);
    assert!(impacts.is_empty());
    assert_eq!(
        scene.projectiles.get(Entity { id: 1 }).unwrap().transform.translation,
        Vec3::new(1_040_000 + 2_500_000, 1_984_000 - 1_000_000, 2_840_000 - 10_000_000)
    );
    assert!(scene.effects.len() == 0);
    assert_eq!(scene.allocator.next, 100);
}

#[test]
fn a_hit_takes_every_hit_point_and_removes_the_projectile() {
    for before in [100_000_000i64, 1_000_000, 1, 0, -7] {
        let mut scene = scene();
        let target = Entity { id: 50 };
        scene.healths.insert(target, Health { hit_points: before, max_hit_points: 100_000_000 });
        scene.projectiles.insert(
            Entity { id: 1 },
            tracing(Vec3::new(0, 0, 0), Vec3::new(0, 0, -10_000_000)),
        );
        scene.hits.insert(Entity { id: 1 }, RayHit { entity: target, point: Vec3::new(0, -8_000, -80_000) });
        let impacts = run(&mut scene, 16_000);
        assert_eq!(
            impacts,
            vec![Impact {
                projectile: Entity { id: 1 },
                target,
                transform: Transform { translation: Vec3::new(0, -8_000, -80_000), rotation: TURN },
            }]
        );
        assert_eq!(
            *scene.healths.get(target).unwrap(),
            Health { hit_points: 0, max_hit_points: 100_000_000 }
        );
        assert!(!scene.projectiles.has(Entity { id: 1 }));
        assert_eq!(scene.projectiles.len(), 0);
    }
}

#[test]
fn a_hit_starts_the_impact_effect_at_the_point_of_the_hit() {
    let mut scene = scene();
    scene.projectiles.insert(Entity { id: 1 }, tracing(Vec3::new(0, 0, 0), Vec3::new(0, 0, -10_000_000)));
    scene.hits.insert(
        Entity { id: 1 },
        RayHit { entity: Entity { id: 50 }, point: Vec3::new(0, -8_000, -80_000) },
    );
    run(&mut scene, 16_000);
    assert_eq!(scene.effects.len(), 1);
    assert_eq!(scene.effects.key_at(0), Entity { id: 100 });
    assert_eq!(scene.allocator.next, 101);
    assert_eq!(
        *scene.effects.value_at(0),
        ParticleEffect {
            template: EffectTemplate { id: 9 },
            transform: Transform { translation: Vec3::new(0, -8_000, -80_000), rotation: TURN },
            active: true,
            timed: Some(TimedParticle { length: 3_000_000, time_played: 0, destroy_on_completion: true }),
            sprinting: None,
        }
    );
    assert_eq!(IMPACT_EFFECT_LENGTH, 3_000_000);
}

#[test]
fn a_target_without_hit_points_is_skipped_silently() {
    let mut scene = scene();
    scene.healths.insert(Entity { id: 60 }, Health::full(5_000_000));
    scene.projectiles.insert(Entity { id: 1 }, tracing(Vec3::new(0, 0, 0), Vec3::new(0, 0, -10_000_000)));
    scene.hits.insert(Entity { id: 1 }, RayHit { entity: Entity { id: 50 }, point: Vec3::new(0, 0, -1) });
    let impacts = run(&mut scene, 16_000);
    assert_eq!(impacts.len(), 1);
    assert_eq!(*scene.healths.get(Entity { id: 60 }).unwrap(), Health::full(5_000_000));
    assert_eq!(scene.healths.len(), 1);
    assert_eq!(scene.effects.len(), 1);
    assert!(!scene.projectiles.has(Entity { id: 1 }));
}

#[test]
fn without_a_registered_effect_none_is_started() {
    let mut scene = scene();
    scene.registry = ParticleEffects::default();
    assert!(scene.registry.firework.is_none());
    scene.healths.insert(Entity { id: 50 }, Health::full(5_000_000));
    scene.projectiles.insert(Entity { id: 1 }, tracing(Vec3::new(0, 0, 0), Vec3::new(0, 0, -10_000_000)));
    scene.hits.insert(Entity { id: 1 }, RayHit { entity: Entity { id: 50 }, point: Vec3::new(0, 0, -1) });
    run(&mut scene, 16_000);
    assert_eq!(scene.effects.len(), 0);
    assert_eq!(scene.allocator.next, 100);
    assert_eq!(scene.healths.get(Entity { id: 50 }).unwrap().hit_points, 0);
    assert!(!scene.projectiles.has(Entity { id: 1 }));
}

#[test]
fn a_hit_on_a_child_collider_damages_the_parent() {
    let mut scene = scene();
    let child = Entity { id: 51 };
    let parent = Entity { id: 50 };
    scene.parents.insert(child, parent);
    assert_eq!(resolve_target(&scene.parents, child), parent);
    assert_eq!(resolve_target(&scene.parents, parent), parent);
    scene.healths.insert(parent, Health::full(100_000_000));
    scene.healths.insert(child, Health::full(40_000_000));
    scene.projectiles.insert(Entity { id: 1 }, tracing(Vec3::new(0, 0, 0), Vec3::new(0, 0, -10_000_000)));
    scene.hits.insert(Entity { id: 1 }, RayHit { entity: child, point: Vec3::new(0, 0, -1) });
    let impacts = run(&mut scene, 16_000);
    assert_eq!(impacts[0].target, parent);
    assert_eq!(
        *scene.healths.get(parent).unwrap(),
        Health { hit_points: 0, max_hit_points: 100_000_000 }
    );
    assert_eq!(*scene.healths.get(child).unwrap(), Health::full(40_000_000));
}

#[test]
fn projectiles_at_rest_and_physics_projectiles_ignore_reported_hits() {
    let mut scene = scene();
    scene.healths.insert(Entity { id: 50 }, Health::full(5_000_000));
    scene.projectiles.insert(Entity { id: 1 }, tracing(Vec3::new(1, 2, 3), Vec3::new(0, 0, 0)));
    scene.projectiles.insert(Entity { id: 2 }, physics(Vec3::new(4, 5, 6)));
    scene.hits.insert(Entity { id: 1 }, RayHit { entity: Entity { id: 50 }, point: Vec3::new(0, 0, 0) });
    scene.hits.insert(Entity { id: 2 }, RayHit { entity: Entity { id: 50 }, point: Vec3::new(0, 0, 0) });
    let impacts = run(&mut scene, 16_000);
    assert!(impacts.is_empty());
    assert_eq!(*scene.projectiles.get(Entity { id: 1 }).unwrap(), tracing(Vec3::new(1, 2, 3), Vec3::new(0, 0, 0)));
    assert_eq!(*scene.projectiles.get(Entity { id: 2 }).unwrap(), physics(Vec3::new(4, 5, 6)));
    assert_eq!(*scene.healths.get(Entity { id: 50 }).unwrap(), Health::full(5_000_000));
}

#[test]
fn several_projectiles_keep_their_order() {
    let mut projectiles: Table<Projectile> = Table::new();
    let mut hits: Table<RayHit> = Table::new();
    let parents: Table<Entity> = Table::new();
    for id in 1..=5u64 {
        projectiles.insert(Entity { id }, tracing(Vec3::new(0, 0, 0), Vec3::new(1_000_000, 0, 0)));
    }
    hits.insert(Entity { id: 4 }, RayHit { entity: Entity { id: 40 }, point: Vec3::new(4, 0, 0) });
    hits.insert(Entity { id: 2 }, RayHit { entity: Entity { id: 20 }, point: Vec3::new(2, 0, 0) });
    let impacts = sweep_tracing_projectiles(&mut projectiles, &hits, &parents, 1_000_000);
    assert_eq!(impacts.len(), 2);
    assert_eq!(impacts[0].projectile, Entity { id: 2 });
    assert_eq!(impacts[0].target, Entity { id: 20 });
    assert_eq!(impacts[1].projectile, Entity { id: 4 });
    assert_eq!(projectiles.len(), 3);
    assert_eq!(projectiles.key_at(0), Entity { id: 1 });
    assert_eq!(projectiles.key_at(1), Entity { id: 3 });
    assert_eq!(projectiles.key_at(2), Entity { id: 5 });
    assert_eq!(projectiles.value_at(1).transform.translation, Vec3::new(1_000_000, -1_000_000, 0));
}

#[test]
fn spawning_gives_fresh_entities() {
    let mut projectiles: Table<Projectile> = Table::new();
    let mut allocator = EntityAllocator::new();
    assert!(allocator.can_allocate());
    let request = SpawnRequest {
        transform: Transform { translation: Vec3::new(1, 2, 3), rotation: TURN },
        velocity: Vec3::new(0, 0, -10_000_000),
    };
    let first = spawn_projectile(&mut projectiles, &mut allocator, &request);
    let second = spawn_physics_projectile(
        &mut projectiles,
        &mut allocator,
        Transform { translation: Vec3::new(4, 5, 6), rotation: TURN },
    );
    assert_eq!(first, Entity { id: 0 });
    assert_eq!(second, Entity { id: 1 });
    assert_eq!(allocator.next, 2);
    assert_eq!(*projectiles.get(first).unwrap(), tracing(Vec3::new(1, 2, 3), Vec3::new(0, 0, -10_000_000)));
    assert_eq!(*projectiles.get(second).unwrap(), physics(Vec3::new(4, 5, 6)));
    assert!(!EntityAllocator { next: u64::MAX }.can_allocate());
}

#[test]
fn physics_bundles() {
    let resting = PhysicsProjectileBundle::default();
    assert_eq!(
        resting,
        PhysicsProjectileBundle {
            projectile: PhysicsProjectile {},
            gravity_scale: 1_000_000,
            mass: 1_000_000,
            linear_damping: 1_000_000,
            angular_damping: 0,
            rigid_body: RigidBody::Dynamic,
            collider: ColliderShape::Unset,
            linear_velocity: Vec3::new(0, 0, 0),
            angular_velocity: Vec3::new(0, 0, 0),
        }
    );
    let ball = PhysicsProjectileBundle::ball(100_000, Vec3::new(0, 0, -10_000_000));
    assert_eq!(
        ball,
        PhysicsProjectileBundle {
            collider: ColliderShape::Ball { radius: 100_000 },
            linear_velocity: Vec3::new(0, 0, -10_000_000),
            ..resting
        }
    );
    let capsule = PhysicsProjectileBundle::capsule(400_001, 100_000, Vec3::new(1, 2, 3));
    assert_eq!(
        capsule,
        PhysicsProjectileBundle {
            collider: ColliderShape::CapsuleY { half_height: 200_000, radius: 100_000 },
            linear_velocity: Vec3::new(1, 2, 3),
            ..resting
        }
    );
}

//! Collisions of the physics projectiles: which side of a collision is the
//! projectile, which entity takes the damage, and what a run of collision
//! events does to the projectiles.

use vstd::prelude::*;
use crate::combat::health::Health;
use crate::combat::projectile::{
    can_resolve,
    fresh_entities,
    impact_effects,
    impact_targets,
    owner,
    resolve_impacts,
    resolve_target,
    struck_down,
    Impact,
    Projectile,
    ProjectileKind,
};
use crate::entity::{Entity, EntityAllocator};
use crate::particles::{ParticleEffect, ParticleEffects};
use crate::table::{lookup_in, Table};

verus! {

/// What the physics engine reports of two colliders: that they began to
/// touch, or ceased to.
#[derive(Clone, Copy, Debug, PartialEq, Eq, Structural)]
pub enum CollisionEvent {
    Started(Entity, Entity),
    Stopped(Entity, Entity),
}

impl CollisionEvent {
    /// The first collider of the event.
    pub open spec fn first(&self) -> Entity {
        match *self {
            CollisionEvent::Started(a, _) => a,
            CollisionEvent::Stopped(a, _) => a,
        }
    }

    /// The second collider of the event.
    pub open spec fn second(&self) -> Entity {
        match *self {
            CollisionEvent::Started(_, b) => b,
            CollisionEvent::Stopped(_, b) => b,
        }
    }
}

/// The two colliders of an event, and whether they touch from now on.
pub fn unpack_collision_event(event: &CollisionEvent) -> (r: (Entity, Entity, bool))
    ensures
        r.0 == event.first(),
        r.1 == event.second(),
        r.2 == (*event is Started),
{
    match event {
        CollisionEvent::Started(entity_a, entity_b) => (*entity_a, *entity_b, true),
        CollisionEvent::Stopped(entity_a, entity_b) => (*entity_a, *entity_b, false),
    }
}

/// Whether `entity` is a projectile of the physics engine.
pub open spec fn is_physics_projectile(
    keys: Seq<Entity>,
    values: Seq<Projectile>,
    entity: Entity,
) -> bool {
    match lookup_in(keys, values, entity) {
        Some(projectile) => projectile.kind is Physics,
        None => false,
    }
}

/// Of two colliders, the projectile and the entity that takes the damage:
/// the first collider if it is a projectile, else the second if that is one,
/// and the owner of the other one. Neither where neither is a projectile.
pub open spec fn projectile_and_target(
    keys: Seq<Entity>,
    values: Seq<Projectile>,
    parents: Table<Entity>,
    entity_a: Entity,
    entity_b: Entity,
) -> Option<(Entity, Entity)> {
    if is_physics_projectile(keys, values, entity_a) {
        Some((entity_a, owner(parents, entity_b)))
    } else if is_physics_projectile(keys, values, entity_b) {
        Some((entity_b, owner(parents, entity_a)))
    } else {
        None
    }
}

/// Whether `entity` is a projectile of the physics engine.
fn carries_projectile_marker(projectiles: &Table<Projectile>, entity: Entity) -> (r: bool)
    requires
        projectiles.wf(),
    ensures
        r == is_physics_projectile(projectiles.keys(), projectiles.values(), entity),
{
    match projectiles.get(entity) {
        Some(projectile) => match projectile.kind {
            ProjectileKind::Physics(_) => true,
            ProjectileKind::Tracing(_) => false,
        },
        None => false,
    }
}

/// Tells the projectile from its target among the two colliders of an
/// event, and resolves the target to its owner.
pub fn determine_projectile_and_target(
    projectiles: &Table<Projectile>,
    parents: &Table<Entity>,
    entity_a: Entity,
    entity_b: Entity,
) -> (r: Option<(Entity, Entity)>)
    requires
        projectiles.wf(),
        parents.wf(),
    ensures
        r == projectile_and_target(
            projectiles.keys(),
            projectiles.values(),
            *parents,
            entity_a,
            entity_b,
        ),
{
    if carries_projectile_marker(projectiles, entity_a) {
        Some((entity_a, resolve_target(parents, entity_b)))
    } else if carries_projectile_marker(projectiles, entity_b) {
        Some((entity_b, resolve_target(parents, entity_a)))
    } else {
        None
    }
}

/// The projectiles that are left and the impacts made so far, while a run of
/// collision events is worked through.
pub ghost struct ImpactRun {
    pub keys: Seq<Entity>,
    pub values: Seq<Projectile>,
    pub impacts: Seq<Impact>,
}

/// The run after one more event. An event that names a projectile removes
/// it and adds its impact, on the owner of the other collider and where the
/// projectile was; an event that names none changes nothing.
pub open spec fn after_event(run: ImpactRun, parents: Table<Entity>, event: CollisionEvent) -> ImpactRun {
    match projectile_and_target(run.keys, run.values, parents, event.first(), event.second()) {
        Some((projectile, target)) => {
            let row = run.keys.index_of(projectile);
            ImpactRun {
                keys: run.keys.remove(row),
                values: run.values.remove(row),
                impacts: run.impacts.push(
                    Impact { projectile, target, transform: run.values[row].transform },
                ),
            }
        },
        None => run,
    }
}

/// The run after `events`, worked through in order.
pub open spec fn after_events(
    start: ImpactRun,
    parents: Table<Entity>,
    events: Seq<CollisionEvent>,
) -> ImpactRun
    decreases events.len(),
{
    if events.len() == 0 {
        start
    } else {
        after_event(after_events(start, parents, events.drop_last()), parents, events.last())
    }
}

/// Works through the collision events in order. Each event that names a
/// projectile removes that projectile at once, so that no later event finds
/// it again, and adds its impact to the ones handed back.
pub fn collect_collision_impacts(
    events: &Vec<CollisionEvent>,
    projectiles: &mut Table<Projectile>,
    parents: &Table<Entity>,
) -> (impacts: Vec<Impact>)
    requires
        old(projectiles).wf(),
        parents.wf(),
    ensures
        final(projectiles).wf(),
        (ImpactRun {
            keys: final(projectiles).keys(),
            values: final(projectiles).values(),
            impacts: impacts@,
        }) == after_events(
            ImpactRun {
                keys: old(projectiles).keys(),
                values: old(projectiles).values(),
                impacts: Seq::empty(),
            },
            *parents,
            events@,
        ),
        forall|k: int|
            0 <= k < impacts@.len() ==> !final(projectiles).contains(
                (#[trigger] impacts@[k]).projectile,
            ) && old(projectiles).contains(impacts@[k].projectile),
        forall|k: int, l: int|
            0 <= k < l < impacts@.len() ==> impacts@[k].projectile != impacts@[l].projectile,
        forall|e: Entity| final(projectiles).contains(e) ==> old(projectiles).contains(e),
{
    let ghost start = ImpactRun {
        keys: projectiles.keys(),
        values: projectiles.values(),
        impacts: Seq::empty(),
    };
    let mut impacts: Vec<Impact> = Vec::new();
    let mut n: usize = 0;
    while n < events.len()
        invariant
            projectiles.wf(),
            parents.wf(),
            n <= events@.len(),
            start == (ImpactRun {
                keys: old(projectiles).keys(),
                values: old(projectiles).values(),
                impacts: Seq::empty(),
            }),
            (ImpactRun {
                keys: projectiles.keys(),
                values: projectiles.values(),
                impacts: impacts@,
            }) == after_events(start, *parents, events@.take(n as int)),
            forall|k: int|
                0 <= k < impacts@.len() ==> !projectiles.contains(
                    (#[trigger] impacts@[k]).projectile,
                ) && old(projectiles).contains(impacts@[k].projectile),
            forall|k: int, l: int|
                0 <= k < l < impacts@.len() ==> impacts@[k].projectile != impacts@[l].projectile,
            forall|e: Entity| projectiles.contains(e) ==> old(projectiles).contains(e),
        decreases events@.len() - n,
    {
        proof {
            assert(events@.take(n + 1).drop_last() =~= events@.take(n as int));
            assert(events@.take(n + 1).last() == events@[n as int]);
        }
        let ghost before = *projectiles;
        let (entity_a, entity_b, _ongoing) = unpack_collision_event(&events[n]);
        match determine_projectile_and_target(projectiles, parents, entity_a, entity_b) {
            Some((projectile, target)) => {
                let row = projectiles.find(projectile).unwrap();
                let removed = projectiles.remove_at(row);
                impacts.push(Impact { projectile, target, transform: removed.transform });
                proof {
                    assert forall|e: Entity| projectiles.contains(e) implies before.contains(e) by {
                        assert(projectiles.lookup(e) == before.lookup(e));
                    }
                }
            },
            None => {},
        }
        n = n + 1;
    }
    proof {
        assert(events@.take(events@.len() as int) =~= events@);
    }
    impacts
}

/// Works through the collision events of the physics projectiles and
/// applies what they did: each projectile that an event names is removed,
/// the owner of what it struck loses every hit point, if it has any, and the
/// impact effect starts where the projectile was, if it is registered.
/// An event that names no projectile is ignored. Hands back the impacts.
pub fn apply_projectile_impact(
    events: &Vec<CollisionEvent>,
    projectiles: &mut Table<Projectile>,
    parents: &Table<Entity>,
    healths: &mut Table<Health>,
    registry: &ParticleEffects,
    effects: &mut Table<ParticleEffect>,
    allocator: &mut EntityAllocator,
) -> (impacts: Vec<Impact>)
    requires
        old(projectiles).wf(),
        parents.wf(),
        old(healths).wf(),
        old(effects).wf(),
        can_resolve(*registry, *old(effects), *old(allocator), events@.len()),
    ensures
        final(projectiles).wf(),
        (ImpactRun {
            keys: final(projectiles).keys(),
            values: final(projectiles).values(),
            impacts: impacts@,
        }) == after_events(
            ImpactRun {
                keys: old(projectiles).keys(),
                values: old(projectiles).values(),
                impacts: Seq::empty(),
            },
            *parents,
            events@,
        ),
        forall|k: int|
            0 <= k < impacts@.len() ==> !final(projectiles).contains(
                (#[trigger] impacts@[k]).projectile,
            ),
        final(healths).wf(),
        final(healths).keys() == old(healths).keys(),
        final(healths).values() == struck_down(
            old(healths).keys(),
            old(healths).values(),
            impact_targets(impacts@),
        ),
        final(effects).wf(),
        final(effects).all_below(final(allocator).next),
        match registry.firework {
            Some(template) => {
                &&& final(allocator).next == old(allocator).next + impacts@.len()
                &&& final(effects).keys() == old(effects).keys() + fresh_entities(
                    old(allocator).next,
                    impacts@.len(),
                )
                &&& final(effects).values() == old(effects).values() + impact_effects(
                    template,
                    impacts@,
                )
            },
            None => {
                &&& final(allocator).next == old(allocator).next
                &&& final(effects).keys() == old(effects).keys()
                &&& final(effects).values() == old(effects).values()
            },
        },
{
    let impacts = collect_collision_impacts(events, projectiles, parents);
    proof {
        lemma_impacts_within_events(
            ImpactRun {
                keys: old(projectiles).keys(),
                values: old(projectiles).values(),
                impacts: Seq::empty(),
            },
            *parents,
            events@,
        );
    }
    resolve_impacts(&impacts, healths, registry, effects, allocator);
    impacts
}

/// A run of events makes at most one impact for each event.
pub proof fn lemma_impacts_within_events(
    start: ImpactRun,
    parents: Table<Entity>,
    events: Seq<CollisionEvent>,
)
    ensures
        after_events(start, parents, events).impacts.len() <= start.impacts.len() + events.len(),
    decreases events.len(),
{
    if events.len() > 0 {
        lemma_impacts_within_events(start, parents, events.drop_last());
    }
}

/// A collision between a projectile and a collider that has a parent is a
/// hit on the parent, not on the collider, whichever of the two the event
/// names first.
pub proof fn lemma_child_collision_targets_parent(
    keys: Seq<Entity>,
    values: Seq<Projectile>,
    parents: Table<Entity>,
    projectile: Entity,
    child: Entity,
    parent: Entity,
)
    requires
        is_physics_projectile(keys, values, projectile),
        !is_physics_projectile(keys, values, child),
        parents.lookup(child) == Some(parent),
    ensures
        projectile_and_target(keys, values, parents, projectile, child) == Some(
            (projectile, parent),
        ),
        projectile_and_target(keys, values, parents, child, projectile) == Some(
            (projectile, parent),
        ),
{
}

/// An event that names no projectile changes nothing, and an event that
/// names one removes it: worked through a second time, the same event finds
/// no projectile in it unless its other collider is one.
pub proof fn lemma_event_is_resolved_once(
    run: ImpactRun,
    parents: Table<Entity>,
    event: CollisionEvent,
)
    requires
        run.keys.len() == run.values.len(),
        run.keys.no_duplicates(),
    ensures
        projectile_and_target(run.keys, run.values, parents, event.first(), event.second())
            is None ==> after_event(run, parents, event) == run,
        projectile_and_target(run.keys, run.values, parents, event.first(), event.second())
            is Some ==> !after_event(run, parents, event).keys.contains(
            projectile_and_target(
                run.keys,
                run.values,
                parents,
                event.first(),
                event.second(),
            )->Some_0.0,
        ),
{
    match projectile_and_target(run.keys, run.values, parents, event.first(), event.second()) {
        Some((projectile, target)) => {
            assert(run.keys.contains(projectile));
            let row = run.keys.index_of(projectile);
            crate::table::lemma_remove_keeps_lookup(run.keys, run.values, row);
        },
        None => {},
    }
}

} // verus!

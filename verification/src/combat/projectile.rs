//! The projectiles: how a tracing projectile is swept along its path, and
//! what an impact does to its target.

use vstd::prelude::*;
use crate::combat::health::Health;
use crate::combat::shoot::SpawnRequest;
use crate::entity::{Entity, EntityAllocator};
use crate::fixed::{way_over_time, Transform, Vec3, SCALE, V3};
use crate::particles::{EffectTemplate, ParticleEffect, ParticleEffects};
use crate::table::{lemma_pick_agrees, lemma_pick_members, lemma_pick_step, pick, Table};

verus! {

/// A projectile that is swept along its path each tick, with its velocity in
/// fixed-point steps per second.
#[derive(Clone, Copy, Debug, PartialEq, Eq, Structural)]
pub struct TracingProjectile {
    pub velocity: Vec3,
}

impl Default for TracingProjectile {
    fn default() -> (r: Self)
        ensures
            r.velocity@ == (V3 { x: 0, y: 0, z: 0 }),
    {
        TracingProjectile { velocity: Vec3::zero() }
    }
}

/// Marks a projectile that the physics engine moves as a rigid body.
#[derive(Clone, Copy, Debug, PartialEq, Eq, Structural)]
pub struct PhysicsProjectile {}

impl Default for PhysicsProjectile {
    fn default() -> (r: Self) {
        PhysicsProjectile {  }
    }
}

/// The two kinds of projectile.
#[derive(Clone, Copy, Debug, PartialEq, Eq, Structural)]
pub enum ProjectileKind {
    Tracing(TracingProjectile),
    Physics(PhysicsProjectile),
}

/// A projectile in the world: where it is, and what moves it.
#[derive(Clone, Copy, Debug, PartialEq, Eq, Structural)]
pub struct Projectile {
    pub transform: Transform,
    pub kind: ProjectileKind,
}

/// The downward pull on a tracing projectile, as a velocity: one unit per
/// second. It is a fixed rule of the sweep, not the physics engine's
/// gravity.
pub open spec fn gravity_bias() -> V3 {
    V3 { x: 0, y: -(SCALE as int), z: 0 }
}

/// The path along which a projectile is swept in one tick.
#[derive(Clone, Copy, Debug, PartialEq, Eq, Structural)]
pub struct SweepQuery {
    pub origin: Vec3,
    /// From the origin to the end of the path.
    pub direction: Vec3,
    /// The length of the path, rounded down.
    pub max_distance: u64,
    /// Colliders that only sense are passed through.
    pub exclude_sensors: bool,
}

/// What a sweep struck first, and where.
#[derive(Clone, Copy, Debug, PartialEq, Eq, Structural)]
pub struct RayHit {
    pub entity: Entity,
    pub point: Vec3,
}

/// A projectile that has struck something: the projectile, the entity that
/// takes the damage, and where the projectile was when it struck.
#[derive(Clone, Copy, Debug, PartialEq, Eq, Structural)]
pub struct Impact {
    pub projectile: Entity,
    pub target: Entity,
    pub transform: Transform,
}

impl Projectile {
    /// The velocity of a tracing projectile; a physics projectile has none
    /// here.
    pub open spec fn velocity(&self) -> V3 {
        match self.kind {
            ProjectileKind::Tracing(tracing) => tracing.velocity@,
            ProjectileKind::Physics(_) => V3 { x: 0, y: 0, z: 0 },
        }
    }

    /// Whether the projectile is swept: a tracing projectile whose velocity
    /// is not exactly zero.
    pub open spec fn moving(&self) -> bool {
        self.kind is Tracing && self.velocity() != (V3 { x: 0, y: 0, z: 0 })
    }

    /// The way of one tick of `dt` microseconds: along the velocity, and down
    /// by the gravity bias.
    pub open spec fn displacement(&self, dt: u64) -> V3 {
        self.velocity().over_time(dt as int).plus(gravity_bias().over_time(dt as int))
    }

    /// Where the path of one tick ends.
    pub open spec fn segment_end(&self, dt: u64) -> V3 {
        self.transform.translation@.plus(self.displacement(dt))
    }

    /// Whether the way of one tick and its end can be held.
    pub open spec fn can_advance(&self, dt: u64) -> bool {
        self.displacement(dt).fits() && self.segment_end(dt).fits()
    }

    /// The projectile at the end of its path.
    pub open spec fn advanced(&self, dt: u64) -> Projectile {
        Projectile {
            transform: Transform {
                translation: self.segment_end(dt).to_vec3(),
                rotation: self.transform.rotation,
            },
            kind: self.kind,
        }
    }

    /// The sweep of one tick: from where the projectile is, along its way,
    /// as far as the way is long, through colliders that only sense.
    pub open spec fn sweep(&self, dt: u64) -> SweepQuery {
        SweepQuery {
            origin: self.transform.translation,
            direction: self.displacement(dt).to_vec3(),
            max_distance: self.displacement(dt).norm() as u64,
            exclude_sensors: true,
        }
    }

    /// The projectile after one tick in which its sweep struck nothing: a
    /// moving one is at the end of its path, any other where it was.
    pub open spec fn after_miss(&self, dt: u64) -> Projectile {
        if self.moving() {
            self.advanced(dt)
        } else {
            *self
        }
    }

    /// Whether the projectile is swept.
    pub fn is_moving(&self) -> (r: bool)
        ensures
            r == self.moving(),
    {
        match self.kind {
            ProjectileKind::Tracing(tracing) => !tracing.velocity.is_zero(),
            ProjectileKind::Physics(_) => false,
        }
    }

    /// The way of one tick and where it ends, if both can be held.
    fn path(&self, dt: u64) -> (r: Option<(Vec3, Vec3)>)
        ensures
            r is Some <==> self.can_advance(dt),
            r is Some ==> r->Some_0.0@ == self.displacement(dt) && r->Some_0.1@
                == self.segment_end(dt),
    {
        let velocity = match self.kind {
            ProjectileKind::Tracing(tracing) => tracing.velocity,
            ProjectileKind::Physics(_) => Vec3::zero(),
        };
        let dx: i128 = way_over_time(velocity.x, dt) + way_over_time(0, dt);
        let dy: i128 = way_over_time(velocity.y, dt) + way_over_time(-SCALE, dt);
        let dz: i128 = way_over_time(velocity.z, dt) + way_over_time(0, dt);
        let low: i128 = i64::MIN as i128;
        let high: i128 = i64::MAX as i128;
        if dx < low || dx > high || dy < low || dy > high || dz < low || dz > high {
            return None;
        }
        let x: i128 = self.transform.translation.x as i128 + dx;
        let y: i128 = self.transform.translation.y as i128 + dy;
        let z: i128 = self.transform.translation.z as i128 + dz;
        if x < low || x > high || y < low || y > high || z < low || z > high {
            return None;
        }
        Some(
            (
                Vec3 { x: dx as i64, y: dy as i64, z: dz as i64 },
                Vec3 { x: x as i64, y: y as i64, z: z as i64 },
            ),
        )
    }

    /// The sweep to make for this projectile in a tick of `dt` microseconds:
    /// none for one that is not swept, or whose path cannot be held.
    pub fn sweep_query(&self, dt: u64) -> (r: Option<SweepQuery>)
        ensures
            r is Some <==> self.moving() && self.can_advance(dt),
            r is Some ==> r->Some_0 == self.sweep(dt),
    {
        if !self.is_moving() {
            return None;
        }
        match self.path(dt) {
            Some((direction, _end)) => Some(
                SweepQuery {
                    origin: self.transform.translation,
                    direction,
                    max_distance: direction.length(),
                    exclude_sensors: true,
                },
            ),
            None => None,
        }
    }
}

/// Creates the tracing projectile that a shot asks for, under a fresh
/// entity, and hands that entity back.
pub fn spawn_projectile(
    projectiles: &mut Table<Projectile>,
    allocator: &mut EntityAllocator,
    request: &SpawnRequest,
) -> (entity: Entity)
    requires
        old(projectiles).wf(),
        old(projectiles).all_below(old(allocator).next),
        old(allocator).has_room(),
    ensures
        final(projectiles).wf(),
        final(projectiles).all_below(final(allocator).next),
        entity.id == old(allocator).next,
        final(allocator).next == old(allocator).next + 1,
        final(projectiles).keys() == old(projectiles).keys().push(entity),
        final(projectiles).values() == old(projectiles).values().push(
            Projectile {
                transform: request.transform,
                kind: ProjectileKind::Tracing(TracingProjectile { velocity: request.velocity }),
            },
        ),
{
    let entity = allocator.allocate();
    proof {
        if projectiles.contains(entity) {
            let i = projectiles.keys().index_of(entity);
            assert(projectiles.keys()[i].id < old(allocator).next);
        }
    }
    projectiles.push(
        entity,
        Projectile {
            transform: request.transform,
            kind: ProjectileKind::Tracing(TracingProjectile { velocity: request.velocity }),
        },
    );
    entity
}

/// The entity that takes the damage when `collider` is struck: its parent if
/// it has one, else the collider itself.
pub open spec fn owner(parents: Table<Entity>, collider: Entity) -> Entity {
    match parents.lookup(collider) {
        Some(parent) => parent,
        None => collider,
    }
}

/// Finds the entity that takes the damage when `collider` is struck.
pub fn resolve_target(parents: &Table<Entity>, collider: Entity) -> (target: Entity)
    requires
        parents.wf(),
    ensures
        target == owner(*parents, collider),
{
    match parents.get(collider) {
        Some(parent) => *parent,
        None => collider,
    }
}

/// For each projectile, whether its sweep struck something: it is swept and
/// a hit is reported for it.
pub open spec fn strike_marks(projectiles: Table<Projectile>, hits: Table<RayHit>) -> Seq<bool> {
    Seq::new(
        projectiles.keys().len(),
        |i: int| projectiles.values()[i].moving() && hits.contains(projectiles.keys()[i]),
    )
}

/// For each projectile, the impact that it makes if its sweep struck
/// something: on the owner of what was struck, at the point of the hit.
pub open spec fn strike_impacts(
    projectiles: Table<Projectile>,
    hits: Table<RayHit>,
    parents: Table<Entity>,
) -> Seq<Impact> {
    Seq::new(
        projectiles.keys().len(),
        |i: int|
            Impact {
                projectile: projectiles.keys()[i],
                target: owner(parents, hits.lookup(projectiles.keys()[i])->Some_0.entity),
                transform: Transform {
                    translation: hits.lookup(projectiles.keys()[i])->Some_0.point,
                    rotation: projectiles.values()[i].transform.rotation,
                },
            },
    )
}

/// Every projectile after a tick in which no sweep struck anything.
pub open spec fn missed(values: Seq<Projectile>, dt: u64) -> Seq<Projectile> {
    Seq::new(values.len(), |i: int| values[i].after_miss(dt))
}

/// Whether the path of every swept projectile can be held.
pub open spec fn all_can_advance(projectiles: Table<Projectile>, dt: u64) -> bool {
    forall|i: int|
        0 <= i < projectiles.values().len() && (#[trigger] projectiles.values()[i]).moving()
            ==> projectiles.values()[i].can_advance(dt)
}

/// Executable form of [`all_can_advance`].
pub fn can_sweep_all(projectiles: &Table<Projectile>, dt: u64) -> (r: bool)
    requires
        projectiles.wf(),
    ensures
        r == all_can_advance(*projectiles, dt),
{
    let total: usize = projectiles.len();
    let mut i: usize = 0;
    while i < total
        invariant
            projectiles.wf(),
            total == projectiles.values().len(),
            i <= total,
            forall|j: int|
                0 <= j < i && (#[trigger] projectiles.values()[j]).moving()
                    ==> projectiles.values()[j].can_advance(dt),
        decreases total - i,
    {
        let projectile = projectiles.value_at(i);
        if projectile.is_moving() && projectile.path(dt).is_none() {
            return false;
        }
        i = i + 1;
    }
    true
}

/// Moves the tracing projectiles by one tick of `dt` microseconds, given
/// what the sweep of each struck. A projectile whose sweep struck nothing is
/// moved to the end of its path. One whose sweep struck something is
/// removed, and its impact is handed back, in row order. A projectile at
/// rest, or one of the physics engine, is left as it is, whatever is
/// reported for it.
pub fn sweep_tracing_projectiles(
    projectiles: &mut Table<Projectile>,
    hits: &Table<RayHit>,
    parents: &Table<Entity>,
    dt: u64,
) -> (impacts: Vec<Impact>)
    requires
        old(projectiles).wf(),
        hits.wf(),
        parents.wf(),
        all_can_advance(*old(projectiles), dt),
    ensures
        final(projectiles).wf(),
        final(projectiles).keys() == pick(
            old(projectiles).keys(),
            strike_marks(*old(projectiles), *hits),
            false,
        ),
        final(projectiles).values() == pick(
            missed(old(projectiles).values(), dt),
            strike_marks(*old(projectiles), *hits),
            false,
        ),
        impacts@ == pick(
            strike_impacts(*old(projectiles), *hits, *parents),
            strike_marks(*old(projectiles), *hits),
            true,
        ),
        forall|i: int|
            0 <= i < old(projectiles).keys().len() ==> #[trigger] final(projectiles).lookup(
                old(projectiles).keys()[i],
            ) == if strike_marks(*old(projectiles), *hits)[i] {
                None
            } else {
                Some(old(projectiles).values()[i].after_miss(dt))
            },
        forall|e: Entity| final(projectiles).contains(e) ==> old(projectiles).contains(e),
{
    let ghost before = *projectiles;
    let ghost keys0 = projectiles.keys();
    let ghost values0 = projectiles.values();
    let ghost all_marks = strike_marks(before, *hits);
    let ghost all_impacts = strike_impacts(before, *hits, *parents);
    let mut marks: Vec<bool> = Vec::new();
    let mut impacts: Vec<Impact> = Vec::new();
    let total: usize = projectiles.len();
    let mut i: usize = 0;
    while i < total
        invariant
            projectiles.wf(),
            hits.wf(),
            parents.wf(),
            projectiles.keys() == keys0,
            keys0 == before.keys(),
            values0 == before.values(),
            all_marks == strike_marks(before, *hits),
            all_impacts == strike_impacts(before, *hits, *parents),
            keys0.len() == values0.len() == total,
            projectiles.values().len() == total,
            i <= total,
            forall|j: int|
                0 <= j < total && (#[trigger] values0[j]).moving() ==> values0[j].can_advance(dt),
            marks@ == all_marks.take(i as int),
            forall|j: int|
                0 <= j < i && !all_marks[j] ==> projectiles.values()[j] == values0[j].after_miss(
                    dt,
                ),
            forall|j: int| i <= j < total ==> projectiles.values()[j] == values0[j],
            impacts@ == pick(all_impacts.take(i as int), all_marks.take(i as int), true),
        decreases total - i,
    {
        proof {
            lemma_pick_step(all_impacts, all_marks, true, i as int);
        }
        let key = projectiles.key_at(i);
        let projectile = *projectiles.value_at(i);
        let mut struck = false;
        if projectile.is_moving() {
            match hits.get(key) {
                Some(hit) => {
                    struck = true;
                    impacts.push(
                        Impact {
                            projectile: key,
                            target: resolve_target(parents, hit.entity),
                            transform: Transform {
                                translation: hit.point,
                                rotation: projectile.transform.rotation,
                            },
                        },
                    );
                },
                None => {
                    let (_way, end) = projectile.path(dt).unwrap();
                    let _previous = projectiles.replace_at(
                        i,
                        Projectile {
                            transform: Transform {
                                translation: end,
                                rotation: projectile.transform.rotation,
                            },
                            kind: projectile.kind,
                        },
                    );
                },
            }
        }
        marks.push(struck);
        assert(marks@ =~= all_marks.take(i + 1));
        i = i + 1;
    }
    proof {
        assert(all_marks.take(total as int) =~= all_marks);
        assert(all_impacts.take(total as int) =~= all_impacts);
        lemma_pick_agrees(projectiles.values(), missed(values0, dt), all_marks, false);
    }
    let _removed = projectiles.remove_marked(&marks);
    proof {
        assert forall|i: int| 0 <= i < keys0.len() implies #[trigger] projectiles.lookup(keys0[i])
            == if all_marks[i] {
            None
        } else {
            Some(values0[i].after_miss(dt))
        } by {}
    }
    impacts
}

/// The entities that take the damage of `impacts`, in order.
pub open spec fn impact_targets(impacts: Seq<Impact>) -> Seq<Entity> {
    Seq::new(impacts.len(), |k: int| impacts[k].target)
}

/// The hit points after every entity among `targets` has lost all of its
/// own.
pub open spec fn struck_down(keys: Seq<Entity>, values: Seq<Health>, targets: Seq<Entity>) -> Seq<
    Health,
> {
    Seq::new(
        values.len(),
        |i: int|
            if targets.contains(keys[i]) {
                values[i].killed()
            } else {
                values[i]
            },
    )
}

/// The entities handed out from `first` on, `count` of them.
pub open spec fn fresh_entities(first: u64, count: nat) -> Seq<Entity> {
    Seq::new(count, |k: int| Entity { id: (first + k) as u64 })
}

/// The effects of `impacts`, each where its projectile struck.
pub open spec fn impact_effects(
    template: EffectTemplate,
    impacts: Seq<Impact>,
) -> Seq<ParticleEffect> {
    Seq::new(impacts.len(), |k: int| ParticleEffect::impact_at(template, impacts[k].transform))
}

/// Whether the effects of `count` impacts can be given entities.
pub open spec fn can_resolve(
    registry: ParticleEffects,
    effects: Table<ParticleEffect>,
    allocator: EntityAllocator,
    count: nat,
) -> bool {
    &&& effects.all_below(allocator.next)
    &&& registry.firework is Some ==> allocator.next + count <= u64::MAX
}

/// Applies the impacts in order. Each takes every hit point of its target,
/// if the target has hit points at all, and leaves the maximum as it is;
/// and each starts the impact effect where the projectile struck, under a
/// fresh entity, if that effect is registered.
pub fn resolve_impacts(
    impacts: &Vec<Impact>,
    healths: &mut Table<Health>,
    registry: &ParticleEffects,
    effects: &mut Table<ParticleEffect>,
    allocator: &mut EntityAllocator,
)
    requires
        old(healths).wf(),
        old(effects).wf(),
        can_resolve(*registry, *old(effects), *old(allocator), impacts@.len()),
    ensures
        final(healths).wf(),
        final(healths).keys() == old(healths).keys(),
        final(healths).values() == struck_down(
            old(healths).keys(),
            old(healths).values(),
            impact_targets(impacts@),
        ),
        final(effects).wf(),
        final(effects).all_below(final(allocator).next),
        match registry.firework {
            Some(template) => {
                &&& final(allocator).next == old(allocator).next + impacts@.len()
                &&& final(effects).keys() == old(effects).keys() + fresh_entities(
                    old(allocator).next,
                    impacts@.len(),
                )
                &&& final(effects).values() == old(effects).values() + impact_effects(
                    template,
                    impacts@,
                )
            },
            None => {
                &&& final(allocator).next == old(allocator).next
                &&& final(effects).keys() == old(effects).keys()
                &&& final(effects).values() == old(effects).values()
            },
        },
{
    let ghost keys0 = healths.keys();
    let ghost values0 = healths.values();
    let ghost targets = impact_targets(impacts@);
    let ghost first = allocator.next;
    let mut k: usize = 0;
    while k < impacts.len()
        invariant
            healths.wf(),
            effects.wf(),
            healths.keys() == keys0,
            keys0 == old(healths).keys(),
            values0 == old(healths).values(),
            targets == impact_targets(impacts@),
            first == old(allocator).next,
            k <= impacts@.len(),
            healths.values() == struck_down(keys0, values0, targets.take(k as int)),
            effects.all_below(allocator.next),
            registry.firework is Some ==> first + impacts@.len() <= u64::MAX,
            match registry.firework {
                Some(template) => {
                    &&& allocator.next == first + k
                    &&& effects.keys() == old(effects).keys() + fresh_entities(first, k as nat)
                    &&& effects.values() == old(effects).values() + impact_effects(
                        template,
                        impacts@.take(k as int),
                    )
                },
                None => {
                    &&& allocator.next == first
                    &&& effects.keys() == old(effects).keys()
                    &&& effects.values() == old(effects).values()
                },
            },
        decreases impacts@.len() - k,
    {
        let impact = impacts[k];
        let ghost values_before = healths.values();
        match healths.find(impact.target) {
            Some(row) => {
                let mut health = *healths.value_at(row);
                health.kill();
                let _previous = healths.replace_at(row, health);
            },
            None => {},
        }
        proof {
            let sooner = targets.take(k as int);
            let later = targets.take(k + 1);
            assert(later =~= sooner.push(impact.target));
            assert forall|e: Entity| later.contains(e) <==> (sooner.contains(e) || e
                == impact.target) by {
                if sooner.contains(e) {
                    let w = choose|w: int| 0 <= w < sooner.len() && sooner[w] == e;
                    assert(later[w] == e);
                }
                if e == impact.target {
                    assert(later[k as int] == e);
                }
            }
            assert(healths.values() =~= struck_down(keys0, values0, later)) by {
                assert forall|i: int| 0 <= i < keys0.len() implies healths.values()[i]
                    == struck_down(keys0, values0, later)[i] by {
                    assert(values_before[i] == struck_down(keys0, values0, sooner)[i]);
                    if keys0[i] == impact.target {
                        assert(keys0.contains(impact.target));
                    }
                }
            }
        }
        match registry.firework {
            Some(template) => {
                let entity = allocator.allocate();
                proof {
                    if effects.contains(entity) {
                        let w = effects.keys().index_of(entity);
                        assert(effects.keys()[w].id < first + k);
                    }
                }
                effects.push(entity, ParticleEffect::impact(template, impact.transform));
                proof {
                    assert(effects.keys() =~= old(effects).keys() + fresh_entities(
                        first,
                        (k + 1) as nat,
                    ));
                    assert(effects.values() =~= old(effects).values() + impact_effects(
                        template,
                        impacts@.take(k + 1),
                    ));
                    assert forall|w: int| 0 <= w < effects.keys().len() implies (
                    #[trigger] effects.keys()[w]).id < allocator.next by {
                        if w < effects.keys().len() - 1 {
                            assert(effects.keys()[w] == (old(effects).keys() + fresh_entities(
                                first,
                                k as nat,
                            ))[w]);
                        }
                    }
                }
            },
            None => {},
        }
        k = k + 1;
    }
    proof {
        assert(targets.take(impacts@.len() as int) =~= targets);
        assert(impacts@.take(impacts@.len() as int) =~= impacts@);
    }
}

/// Moves the tracing projectiles by one tick of `dt` microseconds, given
/// what the sweep of each struck, and applies the impacts. A projectile
/// whose sweep struck nothing is moved to the end of its path. One whose
/// sweep struck something is removed; the owner of what it struck loses
/// every hit point, if it has any; and the impact effect starts at the point
/// of the hit, if it is registered. Hands back the impacts in row order.
pub fn handle_tracing_projectile_movement(
    projectiles: &mut Table<Projectile>,
    hits: &Table<RayHit>,
    parents: &Table<Entity>,
    healths: &mut Table<Health>,
    registry: &ParticleEffects,
    effects: &mut Table<ParticleEffect>,
    allocator: &mut EntityAllocator,
    dt: u64,
) -> (impacts: Vec<Impact>)
    requires
        old(projectiles).wf(),
        hits.wf(),
        parents.wf(),
        old(healths).wf(),
        old(effects).wf(),
        all_can_advance(*old(projectiles), dt),
        can_resolve(*registry, *old(effects), *old(allocator), old(projectiles).keys().len()),
    ensures
        final(projectiles).wf(),
        final(projectiles).keys() == pick(
            old(projectiles).keys(),
            strike_marks(*old(projectiles), *hits),
            false,
        ),
        final(projectiles).values() == pick(
            missed(old(projectiles).values(), dt),
            strike_marks(*old(projectiles), *hits),
            false,
        ),
        impacts@ == pick(
            strike_impacts(*old(projectiles), *hits, *parents),
            strike_marks(*old(projectiles), *hits),
            true,
        ),
        forall|i: int|
            0 <= i < old(projectiles).keys().len() ==> #[trigger] final(projectiles).lookup(
                old(projectiles).keys()[i],
            ) == if strike_marks(*old(projectiles), *hits)[i] {
                None
            } else {
                Some(old(projectiles).values()[i].after_miss(dt))
            },
        final(healths).wf(),
        final(healths).keys() == old(healths).keys(),
        final(healths).values() == struck_down(
            old(healths).keys(),
            old(healths).values(),
            impact_targets(impacts@),
        ),
        final(effects).wf(),
        final(effects).all_below(final(allocator).next),
        match registry.firework {
            Some(template) => {
                &&& final(allocator).next == old(allocator).next + impacts@.len()
                &&& final(effects).keys() == old(effects).keys() + fresh_entities(
                    old(allocator).next,
                    impacts@.len(),
                )
                &&& final(effects).values() == old(effects).values() + impact_effects(
                    template,
                    impacts@,
                )
            },
            None => {
                &&& final(allocator).next == old(allocator).next
                &&& final(effects).keys() == old(effects).keys()
                &&& final(effects).values() == old(effects).values()
            },
        },
{
    let impacts = sweep_tracing_projectiles(projectiles, hits, parents, dt);
    proof {
        lemma_pick_members(
            strike_impacts(*old(projectiles), *hits, *parents),
            strike_marks(*old(projectiles), *hits),
            true,
        );
    }
    resolve_impacts(&impacts, healths, registry, effects, allocator);
    impacts
}

/// A swept projectile that strikes nothing is moved by exactly the way of
/// the tick: its velocity over the time, and down by one step for each
/// microsecond; it is not snapped to anything.
pub proof fn lemma_miss_advances(projectile: Projectile, dt: u64)
    requires
        projectile.moving(),
        projectile.can_advance(dt),
    ensures
        gravity_bias().over_time(dt as int) == (V3 { x: 0, y: -(dt as int), z: 0 }),
        projectile.after_miss(dt).transform.translation@ == projectile.transform.translation@.plus(
            projectile.velocity().over_time(dt as int),
        ).plus(V3 { x: 0, y: -(dt as int), z: 0 }),
        projectile.after_miss(dt).transform.rotation == projectile.transform.rotation,
        projectile.after_miss(dt).kind == projectile.kind,
{
    assert((-(SCALE as int) * (dt as int)) / (SCALE as int) == -(dt as int)) by (nonlinear_arith);
    assert((0 * (dt as int)) / (SCALE as int) == 0int) by (nonlinear_arith);
}

/// A swept projectile for which a hit is reported is gone after the tick,
/// and the owner of what it struck has no hit point left, whatever it had
/// before, while its maximum is as it was. Where the collider that was
/// struck has a parent, the owner is the parent.
pub proof fn lemma_hit_kills_owner(
    projectiles: Table<Projectile>,
    hits: Table<RayHit>,
    parents: Table<Entity>,
    healths: Table<Health>,
    row: int,
    health_row: int,
)
    requires
        projectiles.wf(),
        healths.wf(),
        0 <= row < projectiles.keys().len(),
        projectiles.values()[row].moving(),
        hits.contains(projectiles.keys()[row]),
        0 <= health_row < healths.keys().len(),
        healths.keys()[health_row] == owner(
            parents,
            hits.lookup(projectiles.keys()[row])->Some_0.entity,
        ),
    ensures
        !pick(projectiles.keys(), strike_marks(projectiles, hits), false).contains(
            projectiles.keys()[row],
        ),
        struck_down(
            healths.keys(),
            healths.values(),
            impact_targets(
                pick(
                    strike_impacts(projectiles, hits, parents),
                    strike_marks(projectiles, hits),
                    true,
                ),
            ),
        )[health_row] == (Health {
            hit_points: 0,
            max_hit_points: healths.values()[health_row].max_hit_points,
        }),
        parents.lookup(hits.lookup(projectiles.keys()[row])->Some_0.entity) is Some
            ==> healths.keys()[health_row] == parents.lookup(
            hits.lookup(projectiles.keys()[row])->Some_0.entity,
        )->Some_0,
{
    let marks = strike_marks(projectiles, hits);
    let all = strike_impacts(projectiles, hits, parents);
    let made = pick(all, marks, true);
    lemma_pick_members(projectiles.keys(), marks, false);
    lemma_pick_members(all, marks, true);
    assert(made.contains(all[row]));
    let k = choose|k: int| 0 <= k < made.len() && made[k] == all[row];
    assert(impact_targets(made)[k] == healths.keys()[health_row]);
}

/// Health that is not the health of any target is left as it was.
pub proof fn lemma_others_keep_health(
    healths: Table<Health>,
    targets: Seq<Entity>,
    health_row: int,
)
    requires
        0 <= health_row < healths.values().len(),
        !targets.contains(healths.keys()[health_row]),
    ensures
        struck_down(healths.keys(), healths.values(), targets)[health_row]
            == healths.values()[health_row],
{
}

/// The shape with which a physics projectile collides, its sizes in
/// fixed-point steps.
#[derive(Clone, Copy, Debug, PartialEq, Eq, Structural)]
pub enum ColliderShape {
    /// The shape that the physics engine gives where none is asked for.
    Unset,
    Ball { radius: u64 },
    /// A capsule that stands along the vertical axis.
    CapsuleY { half_height: u64, radius: u64 },
}

/// How the physics engine treats a body.
#[derive(Clone, Copy, Debug, PartialEq, Eq, Structural)]
pub enum RigidBody {
    Dynamic,
}

/// What the physics engine is given for a physics projectile. The engine
/// owns and moves the body; the rules only see its collisions.
#[derive(Clone, Copy, Debug, PartialEq, Eq, Structural)]
pub struct PhysicsProjectileBundle {
    pub projectile: PhysicsProjectile,
    pub gravity_scale: i64,
    pub mass: i64,
    pub linear_damping: i64,
    pub angular_damping: i64,
    pub rigid_body: RigidBody,
    pub collider: ColliderShape,
    pub linear_velocity: Vec3,
    pub angular_velocity: Vec3,
}

impl PhysicsProjectileBundle {
    /// A body of mass one, under full gravity, damped by one along its way,
    /// at rest, with the shape `collider`.
    pub open spec fn resting(collider: ColliderShape) -> PhysicsProjectileBundle {
        PhysicsProjectileBundle {
            projectile: PhysicsProjectile {  },
            gravity_scale: SCALE,
            mass: SCALE,
            linear_damping: SCALE,
            angular_damping: 0,
            rigid_body: RigidBody::Dynamic,
            collider,
            linear_velocity: Vec3 { x: 0, y: 0, z: 0 },
            angular_velocity: Vec3 { x: 0, y: 0, z: 0 },
        }
    }

    /// A capsule of the given height between the centres of its caps, flying
    /// at `lin_vel`.
    pub fn capsule(height: u64, radius: u64, lin_vel: Vec3) -> (r: Self)
        ensures
            r == (PhysicsProjectileBundle {
                linear_velocity: lin_vel,
                ..PhysicsProjectileBundle::resting(
                    ColliderShape::CapsuleY { half_height: height / 2, radius },
                )
            }),
    {
        let base = PhysicsProjectileBundle::default();
        PhysicsProjectileBundle {
            collider: ColliderShape::CapsuleY { half_height: height / 2, radius },
            linear_velocity: lin_vel,
            ..base
        }
    }

    /// A ball flying at `lin_vel`.
    pub fn ball(radius: u64, lin_vel: Vec3) -> (r: Self)
        ensures
            r == (PhysicsProjectileBundle {
                linear_velocity: lin_vel,
                ..PhysicsProjectileBundle::resting(ColliderShape::Ball { radius })
            }),
    {
        let base = PhysicsProjectileBundle::default();
        PhysicsProjectileBundle {
            collider: ColliderShape::Ball { radius },
            linear_velocity: lin_vel,
            ..base
        }
    }
}

impl Default for PhysicsProjectileBundle {
    fn default() -> (r: Self)
        ensures
            r == PhysicsProjectileBundle::resting(ColliderShape::Unset),
    {
        PhysicsProjectileBundle {
            projectile: PhysicsProjectile {  },
            gravity_scale: SCALE,
            mass: SCALE,
            linear_damping: SCALE,
            angular_damping: 0,
            rigid_body: RigidBody::Dynamic,
            collider: ColliderShape::Unset,
            linear_velocity: Vec3 { x: 0, y: 0, z: 0 },
            angular_velocity: Vec3 { x: 0, y: 0, z: 0 },
        }
    }
}

/// Creates a physics projectile at `transform`, under a fresh entity, and
/// hands that entity back.
pub fn spawn_physics_projectile(
    projectiles: &mut Table<Projectile>,
    allocator: &mut EntityAllocator,
    transform: Transform,
) -> (entity: Entity)
    requires
        old(projectiles).wf(),
        old(projectiles).all_below(old(allocator).next),
        old(allocator).has_room(),
    ensures
        final(projectiles).wf(),
        final(projectiles).all_below(final(allocator).next),
        entity.id == old(allocator).next,
        final(allocator).next == old(allocator).next + 1,
        final(projectiles).keys() == old(projectiles).keys().push(entity),
        final(projectiles).values() == old(projectiles).values().push(
            Projectile { transform, kind: ProjectileKind::Physics(PhysicsProjectile {  }) },
        ),
{
    let entity = allocator.allocate();
    proof {
        if projectiles.contains(entity) {
            let i = projectiles.keys().index_of(entity);
            assert(projectiles.keys()[i].id < old(allocator).next);
        }
    }
    projectiles.push(
        entity,
        Projectile { transform, kind: ProjectileKind::Physics(PhysicsProjectile {  }) },
    );
    entity
}

} // verus!

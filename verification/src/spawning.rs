//! Spawn points that keep the world stocked with enemies, and requests to
//! take an entity with children out of the world.

use vstd::prelude::*;
use crate::combat::health::Health;
use crate::entity::{Entity, EntityAllocator};
use crate::fixed::Transform;
use crate::table::{lemma_pick_step, pick, Table};

verus! {

/// The hit points with which an enemy starts, in fixed-point steps.
pub const ENEMY_HIT_POINTS: i64 = 100_000_000;

/// Marks an enemy.
#[derive(Clone, Copy, Debug, PartialEq, Eq, Structural)]
pub struct EnemyTag {}

impl Default for EnemyTag {
    fn default() -> (r: Self) {
        EnemyTag {  }
    }
}

/// A spawn point that makes an enemy in every tick in which the world holds
/// fewer than `max_enemies`.
#[derive(Clone, Copy, Debug, PartialEq, Eq, Structural)]
pub struct EndlessEnemySpawner {
    pub max_enemies: usize,
}

impl Default for EndlessEnemySpawner {
    fn default() -> (r: Self)
        ensures
            r.max_enemies == 0,
    {
        EndlessEnemySpawner { max_enemies: 0 }
    }
}

/// A spawn point in the world.
#[derive(Clone, Copy, Debug, PartialEq, Eq, Structural)]
pub struct SpawnPoint {
    pub transform: Transform,
    pub spawner: EndlessEnemySpawner,
}

/// An enemy that was made: its entity and where it stands.
#[derive(Clone, Copy, Debug, PartialEq, Eq, Structural)]
pub struct SpawnedEnemy {
    pub entity: Entity,
    pub transform: Transform,
}

/// For each spawn point, whether it makes an enemy when the world holds
/// `enemy_count`.
pub open spec fn spawn_marks(points: Seq<SpawnPoint>, enemy_count: usize) -> Seq<bool> {
    Seq::new(points.len(), |i: int| enemy_count < points[i].spawner.max_enemies)
}

/// The places of the spawn points, in row order.
pub open spec fn spawn_places(points: Seq<SpawnPoint>) -> Seq<Transform> {
    Seq::new(points.len(), |i: int| points[i].transform)
}

/// The entities of the enemies made, in order.
pub open spec fn spawned_entities(spawned: Seq<SpawnedEnemy>) -> Seq<Entity> {
    Seq::new(spawned.len(), |k: int| spawned[k].entity)
}

/// Full enemy health, `count` times.
pub open spec fn full_healths(count: nat) -> Seq<Health> {
    Seq::new(
        count,
        |k: int| Health { hit_points: ENEMY_HIT_POINTS, max_hit_points: ENEMY_HIT_POINTS },
    )
}

/// Makes one enemy at every spawn point whose limit is above `enemy_count`,
/// the number of enemies at the start of the tick. Each enemy gets a fresh
/// entity and full health of [`ENEMY_HIT_POINTS`]. Hands back the enemies
/// made, in the order of their spawn points.
pub fn spawn_enemies_on_endless_spawner(
    enemy_count: usize,
    points: &Table<SpawnPoint>,
    healths: &mut Table<Health>,
    allocator: &mut EntityAllocator,
) -> (spawned: Vec<SpawnedEnemy>)
    requires
        points.wf(),
        old(healths).wf(),
        old(healths).all_below(old(allocator).next),
        old(allocator).next + points.keys().len() <= u64::MAX,
    ensures
        final(healths).wf(),
        final(healths).all_below(final(allocator).next),
        final(allocator).next == old(allocator).next + spawned@.len(),
        spawned@.len() == pick(
            spawn_places(points.values()),
            spawn_marks(points.values(), enemy_count),
            true,
        ).len(),
        forall|k: int|
            0 <= k < spawned@.len() ==> (#[trigger] spawned@[k]).entity.id == old(allocator).next
                + k && spawned@[k].transform == pick(
                spawn_places(points.values()),
                spawn_marks(points.values(), enemy_count),
                true,
            )[k],
        final(healths).keys() == old(healths).keys() + spawned_entities(spawned@),
        final(healths).values() == old(healths).values() + full_healths(spawned@.len()),
{
    let ghost places = spawn_places(points.values());
    let ghost marks = spawn_marks(points.values(), enemy_count);
    let ghost first = allocator.next;
    let mut spawned: Vec<SpawnedEnemy> = Vec::new();
    let total: usize = points.len();
    let mut i: usize = 0;
    while i < total
        invariant
            points.wf(),
            healths.wf(),
            total == points.values().len(),
            places == spawn_places(points.values()),
            marks == spawn_marks(points.values(), enemy_count),
            first == old(allocator).next,
            i <= total,
            first + total <= u64::MAX,
            spawned@.len() <= i,
            allocator.next == first + spawned@.len(),
            healths.all_below(allocator.next),
            spawned@.len() == pick(places.take(i as int), marks.take(i as int), true).len(),
            forall|k: int|
                0 <= k < spawned@.len() ==> (#[trigger] spawned@[k]).entity.id == first + k
                    && spawned@[k].transform == pick(
                    places.take(i as int),
                    marks.take(i as int),
                    true,
                )[k],
            healths.keys() == old(healths).keys() + spawned_entities(spawned@),
            healths.values() == old(healths).values() + full_healths(spawned@.len()),
        decreases total - i,
    {
        proof {
            lemma_pick_step(places, marks, true, i as int);
        }
        let point = *points.value_at(i);
        if enemy_count < point.spawner.max_enemies {
            let entity = allocator.allocate();
            proof {
                if healths.contains(entity) {
                    let w = healths.keys().index_of(entity);
                    assert(healths.keys()[w].id < entity.id);
                }
            }
            let ghost keys_before = healths.keys();
            let ghost values_before = healths.values();
            healths.push(entity, Health::full(ENEMY_HIT_POINTS));
            spawned.push(SpawnedEnemy { entity, transform: point.transform });
            proof {
                assert(healths.keys() =~= old(healths).keys() + spawned_entities(spawned@));
                assert(healths.values() =~= old(healths).values() + full_healths(
                    spawned@.len(),
                ));
                assert forall|w: int| 0 <= w < healths.keys().len() implies (
                #[trigger] healths.keys()[w]).id < allocator.next by {
                    if w < keys_before.len() {
                        assert(keys_before[w].id < entity.id);
                    }
                }
            }
        }
        i = i + 1;
    }
    proof {
        assert(places.take(total as int) =~= places);
        assert(marks.take(total as int) =~= marks);
    }
    spawned
}

/// A request to take an entity out of the world: with all that hangs below
/// it, or else only by letting its children go.
#[derive(Clone, Copy, Debug, PartialEq, Eq, Structural)]
pub struct Despawn {
    pub recursive: bool,
}

impl Default for Despawn {
    fn default() -> (r: Self)
        ensures
            !r.recursive,
    {
        Despawn { recursive: false }
    }
}

/// For each request, whether its entity is to leave with all that hangs
/// below it: the request is recursive and the entity has a child.
pub open spec fn doomed_marks(requests: Table<Despawn>, parents: Table<Entity>) -> Seq<bool> {
    Seq::new(
        requests.keys().len(),
        |i: int| requests.values()[i].recursive && parents.values().contains(requests.keys()[i]),
    )
}

/// For each child, whether it is let go: its parent has a request that is
/// not recursive.
pub open spec fn released_marks(requests: Table<Despawn>, parents: Table<Entity>) -> Seq<bool> {
    Seq::new(
        parents.keys().len(),
        |j: int| requests.lookup(parents.values()[j]) == Some(Despawn { recursive: false }),
    )
}

/// Works through the requests of the entities that have children. A
/// recursive request hands its entity back, for the caller to remove with
/// all that hangs below it; any other lets the children of its entity go,
/// which then have no parent. A request on an entity without children does
/// nothing.
pub fn despawn(requests: &Table<Despawn>, parents: &mut Table<Entity>) -> (doomed: Vec<Entity>)
    requires
        requests.wf(),
        old(parents).wf(),
    ensures
        final(parents).wf(),
        doomed@ == pick(requests.keys(), doomed_marks(*requests, *old(parents)), true),
        final(parents).keys() == pick(
            old(parents).keys(),
            released_marks(*requests, *old(parents)),
            false,
        ),
        final(parents).values() == pick(
            old(parents).values(),
            released_marks(*requests, *old(parents)),
            false,
        ),
{
    let ghost all_doomed = doomed_marks(*requests, *parents);
    let mut doomed: Vec<Entity> = Vec::new();
    let total: usize = requests.len();
    let children: usize = parents.len();
    let mut i: usize = 0;
    while i < total
        invariant
            requests.wf(),
            parents.wf(),
            *parents == *old(parents),
            total == requests.keys().len(),
            children == parents.values().len(),
            all_doomed == doomed_marks(*requests, *parents),
            i <= total,
            doomed@ == pick(requests.keys().take(i as int), all_doomed.take(i as int), true),
        decreases total - i,
    {
        proof {
            lemma_pick_step(requests.keys(), all_doomed, true, i as int);
        }
        let entity = requests.key_at(i);
        if requests.value_at(i).recursive {
            let mut has_child = false;
            let mut j: usize = 0;
            while j < children
                invariant
                    parents.wf(),
                    children == parents.values().len(),
                    j <= children,
                    has_child == exists|w: int| 0 <= w < j && parents.values()[w] == entity,
                decreases children - j,
            {
                if *parents.value_at(j) == entity {
                    has_child = true;
                }
                j = j + 1;
            }
            if has_child {
                doomed.push(entity);
            }
        }
        i = i + 1;
    }
    let mut released: Vec<bool> = Vec::new();
    let mut j: usize = 0;
    while j < children
        invariant
            requests.wf(),
            parents.wf(),
            *parents == *old(parents),
            children == parents.values().len(),
            j <= children,
            released@.len() == j,
            forall|w: int|
                0 <= w < j ==> released@[w] == (requests.lookup(parents.values()[w]) == Some(
                    Despawn { recursive: false },
                )),
        decreases children - j,
    {
        let let_go = match requests.get(*parents.value_at(j)) {
            Some(request) => !request.recursive,
            None => false,
        };
        released.push(let_go);
        j = j + 1;
    }
    proof {
        assert(requests.keys().take(total as int) =~= requests.keys());
        assert(all_doomed.take(total as int) =~= all_doomed);
        assert(released@ =~= released_marks(*requests, *parents));
    }
    let _let_go = parents.remove_marked(&released);
    doomed
}

} // verus!

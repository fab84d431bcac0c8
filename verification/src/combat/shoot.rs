//! The shooting controller: the delay between two shots of an actor, the
//! shots that go in a tick, and what a shot brings into the world.

use vstd::prelude::*;
use rand::Rng;
use crate::combat::projectile::{spawn_projectile, Projectile, ProjectileKind, TracingProjectile};
use crate::entity::{Entity, EntityAllocator};
use crate::fixed::{Transform, Vec3, V3};
use crate::spatial_audio::{
    AudioEmitter,
    AudioEmitterHandle,
    AudioEmitterView,
    AudioInstances,
    AudioTween,
    DisposableAudioEmitter,
    InstanceSetup,
    SourceRef,
};
use crate::table::{lemma_pick_step, pick, Table};

verus! {

/// How far in front of the view a projectile appears, in whole units.
pub const SPAWN_FORWARD_ADJUST: u32 = 2;

/// The speed of a fresh projectile, in whole units per second.
pub const PROJECTILE_STARTING_SPEED: u32 = 10;

/// The shooting state of one actor. The delay is the cooldown between two
/// shots, both of its fields in microseconds.
#[derive(Clone, Copy, Debug, PartialEq, Eq, Structural)]
pub struct Shooting {
    /// Was a shot requested?
    pub requested: bool,
    pub shoot_delay_enabled: bool,
    pub shoot_delay_length: u64,
    pub shoot_delay_time: u64,
}

impl Default for Shooting {
    fn default() -> (r: Self)
        ensures
            r == (Shooting {
                requested: false,
                shoot_delay_enabled: false,
                shoot_delay_length: 0,
                shoot_delay_time: 0,
            }),
            r.wf(),
    {
        Shooting {
            requested: false,
            shoot_delay_enabled: false,
            shoot_delay_length: 0,
            shoot_delay_time: 0,
        }
    }
}

impl Shooting {
    /// While the delay runs, the time spent in it is within its length;
    /// while it does not, no time is counted.
    pub open spec fn wf(&self) -> bool {
        &&& self.shoot_delay_enabled ==> self.shoot_delay_time <= self.shoot_delay_length
        &&& !self.shoot_delay_enabled ==> self.shoot_delay_time == 0
    }

    /// Whether a running delay ends within the next `dt` microseconds.
    pub open spec fn delay_ends(&self, dt: u64) -> bool {
        self.shoot_delay_time + dt >= self.shoot_delay_length
    }

    /// The state after the delay has been advanced by `dt` microseconds.
    pub open spec fn cooled(&self, dt: u64) -> Shooting {
        if !self.shoot_delay_enabled {
            *self
        } else if self.delay_ends(dt) {
            Shooting { shoot_delay_enabled: false, shoot_delay_time: 0, ..*self }
        } else {
            Shooting { shoot_delay_time: (self.shoot_delay_time + dt) as u64, ..*self }
        }
    }

    /// Whether a tick of `dt` microseconds lets a shot go: one was requested
    /// and no delay runs once the time has been counted.
    pub open spec fn fires(&self, dt: u64) -> bool {
        self.requested && !self.cooled(dt).shoot_delay_enabled
    }

    /// The state after a tick of `dt` microseconds. A request is used up
    /// whether or not it lets a shot go, and a shot starts the delay.
    pub open spec fn after_tick(&self, dt: u64) -> Shooting {
        if self.fires(dt) {
            Shooting { requested: false, shoot_delay_enabled: true, ..self.cooled(dt) }
        } else {
            Shooting { requested: false, ..self.cooled(dt) }
        }
    }

    /// Asks for a shot at the next tick.
    pub fn request(&mut self)
        ensures
            *final(self) == (Shooting { requested: true, ..*old(self) }),
    {
        self.requested = true;
    }

    /// Runs one tick of `dt` microseconds and says whether a shot goes.
    pub fn tick(&mut self, dt: u64) -> (fired: bool)
        ensures
            *final(self) == old(self).after_tick(dt),
            fired == old(self).fires(dt),
            old(self).wf() ==> final(self).wf(),
    {
        if self.shoot_delay_enabled {
            let reached: u128 = self.shoot_delay_time as u128 + dt as u128;
            if reached >= self.shoot_delay_length as u128 {
                self.shoot_delay_enabled = false;
                self.shoot_delay_time = 0;
            } else {
                self.shoot_delay_time = reached as u64;
            }
        }
        if self.requested && !self.shoot_delay_enabled {
            self.requested = false;
            self.shoot_delay_enabled = true;
            true
        } else {
            self.requested = false;
            false
        }
    }
}

/// One tick as an actor sees it: whether a shot is requested before it, and
/// its length in microseconds.
pub ghost struct TickInput {
    pub pressed: bool,
    pub dt: u64,
}

/// The time that `ticks` take together, in microseconds.
pub open spec fn total_time(ticks: Seq<TickInput>) -> nat
    decreases ticks.len(),
{
    if ticks.len() == 0 {
        0
    } else {
        ticks[0].dt as nat + total_time(ticks.skip(1))
    }
}

/// The state of an actor once a request, if one is made, has been recorded.
pub open spec fn pressed(state: Shooting, input: TickInput) -> Shooting {
    Shooting { requested: state.requested || input.pressed, ..state }
}

/// The number of shots that go during `ticks`, starting from `state`.
pub open spec fn shots_during(state: Shooting, ticks: Seq<TickInput>) -> nat
    decreases ticks.len(),
{
    if ticks.len() == 0 {
        0
    } else {
        let asked = pressed(state, ticks[0]);
        let now: nat = if asked.fires(ticks[0].dt) { 1 } else { 0 };
        now + shots_during(asked.after_tick(ticks[0].dt), ticks.skip(1))
    }
}

/// A request made while the delay runs, and still runs once the tick's time
/// has been counted, lets no shot go and is not kept for later.
pub proof fn lemma_denied_request_is_dropped(state: Shooting, dt: u64)
    requires
        state.shoot_delay_enabled,
        !state.delay_ends(dt),
    ensures
        !state.fires(dt),
        !state.after_tick(dt).requested,
        state.after_tick(dt).shoot_delay_enabled,
        state.after_tick(dt).shoot_delay_time == state.shoot_delay_time + dt,
        state.after_tick(dt).shoot_delay_length == state.shoot_delay_length,
{
}

/// While the delay runs, no shot goes, however many are requested: as long
/// as the ticks together do not fill what is left of the delay, the number
/// of shots is zero.
pub proof fn lemma_no_shot_while_delayed(state: Shooting, ticks: Seq<TickInput>)
    requires
        state.shoot_delay_enabled,
        state.shoot_delay_time + total_time(ticks) < state.shoot_delay_length,
    ensures
        shots_during(state, ticks) == 0,
    decreases ticks.len(),
{
    if ticks.len() > 0 {
        let asked = pressed(state, ticks[0]);
        lemma_denied_request_is_dropped(asked, ticks[0].dt);
        lemma_no_shot_while_delayed(asked.after_tick(ticks[0].dt), ticks.skip(1));
    }
}

/// After a shot has gone, no other goes until the delay's length has passed:
/// over ticks that together take less than the delay, the number of shots is
/// zero.
pub proof fn lemma_delay_follows_shot(state: Shooting, dt: u64, ticks: Seq<TickInput>)
    requires
        state.wf(),
        state.fires(dt),
        total_time(ticks) < state.shoot_delay_length,
    ensures
        state.after_tick(dt).shoot_delay_enabled,
        state.after_tick(dt).shoot_delay_time == 0,
        shots_during(state.after_tick(dt), ticks) == 0,
{
    lemma_no_shot_while_delayed(state.after_tick(dt), ticks);
}

/// The view from which shots are fired: where it stands, how it is turned,
/// and the direction it looks in, as a vector of length one.
#[derive(Clone, Copy, Debug, PartialEq, Eq, Structural)]
pub struct CameraView {
    pub transform: Transform,
    pub forward: Vec3,
}

/// What the motion engine needs to create a projectile.
#[derive(Clone, Copy, Debug, PartialEq, Eq, Structural)]
pub struct SpawnRequest {
    pub transform: Transform,
    pub velocity: Vec3,
}

impl CameraView {
    /// Where a projectile fired from this view appears.
    pub open spec fn muzzle(&self) -> V3 {
        self.transform.translation@.plus(self.forward@.times(SPAWN_FORWARD_ADJUST as int))
    }

    /// The velocity of a projectile fired from this view.
    pub open spec fn muzzle_velocity(&self) -> V3 {
        self.forward@.times(PROJECTILE_STARTING_SPEED as int)
    }

    /// Whether the spawn point and the velocity can be held.
    pub open spec fn can_spawn(&self) -> bool {
        self.muzzle().fits() && self.muzzle_velocity().fits()
    }

    /// Whether `request` is the spawn request of this view: in front of the
    /// view by the forward offset, turned as the view is, and flying forward
    /// at the starting speed.
    pub open spec fn spawns(&self, request: SpawnRequest) -> bool {
        &&& request.transform.translation@ == self.muzzle()
        &&& request.transform.rotation == self.transform.rotation
        &&& request.velocity@ == self.muzzle_velocity()
    }

    /// The spawn request of this view, where it can be held.
    pub fn spawn_request(&self) -> (r: Option<SpawnRequest>)
        ensures
            r is Some <==> self.can_spawn(),
            r is Some ==> self.spawns(r->Some_0),
    {
        let origin = Vec3::zero();
        let translation = self.transform.translation.checked_offset(
            &self.forward,
            SPAWN_FORWARD_ADJUST,
        );
        let velocity = origin.checked_offset(&self.forward, PROJECTILE_STARTING_SPEED);
        match (translation, velocity) {
            (Some(translation), Some(velocity)) => Some(
                SpawnRequest {
                    transform: Transform { translation, rotation: self.transform.rotation },
                    velocity,
                },
            ),
            _ => None,
        }
    }
}

/// The sounds of a shot, one of which is played for each shot.
#[derive(Clone, Copy, Debug, PartialEq, Eq, Structural)]
pub enum ShotCue {
    RifleShot1,
    RifleShot2,
    RifleShot4,
    RifleShot5,
}

impl ShotCue {
    /// The sound that belongs to a drawn number.
    pub open spec fn of_index(index: u32) -> ShotCue {
        if index == 1 {
            ShotCue::RifleShot2
        } else if index == 2 {
            ShotCue::RifleShot4
        } else if index == 3 {
            ShotCue::RifleShot5
        } else {
            ShotCue::RifleShot1
        }
    }

    /// The sound that belongs to a drawn number.
    pub fn from_index(index: u32) -> (cue: ShotCue)
        ensures
            cue == ShotCue::of_index(index),
    {
        match index {
            1 => ShotCue::RifleShot2,
            2 => ShotCue::RifleShot4,
            3 => ShotCue::RifleShot5,
            _ => ShotCue::RifleShot1,
        }
    }
}

/// Draws the number of a shot sound with `rand::Rng::gen_range` on the range
/// `0..4`, from the generator that `rand::thread_rng` hands out. Nothing of
/// this is proved. All that is claimed of the number is that it lies in the
/// range, as `gen_range` documents; which number comes is left open. The
/// range is not empty, so `gen_range` does not panic on it.
#[verifier::external_body]
fn draw_shot_index() -> (index: u32)
    ensures
        index < 4,
{
    rand::thread_rng().gen_range(0..4)
}

/// One shot that went: who fired it, the projectile to create and the sound
/// to play.
#[derive(Clone, Copy, Debug, PartialEq, Eq, Structural)]
pub struct ShotFired {
    pub shooter: Entity,
    pub spawn: SpawnRequest,
    pub cue: ShotCue,
}

/// The shot of `shooter` for a drawn number.
pub fn shot_for_draw(shooter: Entity, spawn: SpawnRequest, index: u32) -> (shot: ShotFired)
    ensures
        shot == (ShotFired { shooter, spawn, cue: ShotCue::of_index(index) }),
{
    ShotFired { shooter, spawn, cue: ShotCue::from_index(index) }
}

/// For each actor, whether a tick of `dt` microseconds lets its shot go.
pub open spec fn fire_marks(values: Seq<Shooting>, dt: u64) -> Seq<bool> {
    Seq::new(values.len(), |i: int| values[i].fires(dt))
}

/// Every actor's state after a tick of `dt` microseconds.
pub open spec fn ticked(values: Seq<Shooting>, dt: u64) -> Seq<Shooting> {
    Seq::new(values.len(), |i: int| values[i].after_tick(dt))
}

/// The actors whose shots go in a tick of `dt` microseconds, in row order.
pub open spec fn firing(shooters: Table<Shooting>, dt: u64) -> Seq<Entity> {
    pick(shooters.keys(), fire_marks(shooters.values(), dt), true)
}

/// Runs the tick for every actor. The number of each shot's sound is taken
/// from `draws`, the first for the first shot, or drawn at random where
/// there are none.
fn tick_shooters(
    shooters: &mut Table<Shooting>,
    view: &CameraView,
    dt: u64,
    draws: Option<&Vec<u32>>,
) -> (shots: Vec<ShotFired>)
    requires
        old(shooters).wf(),
        view.can_spawn(),
        draws is Some ==> draws->Some_0@.len() >= old(shooters).keys().len(),
    ensures
        final(shooters).wf(),
        final(shooters).keys() == old(shooters).keys(),
        final(shooters).values() == ticked(old(shooters).values(), dt),
        shots@.len() == firing(*old(shooters), dt).len(),
        forall|k: int|
            0 <= k < shots@.len() ==> (#[trigger] shots@[k]).shooter == firing(
                *old(shooters),
                dt,
            )[k] && view.spawns(shots@[k].spawn),
        draws is Some ==> forall|k: int|
            0 <= k < shots@.len() ==> (#[trigger] shots@[k]).cue == ShotCue::of_index(
                draws->Some_0@[k],
            ),
{
    let mut shots: Vec<ShotFired> = Vec::new();
    let spawn = view.spawn_request().unwrap();
    let ghost keys0 = shooters.keys();
    let ghost values0 = shooters.values();
    let total: usize = shooters.len();
    let mut i: usize = 0;
    while i < total
        invariant
            shooters.wf(),
            shooters.keys() == keys0,
            keys0.len() == values0.len() == total,
            i <= total,
            view.spawns(spawn),
            shooters.values().len() == total,
            draws is Some ==> draws->Some_0@.len() >= total,
            forall|j: int| 0 <= j < i ==> shooters.values()[j] == values0[j].after_tick(dt),
            forall|j: int| i <= j < total ==> shooters.values()[j] == values0[j],
            shots@.len() <= i,
            shots@.len() == pick(
                keys0.take(i as int),
                fire_marks(values0, dt).take(i as int),
                true,
            ).len(),
            forall|k: int|
                0 <= k < shots@.len() ==> (#[trigger] shots@[k]).shooter == pick(
                    keys0.take(i as int),
                    fire_marks(values0, dt).take(i as int),
                    true,
                )[k] && shots@[k].spawn == spawn,
            draws is Some ==> forall|k: int|
                0 <= k < shots@.len() ==> (#[trigger] shots@[k]).cue == ShotCue::of_index(
                    draws->Some_0@[k],
                ),
        decreases total - i,
    {
        proof {
            lemma_pick_step(keys0, fire_marks(values0, dt), true, i as int);
        }
        let mut state = *shooters.value_at(i);
        let fired = state.tick(dt);
        let _previous = shooters.replace_at(i, state);
        if fired {
            let index = match draws {
                Some(given) => given[shots.len()],
                None => draw_shot_index(),
            };
            shots.push(shot_for_draw(shooters.key_at(i), spawn, index));
        }
        i = i + 1;
    }
    proof {
        assert(keys0.take(total as int) =~= keys0);
        assert(fire_marks(values0, dt).take(total as int) =~= fire_marks(values0, dt));
        assert(shooters.values() =~= ticked(values0, dt));
    }
    shots
}

/// Runs one tick of `dt` microseconds for every shooting actor and hands
/// back the shots that went, in row order. Without a view nothing happens:
/// no delay is advanced and no request is used up. The sound of each shot is
/// drawn at random among the four.
pub fn apply_shooting(shooters: &mut Table<Shooting>, camera: Option<&CameraView>, dt: u64) -> (shots:
    Vec<ShotFired>)
    requires
        old(shooters).wf(),
        camera is Some ==> camera->Some_0.can_spawn(),
    ensures
        final(shooters).wf(),
        final(shooters).keys() == old(shooters).keys(),
        camera is None ==> final(shooters).values() == old(shooters).values() && shots@.len() == 0,
        camera is Some ==> final(shooters).values() == ticked(old(shooters).values(), dt),
        camera is Some ==> shots@.len() == firing(*old(shooters), dt).len(),
        camera is Some ==> forall|k: int|
            0 <= k < shots@.len() ==> (#[trigger] shots@[k]).shooter == firing(
                *old(shooters),
                dt,
            )[k] && camera->Some_0.spawns(shots@[k].spawn),
{
    match camera {
        Some(view) => tick_shooters(shooters, view, dt, None),
        None => Vec::new(),
    }
}

/// As [`apply_shooting`], with the numbers of the shots' sounds given: the
/// first shot that goes takes the first of `draws`, and so on. There must be
/// a number for every actor.
pub fn apply_shooting_with_draws(
    shooters: &mut Table<Shooting>,
    camera: Option<&CameraView>,
    dt: u64,
    draws: &Vec<u32>,
) -> (shots: Vec<ShotFired>)
    requires
        old(shooters).wf(),
        camera is Some ==> camera->Some_0.can_spawn(),
        draws@.len() >= old(shooters).keys().len(),
    ensures
        final(shooters).wf(),
        final(shooters).keys() == old(shooters).keys(),
        camera is None ==> final(shooters).values() == old(shooters).values() && shots@.len() == 0,
        camera is Some ==> final(shooters).values() == ticked(old(shooters).values(), dt),
        camera is Some ==> shots@.len() == firing(*old(shooters), dt).len(),
        camera is Some ==> forall|k: int|
            0 <= k < shots@.len() ==> (#[trigger] shots@[k]).shooter == firing(
                *old(shooters),
                dt,
            )[k] && camera->Some_0.spawns(shots@[k].spawn) && shots@[k].cue == ShotCue::of_index(
                draws@[k],
            ),
{
    match camera {
        Some(view) => tick_shooters(shooters, view, dt, Some(draws)),
        None => Vec::new(),
    }
}

/// A tick keeps the delay of an actor in order.
pub proof fn lemma_tick_keeps_delay_in_order(state: Shooting, dt: u64)
    requires
        state.wf(),
    ensures
        state.after_tick(dt).wf(),
{
}

/// The volume at which a shot is heard, in fixed-point steps.
pub const SHOT_VOLUME: i64 = 600_000;

/// The sources of the four shot sounds.
#[derive(Clone, Copy, Debug, PartialEq, Eq, Structural)]
pub struct ShotSounds {
    pub rifle_shot_1: SourceRef,
    pub rifle_shot_2: SourceRef,
    pub rifle_shot_4: SourceRef,
    pub rifle_shot_5: SourceRef,
}

impl ShotSounds {
    /// The source of a shot sound.
    pub open spec fn source_of(&self, cue: ShotCue) -> SourceRef {
        match cue {
            ShotCue::RifleShot1 => self.rifle_shot_1,
            ShotCue::RifleShot2 => self.rifle_shot_2,
            ShotCue::RifleShot4 => self.rifle_shot_4,
            ShotCue::RifleShot5 => self.rifle_shot_5,
        }
    }

    /// The source of a shot sound.
    pub fn source(&self, cue: ShotCue) -> (r: SourceRef)
        ensures
            r == self.source_of(cue),
    {
        match cue {
            ShotCue::RifleShot1 => self.rifle_shot_1,
            ShotCue::RifleShot2 => self.rifle_shot_2,
            ShotCue::RifleShot4 => self.rifle_shot_4,
            ShotCue::RifleShot5 => self.rifle_shot_5,
        }
    }
}

/// How the sound of a shot is played: once, at [`SHOT_VOLUME`].
pub open spec fn shot_setup() -> InstanceSetup {
    InstanceSetup { looped: false, volume: SHOT_VOLUME }
}

/// Brings a shot into the world: its projectile, under a fresh entity, and
/// the sound of the shot, played by a disposable emitter at the same place
/// under the next fresh entity. Hands back the two entities.
pub fn carry_out_shot(
    shot: &ShotFired,
    sounds: &ShotSounds,
    projectiles: &mut Table<Projectile>,
    emitters: &mut Table<AudioEmitter>,
    instances: &mut AudioInstances,
    allocator: &mut EntityAllocator,
) -> (spawned: (Entity, Entity))
    requires
        old(projectiles).wf(),
        old(emitters).wf(),
        old(projectiles).all_below(old(allocator).next),
        old(emitters).all_below(old(allocator).next),
        old(allocator).next + 2 <= u64::MAX,
    ensures
        final(projectiles).wf(),
        final(emitters).wf(),
        final(allocator).next == old(allocator).next + 2,
        final(projectiles).all_below(final(allocator).next),
        final(emitters).all_below(final(allocator).next),
        spawned.0.id == old(allocator).next,
        spawned.1.id == old(allocator).next + 1,
        final(projectiles).keys() == old(projectiles).keys().push(spawned.0),
        final(projectiles).values() == old(projectiles).values().push(
            Projectile {
                transform: shot.spawn.transform,
                kind: ProjectileKind::Tracing(TracingProjectile { velocity: shot.spawn.velocity }),
            },
        ),
        final(instances)@ == old(instances)@.created(
            sounds.source_of(shot.cue),
            shot_setup(),
            AudioTween { duration: 10_000 },
        ),
        final(emitters).keys() == old(emitters).keys().push(spawned.1),
        final(emitters).values().drop_last() == old(emitters).values(),
        final(emitters).values().last()@ == (AudioEmitterView {
            position: shot.spawn.transform.translation,
            handle: AudioEmitterHandle { instance: Some(old(instances)@.next_ref()) },
            disposable: Some(DisposableAudioEmitter {  }),
            looping: None,
        }),
{
    let projectile = spawn_projectile(projectiles, allocator, &shot.spawn);
    let instance = instances.create(
        sounds.source(shot.cue),
        InstanceSetup { looped: false, volume: SHOT_VOLUME },
        AudioTween::default(),
    );
    let emitter = allocator.allocate();
    proof {
        if emitters.contains(emitter) {
            let w = emitters.keys().index_of(emitter);
            assert(emitters.keys()[w].id < old(allocator).next);
        }
    }
    emitters.push(emitter, AudioEmitter::disposable(instance, shot.spawn.transform.translation));
    proof {
        assert(emitters.values().drop_last() =~= old(emitters).values());
        assert forall|w: int| 0 <= w < projectiles.keys().len() implies (
        #[trigger] projectiles.keys()[w]).id < allocator.next by {}
        assert forall|w: int| 0 <= w < emitters.keys().len() implies (
        #[trigger] emitters.keys()[w]).id < allocator.next by {
            if w < emitters.keys().len() - 1 {
                assert(emitters.keys()[w] == old(emitters).keys()[w]);
            }
        }
    }
    (projectile, emitter)
}

} // verus!

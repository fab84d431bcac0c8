//! Particle effects: the registered templates, the instances in the world,
//! and when an instance is switched on, switched off and removed.

use vstd::prelude::*;
use crate::entity::Entity;
use crate::fixed::Transform;
use crate::table::{pick, Table};

verus! {

/// How long the effect of an impact lasts, in microseconds.
pub const IMPACT_EFFECT_LENGTH: u64 = 3_000_000;

/// A reference to an effect template that the renderer holds.
#[derive(Clone, Copy, Debug, PartialEq, Eq, Structural, Hash)]
pub struct EffectTemplate {
    pub id: u64,
}

/// The templates that gameplay asks for by name. They are registered once,
/// when the effects are set up, and not changed afterwards.
#[derive(Clone, Copy, Debug, PartialEq, Eq, Structural)]
pub struct ParticleEffects {
    pub firework: Option<EffectTemplate>,
}

impl Default for ParticleEffects {
    fn default() -> (r: Self)
        ensures
            r.firework is None,
    {
        ParticleEffects { firework: None }
    }
}

/// Marks the effect that trails a sprinting actor.
#[derive(Clone, Copy, Debug, PartialEq, Eq, Structural, Default)]
pub struct SprintingParticle;

/// The lifetime of an effect that plays once, in microseconds.
#[derive(Clone, Copy, Debug, PartialEq, Eq, Structural)]
pub struct TimedParticle {
    pub length: u64,
    pub time_played: u64,
    pub destroy_on_completion: bool,
}

impl Default for TimedParticle {
    fn default() -> (r: Self)
        ensures
            r == (TimedParticle { length: 0, time_played: 0, destroy_on_completion: false }),
    {
        TimedParticle { length: 0, time_played: 0, destroy_on_completion: false }
    }
}

impl TimedParticle {
    /// Whether another `dt` microseconds can be counted.
    pub open spec fn can_accumulate(&self, dt: u64) -> bool {
        self.time_played + dt <= u64::MAX
    }

    /// Whether the lifetime is reached once another `dt` microseconds have
    /// been counted.
    pub open spec fn completes(&self, dt: u64) -> bool {
        self.time_played + dt >= self.length
    }

    /// The lifetime after another `dt` microseconds.
    pub open spec fn after(&self, dt: u64) -> TimedParticle {
        TimedParticle { time_played: (self.time_played + dt) as u64, ..*self }
    }

    /// Executable form of [`Self::can_accumulate`].
    pub fn has_room(&self, dt: u64) -> (r: bool)
        ensures
            r == self.can_accumulate(dt),
    {
        dt <= u64::MAX - self.time_played
    }
}

/// One effect instance in the world: the template it was made from, where it
/// is, whether it emits, its lifetime if it plays once, and the sprinting
/// mark if it trails an actor.
#[derive(Clone, Copy, Debug, PartialEq, Eq, Structural)]
pub struct ParticleEffect {
    pub template: EffectTemplate,
    pub transform: Transform,
    pub active: bool,
    pub timed: Option<TimedParticle>,
    pub sprinting: Option<SprintingParticle>,
}

impl ParticleEffect {
    /// The effect of an impact: it plays once at `transform`, for
    /// [`IMPACT_EFFECT_LENGTH`], and is removed when it is over.
    pub open spec fn impact_at(template: EffectTemplate, transform: Transform) -> ParticleEffect {
        ParticleEffect {
            template,
            transform,
            active: true,
            timed: Some(
                TimedParticle {
                    length: IMPACT_EFFECT_LENGTH,
                    time_played: 0,
                    destroy_on_completion: true,
                },
            ),
            sprinting: None,
        }
    }

    /// Executable form of [`Self::impact_at`].
    pub fn impact(template: EffectTemplate, transform: Transform) -> (r: ParticleEffect)
        ensures
            r == ParticleEffect::impact_at(template, transform),
    {
        ParticleEffect {
            template,
            transform,
            active: true,
            timed: Some(
                TimedParticle {
                    length: IMPACT_EFFECT_LENGTH,
                    time_played: 0,
                    destroy_on_completion: true,
                },
            ),
            sprinting: None,
        }
    }

    /// Whether another `dt` microseconds can be counted on this effect.
    pub open spec fn can_accumulate(&self, dt: u64) -> bool {
        self.timed is Some ==> self.timed->Some_0.can_accumulate(dt)
    }

    /// Whether the effect is over and to be removed once another `dt`
    /// microseconds have been counted.
    pub open spec fn expires(&self, dt: u64) -> bool {
        &&& self.timed is Some
        &&& self.timed->Some_0.completes(dt)
        &&& self.timed->Some_0.destroy_on_completion
    }

    /// The effect after another `dt` microseconds: a timed one has counted
    /// them and, once its lifetime is reached, emits no more.
    pub open spec fn after(&self, dt: u64) -> ParticleEffect {
        match self.timed {
            Some(timed) => ParticleEffect {
                timed: Some(timed.after(dt)),
                active: if timed.completes(dt) {
                    false
                } else {
                    self.active
                },
                ..*self
            },
            None => *self,
        }
    }

    /// Counts another `dt` microseconds and says whether the effect is to be
    /// removed.
    pub fn tick(&mut self, dt: u64) -> (expired: bool)
        requires
            old(self).can_accumulate(dt),
        ensures
            *final(self) == old(self).after(dt),
            expired == old(self).expires(dt),
    {
        match self.timed {
            Some(timed) => {
                let time_played: u64 = timed.time_played + dt;
                self.timed = Some(TimedParticle { time_played, ..timed });
                if time_played >= timed.length {
                    self.active = false;
                    timed.destroy_on_completion
                } else {
                    false
                }
            },
            None => false,
        }
    }
}

/// A timed effect that is removed on completion goes in the very tick in
/// which the time played reaches its length, and in none before: until then
/// it only counts the time.
pub proof fn lemma_effect_goes_when_length_is_reached(effect: ParticleEffect, dt: u64)
    requires
        effect.timed is Some,
        effect.timed->Some_0.destroy_on_completion,
        effect.can_accumulate(dt),
    ensures
        effect.expires(dt) <==> effect.timed->Some_0.time_played + dt
            >= effect.timed->Some_0.length,
        !effect.expires(dt) ==> effect.after(dt) == (ParticleEffect {
            timed: Some(
                TimedParticle {
                    time_played: (effect.timed->Some_0.time_played + dt) as u64,
                    ..effect.timed->Some_0
                },
            ),
            ..effect
        }),
{
}

/// For each effect, whether it is over and to be removed after `dt`
/// microseconds.
pub open spec fn expiry_marks(values: Seq<ParticleEffect>, dt: u64) -> Seq<bool> {
    Seq::new(values.len(), |i: int| values[i].expires(dt))
}

/// Every effect after another `dt` microseconds.
pub open spec fn aged(values: Seq<ParticleEffect>, dt: u64) -> Seq<ParticleEffect> {
    Seq::new(values.len(), |i: int| values[i].after(dt))
}

/// Whether another `dt` microseconds can be counted on every effect.
pub open spec fn all_can_accumulate(effects: Table<ParticleEffect>, dt: u64) -> bool {
    forall|i: int|
        0 <= i < effects.values().len() ==> (#[trigger] effects.values()[i]).can_accumulate(dt)
}

/// Executable form of [`all_can_accumulate`].
pub fn can_handle_timed_particles(effects: &Table<ParticleEffect>, dt: u64) -> (r: bool)
    requires
        effects.wf(),
    ensures
        r == all_can_accumulate(*effects, dt),
{
    let total: usize = effects.len();
    let mut i: usize = 0;
    while i < total
        invariant
            effects.wf(),
            total == effects.values().len(),
            i <= total,
            forall|j: int| 0 <= j < i ==> (#[trigger] effects.values()[j]).can_accumulate(dt),
        decreases total - i,
    {
        let effect = effects.value_at(i);
        let fine = match effect.timed {
            Some(timed) => timed.has_room(dt),
            None => true,
        };
        if !fine {
            return false;
        }
        i = i + 1;
    }
    true
}

/// Counts `dt` microseconds on every timed effect. One that reaches its
/// lifetime in this tick stops emitting, and is removed if it is marked so;
/// none is removed before. Hands back the removed entities in row order.
pub fn handle_timed_particles(effects: &mut Table<ParticleEffect>, dt: u64) -> (removed: Vec<Entity>)
    requires
        old(effects).wf(),
        all_can_accumulate(*old(effects), dt),
    ensures
        final(effects).wf(),
        final(effects).keys() == pick(
            old(effects).keys(),
            expiry_marks(old(effects).values(), dt),
            false,
        ),
        final(effects).values() == pick(
            aged(old(effects).values(), dt),
            expiry_marks(old(effects).values(), dt),
            false,
        ),
        removed@ == pick(old(effects).keys(), expiry_marks(old(effects).values(), dt), true),
        removed@.no_duplicates(),
        forall|i: int|
            0 <= i < old(effects).keys().len() ==> (old(effects).values()[i].expires(dt)
                <==> removed@.contains(#[trigger] old(effects).keys()[i])),
        forall|i: int|
            0 <= i < old(effects).keys().len() ==> #[trigger] final(effects).lookup(
                old(effects).keys()[i],
            ) == if old(effects).values()[i].expires(dt) {
                None
            } else {
                Some(old(effects).values()[i].after(dt))
            },
{
    let ghost keys0 = effects.keys();
    let ghost values0 = effects.values();
    let mut marks: Vec<bool> = Vec::new();
    let total: usize = effects.len();
    let mut i: usize = 0;
    while i < total
        invariant
            effects.wf(),
            effects.keys() == keys0,
            keys0.len() == values0.len() == total,
            effects.values().len() == total,
            i <= total,
            marks@.len() == i,
            forall|j: int| 0 <= j < total ==> (#[trigger] values0[j]).can_accumulate(dt),
            forall|j: int| 0 <= j < i ==> marks@[j] == values0[j].expires(dt),
            forall|j: int| 0 <= j < i ==> effects.values()[j] == values0[j].after(dt),
            forall|j: int| i <= j < total ==> effects.values()[j] == values0[j],
        decreases total - i,
    {
        let mut effect = *effects.value_at(i);
        assert(values0[i as int].can_accumulate(dt));
        let expired = effect.tick(dt);
        let _previous = effects.replace_at(i, effect);
        marks.push(expired);
        i = i + 1;
    }
    assert(marks@ =~= expiry_marks(values0, dt));
    assert(effects.values() =~= aged(values0, dt));
    effects.remove_marked(&marks)
}

/// What the sprint trail follows: where the actor's feet are, whether the
/// actor stands on the ground, and the square of its horizontal speed.
#[derive(Clone, Copy, Debug, PartialEq, Eq, Structural)]
pub struct SprintState {
    pub feet: Transform,
    pub grounded: bool,
    pub horizontal_speed_squared: u128,
}

impl SprintState {
    /// An actor sprints when it stands on the ground and its horizontal
    /// speed is above the threshold.
    pub open spec fn sprints(&self, threshold: u64) -> bool {
        self.grounded && self.horizontal_speed_squared > threshold as int * threshold as int
    }

    /// Executable form of [`Self::sprints`].
    pub fn is_sprinting(&self, threshold: u64) -> (r: bool)
        ensures
            r == self.sprints(threshold),
    {
        assert(threshold as int * threshold as int <= 0xffff_ffff_ffff_ffff * 0xffff_ffff_ffff_ffff)
            by (nonlinear_arith)
            requires
                0 <= threshold as int <= 0xffff_ffff_ffff_ffff,
        ;
        let squared: u128 = (threshold as u128) * (threshold as u128);
        self.grounded && self.horizontal_speed_squared > squared
    }
}

impl ParticleEffect {
    /// A sprint trail after one actor has been looked at: while the actor
    /// sprints the trail emits at its feet, else it is switched off where it
    /// is. Other effects are left alone.
    pub open spec fn following(&self, actor: SprintState, threshold: u64) -> ParticleEffect {
        if self.sprinting is None {
            *self
        } else if actor.sprints(threshold) {
            ParticleEffect { transform: actor.feet, active: true, ..*self }
        } else {
            ParticleEffect { active: false, ..*self }
        }
    }

    /// A sprint trail after each of `actors` has been looked at in turn.
    pub open spec fn following_all(&self, actors: Seq<SprintState>, threshold: u64) -> ParticleEffect
        decreases actors.len(),
    {
        if actors.len() == 0 {
            *self
        } else {
            self.following_all(actors.drop_last(), threshold).following(actors.last(), threshold)
        }
    }
}

/// Switches every sprint trail on or off after the movement of each actor in
/// turn, and moves it to the feet of an actor that sprints. With several
/// actors the last one decides; with none nothing changes.
pub fn play_sprinting_effect(
    actors: &Vec<SprintState>,
    effects: &mut Table<ParticleEffect>,
    threshold: u64,
)
    requires
        old(effects).wf(),
    ensures
        final(effects).wf(),
        final(effects).keys() == old(effects).keys(),
        final(effects).values().len() == old(effects).values().len(),
        forall|j: int|
            0 <= j < old(effects).values().len() ==> #[trigger] final(effects).values()[j] == old(
                effects,
            ).values()[j].following_all(actors@, threshold),
{
    let ghost values0 = effects.values();
    let total: usize = effects.len();
    let mut a: usize = 0;
    while a < actors.len()
        invariant
            effects.wf(),
            effects.keys() == old(effects).keys(),
            values0 == old(effects).values(),
            effects.values().len() == total,
            values0.len() == total,
            a <= actors@.len(),
            forall|j: int|
                0 <= j < total ==> #[trigger] effects.values()[j] == values0[j].following_all(
                    actors@.take(a as int),
                    threshold,
                ),
        decreases actors@.len() - a,
    {
        let actor = actors[a];
        let sprinting = actor.is_sprinting(threshold);
        let ghost before = effects.values();
        let mut i: usize = 0;
        while i < total
            invariant
                effects.wf(),
                effects.keys() == old(effects).keys(),
                effects.values().len() == total,
                before.len() == total,
                i <= total,
                sprinting == actor.sprints(threshold),
                forall|j: int|
                    0 <= j < i ==> #[trigger] effects.values()[j] == before[j].following(
                        actor,
                        threshold,
                    ),
                forall|j: int| i <= j < total ==> #[trigger] effects.values()[j] == before[j],
            decreases total - i,
        {
            let mut effect = *effects.value_at(i);
            if effect.sprinting.is_some() {
                if sprinting {
                    effect.transform = actor.feet;
                    effect.active = true;
                } else {
                    effect.active = false;
                }
                let _previous = effects.replace_at(i, effect);
            }
            i = i + 1;
        }
        proof {
            assert(actors@.take(a + 1).drop_last() =~= actors@.take(a as int));
            assert(actors@.take(a + 1).last() == actor);
        }
        a = a + 1;
    }
    proof {
        assert(actors@.take(actors@.len() as int) =~= actors@);
    }
}

} // verus!

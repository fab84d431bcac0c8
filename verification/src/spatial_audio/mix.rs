//! The spatial mix: the volume and the panning of each emitter as the
//! receiver hears it.

use vstd::prelude::*;
use crate::fixed::{
    floor_div,
    integer_sqrt,
    is_isqrt,
    lemma_isqrt_unique,
    Vec3,
    SCALE,
    V3,
    WORLD_LIMIT,
};
use crate::spatial_audio::emitter::{emitter_views, AudioEmitter, AudioEmitterView, CustomAudioReceiver};
use crate::spatial_audio::instances::{AudioInstances, AudioTween, Backend};
use crate::table::Table;

verus! {

/// The settings of the spatial mix. The volume falls from full at distance
/// zero to nothing at `max_distance`, which is in fixed-point steps.
#[derive(Clone, Copy, Debug, PartialEq, Eq, Structural)]
pub struct SpatialAudio {
    pub max_distance: u64,
}

/// The entity that listens: where it is, and the direction of its right
/// side.
#[derive(Clone, Copy, Debug, PartialEq, Eq, Structural)]
pub struct AudioReceiver {
    pub marker: CustomAudioReceiver,
    pub position: Vec3,
    pub right: Vec3,
}

/// The volume at `distance` from the receiver: the square of what is left of
/// one when the distance is taken as a share of `max_distance`, and nothing
/// from `max_distance` on. Both divisions round down.
pub open spec fn volume_at(distance: nat, max_distance: u64) -> int {
    if distance >= max_distance {
        0
    } else {
        let linear = SCALE - (distance * SCALE) / (max_distance as int);
        (linear * linear) / (SCALE as int)
    }
}

/// The cosine of the angle between two vectors, in fixed-point steps: their
/// scalar product over the product of their lengths, rounded down and kept
/// between minus one and one. Zero where one of them has no length.
pub open spec fn cosine_between(a: V3, b: V3) -> int {
    let lengths = a.norm() * b.norm();
    if lengths == 0 {
        0
    } else {
        let cosine = (a.dot(b) * SCALE) / (lengths as int);
        if cosine < -SCALE {
            -SCALE as int
        } else if cosine > SCALE {
            SCALE as int
        } else {
            cosine
        }
    }
}

/// The panning of a sound that comes along `path` to a receiver whose right
/// side points along `right`: from 0, left, to [`SCALE`], right. Only the
/// right side is taken into account.
pub open spec fn panning_toward(right: V3, path: V3) -> int {
    (cosine_between(right, path) + SCALE) / 2
}

/// At no distance the volume is full, and from the largest distance on
/// there is none.
pub proof fn lemma_volume_at_ends(distance: nat, max_distance: u64)
    ensures
        max_distance > 0 ==> volume_at(0, max_distance) == SCALE,
        distance >= max_distance ==> volume_at(distance, max_distance) == 0,
        0 <= volume_at(distance, max_distance) <= SCALE,
{
    if max_distance > 0 {
        assert((0 * SCALE) / (max_distance as int) == 0) by (nonlinear_arith)
            requires
                max_distance > 0,
        ;
        assert((SCALE * SCALE) / (SCALE as int) == SCALE as int);
    }
    if distance < max_distance {
        lemma_linear_share(distance, max_distance);
        let linear = SCALE - (distance * SCALE) / (max_distance as int);
        assert(0 <= linear * linear <= SCALE * SCALE) by (nonlinear_arith)
            requires
                0 <= linear <= SCALE,
        ;
        vstd::arithmetic::div_mod::lemma_div_is_ordered(
            linear * linear,
            SCALE * SCALE,
            SCALE as int,
        );
        vstd::arithmetic::div_mod::lemma_div_pos_is_pos(linear * linear, SCALE as int);
    }
}

/// A distance below the largest is a share of it between nothing and all.
proof fn lemma_linear_share(distance: nat, max_distance: u64)
    requires
        distance < max_distance,
    ensures
        0 <= (distance * SCALE) / (max_distance as int) <= SCALE,
{
    let m = max_distance as int;
    assert(0 <= distance * SCALE <= m * SCALE) by (nonlinear_arith)
        requires
            0 <= distance < m,
    ;
    vstd::arithmetic::div_mod::lemma_div_pos_is_pos(distance * SCALE, m);
    vstd::arithmetic::div_mod::lemma_div_is_ordered(distance * SCALE, m * SCALE, m);
    vstd::arithmetic::div_mod::lemma_div_multiples_vanish(SCALE as int, m);
}

/// The length of a vector within twice the world's bounds.
fn bounded_length(v: &Vec3) -> (r: u64)
    requires
        -2 * WORLD_LIMIT <= v.x <= 2 * WORLD_LIMIT,
        -2 * WORLD_LIMIT <= v.y <= 2 * WORLD_LIMIT,
        -2 * WORLD_LIMIT <= v.z <= 2 * WORLD_LIMIT,
    ensures
        r == v@.norm(),
        r <= 4 * WORLD_LIMIT,
{
    let squared = v.length_squared();
    let r = integer_sqrt(squared);
    proof {
        assert(0 <= v.x * v.x <= 4 * WORLD_LIMIT * WORLD_LIMIT) by (nonlinear_arith)
            requires
                -2 * WORLD_LIMIT <= v.x <= 2 * WORLD_LIMIT,
        ;
        assert(0 <= v.y * v.y <= 4 * WORLD_LIMIT * WORLD_LIMIT) by (nonlinear_arith)
            requires
                -2 * WORLD_LIMIT <= v.y <= 2 * WORLD_LIMIT,
        ;
        assert(0 <= v.z * v.z <= 4 * WORLD_LIMIT * WORLD_LIMIT) by (nonlinear_arith)
            requires
                -2 * WORLD_LIMIT <= v.z <= 2 * WORLD_LIMIT,
        ;
        let root = r as int;
        let limit = WORLD_LIMIT as int;
        assert(squared as int <= 12 * (limit * limit)) by (nonlinear_arith)
            requires
                squared as int == v.x * v.x + v.y * v.y + v.z * v.z,
                v.x * v.x <= 4 * WORLD_LIMIT * WORLD_LIMIT,
                v.y * v.y <= 4 * WORLD_LIMIT * WORLD_LIMIT,
                v.z * v.z <= 4 * WORLD_LIMIT * WORLD_LIMIT,
                limit == WORLD_LIMIT,
        ;
        assert(root * root <= squared as int);
        if root > 4 * limit {
            assert(root * root > 16 * (limit * limit)) by (nonlinear_arith)
                requires
                    root > 4 * limit,
                    limit > 0,
            ;
        }
    }
    r
}

impl SpatialAudio {
    /// The volume at which a receiver at `receiver` hears an emitter at
    /// `emitter`.
    pub open spec fn volume(&self, receiver: V3, emitter: V3) -> int {
        volume_at(emitter.minus(receiver).norm(), self.max_distance)
    }

    /// Computes [`Self::volume`] for two points within the world's bounds.
    pub fn volume_between(&self, receiver: &Vec3, emitter: &Vec3) -> (volume: i64)
        requires
            receiver@.in_bounds(),
            emitter@.in_bounds(),
        ensures
            volume == self.volume(receiver@, emitter@),
            0 <= volume <= SCALE,
            emitter@ == receiver@ && self.max_distance > 0 ==> volume == SCALE,
            emitter@.minus(receiver@).norm() >= self.max_distance ==> volume == 0,
    {
        let path = Vec3 {
            x: emitter.x - receiver.x,
            y: emitter.y - receiver.y,
            z: emitter.z - receiver.z,
        };
        let distance = bounded_length(&path);
        proof {
            lemma_volume_at_ends(distance as nat, self.max_distance);
            if emitter@ == receiver@ {
                assert(path.x == 0 && path.y == 0 && path.z == 0);
                assert(path@.x * path@.x == 0 && path@.y * path@.y == 0 && path@.z * path@.z == 0)
                    by (nonlinear_arith)
                    requires
                        path@.x == 0 && path@.y == 0 && path@.z == 0,
                ;
                assert(path@.norm_squared() == 0);
                assert(is_isqrt(0, 0)) by (nonlinear_arith);
                lemma_isqrt_unique(0, 0);
                lemma_volume_at_ends(0, self.max_distance);
            }
        }
        if distance >= self.max_distance {
            0
        } else {
            proof {
                lemma_linear_share(distance as nat, self.max_distance);
            }
            let share: u128 = (distance as u128 * 1_000_000) / (self.max_distance as u128);
            let linear: u128 = 1_000_000 - share;
            assert(linear * linear <= 1_000_000 * 1_000_000) by (nonlinear_arith)
                requires
                    0 <= linear <= 1_000_000,
            ;
            let volume: u128 = (linear * linear) / 1_000_000;
            volume as i64
        }
    }

    /// Computes [`panning_toward`] for a receiver and an emitter within the
    /// world's bounds.
    pub fn panning_between(receiver: &AudioReceiver, emitter: &Vec3) -> (panning: i64)
        requires
            receiver.position@.in_bounds(),
            receiver.right@.in_bounds(),
            emitter@.in_bounds(),
        ensures
            panning == panning_toward(receiver.right@, emitter@.minus(receiver.position@)),
            0 <= panning <= SCALE,
    {
        let path = Vec3 {
            x: emitter.x - receiver.position.x,
            y: emitter.y - receiver.position.y,
            z: emitter.z - receiver.position.z,
        };
        let right = receiver.right;
        let right_length = bounded_length(&right);
        let path_length = bounded_length(&path);
        assert(right_length * path_length <= 16 * WORLD_LIMIT * WORLD_LIMIT) by (nonlinear_arith)
            requires
                0 <= right_length <= 4 * WORLD_LIMIT,
                0 <= path_length <= 4 * WORLD_LIMIT,
        ;
        let lengths: u128 = (right_length as u128) * (path_length as u128);
        let cosine: i128 = if lengths == 0 {
            0
        } else {
            let dx = bounded_product(right.x, path.x);
            let dy = bounded_product(right.y, path.y);
            let dz = bounded_product(right.z, path.z);
            let dot: i128 = dx + dy + dz;
            let scaled: i128 = dot * 1_000_000;
            let cosine = floor_div(scaled, lengths as i128);
            if cosine < -1_000_000 {
                -1_000_000
            } else if cosine > 1_000_000 {
                1_000_000
            } else {
                cosine
            }
        };
        ((cosine + 1_000_000) / 2) as i64
    }
}

/// `a * b` for two coordinates within twice the world's bounds.
fn bounded_product(a: i64, b: i64) -> (p: i128)
    requires
        -2 * WORLD_LIMIT <= a <= 2 * WORLD_LIMIT,
        -2 * WORLD_LIMIT <= b <= 2 * WORLD_LIMIT,
    ensures
        p == a * b,
        -4 * WORLD_LIMIT * WORLD_LIMIT <= p <= 4 * WORLD_LIMIT * WORLD_LIMIT,
{
    assert(-4 * WORLD_LIMIT * WORLD_LIMIT <= a * b <= 4 * WORLD_LIMIT * WORLD_LIMIT)
        by (nonlinear_arith)
        requires
            -2 * WORLD_LIMIT <= a <= 2 * WORLD_LIMIT,
            -2 * WORLD_LIMIT <= b <= 2 * WORLD_LIMIT,
    ;
    (a as i128) * (b as i128)
}

/// The transition with which the mix is set: the default one.
pub open spec fn mix_tween() -> AudioTween {
    AudioTween { duration: 10_000 }
}

/// Whether the receiver and every emitter are within the world's bounds.
pub open spec fn within_world(receiver: AudioReceiver, emitters: Seq<AudioEmitter>) -> bool {
    &&& receiver.position@.in_bounds()
    &&& receiver.right@.in_bounds()
    &&& forall|i: int| 0 <= i < emitters.len() ==> (#[trigger] emitters[i]).position@.in_bounds()
}

/// Executable form of [`within_world`].
pub fn can_mix(receiver: &AudioReceiver, emitters: &Table<AudioEmitter>) -> (r: bool)
    requires
        emitters.wf(),
    ensures
        r == within_world(*receiver, emitters.values()),
{
    if !receiver.position.within_bounds() || !receiver.right.within_bounds() {
        return false;
    }
    let total: usize = emitters.len();
    let mut i: usize = 0;
    while i < total
        invariant
            emitters.wf(),
            total == emitters.values().len(),
            i <= total,
            forall|j: int| 0 <= j < i ==> (#[trigger] emitters.values()[j]).position@.in_bounds(),
        decreases total - i,
    {
        if !emitters.value_at(i).position.within_bounds() {
            return false;
        }
        i = i + 1;
    }
    true
}

impl SpatialAudio {
    /// The backend after the mix of one emitter has been set: its volume,
    /// then its panning, both on the instance that its handle resolves to.
    /// Unchanged for an emitter whose handle does not resolve.
    pub open spec fn mixed(
        &self,
        backend: Backend,
        receiver: AudioReceiver,
        emitter: AudioEmitterView,
    ) -> Backend {
        backend.with_volume(
            emitter.handle.instance,
            self.volume(receiver.position@, emitter.position@) as i64,
            mix_tween(),
        ).with_panning(
            emitter.handle.instance,
            panning_toward(receiver.right@, emitter.position@.minus(receiver.position@)) as i64,
            mix_tween(),
        )
    }

    /// The backend after the mix of every emitter has been set, in row
    /// order.
    pub open spec fn mixed_all(
        &self,
        backend: Backend,
        receiver: AudioReceiver,
        emitters: Seq<AudioEmitterView>,
    ) -> Backend
        decreases emitters.len(),
    {
        if emitters.len() == 0 {
            backend
        } else {
            self.mixed(
                self.mixed_all(backend, receiver, emitters.drop_last()),
                receiver,
                emitters.last(),
            )
        }
    }

    /// Sets the volume and the panning of every emitter's instance as the
    /// receiver hears it.
    pub fn update(
        &self,
        receiver: &AudioReceiver,
        emitters: &Table<AudioEmitter>,
        instances: &mut AudioInstances,
    )
        requires
            emitters.wf(),
            within_world(*receiver, emitters.values()),
        ensures
            final(instances)@ == self.mixed_all(
                old(instances)@,
                *receiver,
                emitter_views(emitters.values()),
            ),
    {
        let ghost views = emitter_views(emitters.values());
        let total: usize = emitters.len();
        let mut i: usize = 0;
        while i < total
            invariant
                emitters.wf(),
                within_world(*receiver, emitters.values()),
                views == emitter_views(emitters.values()),
                total == emitters.values().len(),
                i <= total,
                instances@ == self.mixed_all(old(instances)@, *receiver, views.take(i as int)),
            decreases total - i,
        {
            proof {
                assert(views.take(i + 1).drop_last() =~= views.take(i as int));
                assert(views.take(i + 1).last() == views[i as int]);
            }
            let emitter = emitters.value_at(i);
            let volume = self.volume_between(&receiver.position, &emitter.position);
            let panning = SpatialAudio::panning_between(receiver, &emitter.position);
            instances.set_volume(&emitter.handle.instance, volume, AudioTween::default());
            instances.set_panning(&emitter.handle.instance, panning, AudioTween::default());
            i = i + 1;
        }
        proof {
            assert(views.take(total as int) =~= views);
        }
    }
}

/// Sets the mix of every emitter for the first receiver. Without settings
/// or without a receiver nothing is set.
pub fn run_spatial_audio(
    spatial_audio: Option<&SpatialAudio>,
    receivers: &Table<AudioReceiver>,
    emitters: &Table<AudioEmitter>,
    instances: &mut AudioInstances,
)
    requires
        receivers.wf(),
        emitters.wf(),
        spatial_audio is Some && receivers.values().len() > 0 ==> within_world(
            receivers.values()[0],
            emitters.values(),
        ),
    ensures
        final(instances)@ == if spatial_audio is Some && receivers.values().len() > 0 {
            spatial_audio->Some_0.mixed_all(
                old(instances)@,
                receivers.values()[0],
                emitter_views(emitters.values()),
            )
        } else {
            old(instances)@
        },
{
    match spatial_audio {
        Some(settings) => {
            if receivers.len() > 0 {
                settings.update(receivers.value_at(0), emitters, instances);
            }
        },
        None => {},
    }
}

} // verus!

use skirmish::combat::projectile::{Projectile, ProjectileKind, TracingProjectile};
use skirmish::combat::shoot::{
    apply_shooting, apply_shooting_with_draws, carry_out_shot, shot_for_draw, CameraView, ShotCue, ShotFired, ShotSounds,
    Shooting, SpawnRequest, SHOT_VOLUME,
};
use skirmish::entity::{Entity, EntityAllocator};
use skirmish::fixed::{Quat, Transform, Vec3};
use skirmish::spatial_audio::{
    AudioEmitter, AudioInstances, BackendCommand, InstanceRef, InstanceSetup, PlaybackState,
    SourceRef,
};
use skirmish::table::Table;

fn camera() -> CameraView {
    CameraView {
        transform: Transform {
            translation: Vec3::new(1_000_000, 2_000_000, 3_000_000),
            rotation: Quat { x: 0, y: 0, z: 0, w: 1_000_000 },
        },
        forward: Vec3::new(0, 0, -1_000_000),
    }
}

fn armed(length: u64) -> Shooting {
    Shooting { requested: false, shoot_delay_enabled: false, shoot_delay_length: length, shoot_delay_time: 0 }
}

#[test]
fn default_shooting_state_is_idle() {
    let state = Shooting::default();
    assert_eq!(
        state,
        Shooting { requested: false, shoot_delay_enabled: false, shoot_delay_length: 0, shoot_delay_time: 0 }
    );
}

#[test]
fn a_request_without_delay_fires_and_starts_the_delay() {
    let mut state = armed(500_000);
    state.request();
    assert!(state.tick(16_000));
    assert_eq!(
        state,
        Shooting { requested: false, shoot_delay_enabled: true, shoot_delay_length: 500_000, shoot_delay_time: 0 }
    );
}

#[test]
fn a_tick_without_request_fires_nothing() {
    let mut state = armed(500_000);
    assert!(!state.tick(16_000));
    assert_eq!(state, armed(500_000));
}

#[test]
fn requests_during_the_delay_are_dropped_not_queued() {
    let mut state = armed(500_000);
    state.request();
    assert!(state.tick(100_000));
    let mut shots = 0;
    for step in 1..=4u64 {
        state.request();
        if state.tick(100_000) {
            shots += 1;
        }
        assert!(!state.requested);
        assert!(state.shoot_delay_enabled);
        assert_eq!(state.shoot_delay_time, step * 100_000);
    }
    assert_eq!(shots, 0);
    // No request is pending, so the end of the delay fires nothing by itself.
    assert!(!state.tick(100_000));
    assert!(!state.shoot_delay_enabled);
    assert_eq!(state.shoot_delay_time, 0);
}

#[test]
fn a_request_on_the_tick_that_ends_the_delay_fires() {
    let mut state = Shooting {
        requested: true,
        shoot_delay_enabled: true,
        shoot_delay_length: 500_000,
        shoot_delay_time: 400_000,
    };
    assert!(state.tick(100_000));
    assert!(state.shoot_delay_enabled);
    assert_eq!(state.shoot_delay_time, 0);
    assert!(!state.requested);
}

#[test]
fn the_delay_does_not_overflow_on_a_huge_tick() {
    let mut state = Shooting {
        requested: false,
        shoot_delay_enabled: true,
        shoot_delay_length: u64::MAX,
        shoot_delay_time: u64::MAX - 1,
    };
    assert!(!state.tick(u64::MAX));
    assert!(!state.shoot_delay_enabled);
    assert_eq!(state.shoot_delay_time, 0);
}

#[test]
fn spawn_request_is_in_front_of_the_view() {
    let request = camera().spawn_request().unwrap();
    assert_eq!(request.transform.translation, Vec3::new(1_000_000, 2_000_000, 1_000_000));
    assert_eq!(request.transform.rotation, Quat { x: 0, y: 0, z: 0, w: 1_000_000 });
    assert_eq!(request.velocity, Vec3::new(0, 0, -10_000_000));
}

#[test]
fn spawn_request_that_cannot_be_held_is_none() {
    let mut view = camera();
    view.forward = Vec3::new(i64::MAX / 4, 0, 0);
    assert!(view.spawn_request().is_none());
    view.forward = Vec3::new(0, 0, -1_000_000);
    view.transform.translation = Vec3::new(0, 0, i64::MIN + 1_999_999);
    assert!(view.spawn_request().is_none());
    view.transform.translation = Vec3::new(0, 0, i64::MIN + 2_000_000);
    assert!(view.spawn_request().is_some());
}

#[test]
fn shot_sound_follows_the_drawn_number() {
    assert_eq!(ShotCue::from_index(0), ShotCue::RifleShot1);
    assert_eq!(ShotCue::from_index(1), ShotCue::RifleShot2);
    assert_eq!(ShotCue::from_index(2), ShotCue::RifleShot4);
    assert_eq!(ShotCue::from_index(3), ShotCue::RifleShot5);
    assert_eq!(ShotCue::from_index(4), ShotCue::RifleShot1);
    assert_eq!(ShotCue::from_index(u32::MAX), ShotCue::RifleShot1);
    let spawn = camera().spawn_request().unwrap();
    let shot = shot_for_draw(Entity { id: 7 }, spawn, 2);
    assert_eq!(shot, ShotFired { shooter: Entity { id: 7 }, spawn, cue: ShotCue::RifleShot4 });
}

#[test]
fn without_a_view_nothing_happens() {
    let mut shooters: Table<Shooting> = Table::new();
    let waiting = Shooting {
        requested: true,
        shoot_delay_enabled: true,
        shoot_delay_length: 500_000,
        shoot_delay_time: 100_000,
    };
    shooters.insert(Entity { id: 1 }, waiting);
    let shots = apply_shooting(&mut shooters, None, 16_000);
    assert!(shots.is_empty());
    assert_eq!(*shooters.value_at(0), waiting);
}

#[test]
fn every_actor_is_ticked_and_those_that_may_fire_do() {
    let mut shooters: Table<Shooting> = Table::new();
    let mut ready = armed(500_000);
    ready.request();
    let denied = Shooting {
        requested: true,
        shoot_delay_enabled: true,
        shoot_delay_length: 500_000,
        shoot_delay_time: 100_000,
    };
    shooters.insert(Entity { id: 1 }, ready);
    shooters.insert(Entity { id: 2 }, denied);
    shooters.insert(Entity { id: 3 }, armed(500_000));
    shooters.insert(Entity { id: 4 }, ready);
    let view = camera();
    let shots = apply_shooting(&mut shooters, Some(&view), 16_000);
    assert_eq!(shots.len(), 2);
    assert_eq!(shots[0].shooter, Entity { id: 1 });
    assert_eq!(shots[1].shooter, Entity { id: 4 });
    let spawn = SpawnRequest {
        transform: Transform {
            translation: Vec3::new(1_000_000, 2_000_000, 1_000_000),
            rotation: Quat { x: 0, y: 0, z: 0, w: 1_000_000 },
        },
        velocity: Vec3::new(0, 0, -10_000_000),
    };
    assert_eq!(shots[0].spawn, spawn);
    assert_eq!(shots[1].spawn, spawn);
    assert_eq!(
        *shooters.value_at(0),
        Shooting { requested: false, shoot_delay_enabled: true, shoot_delay_length: 500_000, shoot_delay_time: 0 }
    );
    assert_eq!(
        *shooters.value_at(1),
        Shooting {
            requested: false,
            shoot_delay_enabled: true,
            shoot_delay_length: 500_000,
            shoot_delay_time: 116_000
        }
    );
    assert_eq!(*shooters.value_at(2), armed(500_000));
    assert_eq!(shooters.key_at(1), Entity { id: 2 });
}

#[test]
fn shot_sounds_are_drawn_among_the_four() {
    let view = camera();
    let mut seen = [false; 4];
    for _ in 0..400 {
        let mut shooters: Table<Shooting> = Table::new();
        let mut ready = armed(0);
        ready.request();
        shooters.insert(Entity { id: 1 }, ready);
        let shots = apply_shooting(&mut shooters, Some(&view), 16_000);
        assert_eq!(shots.len(), 1);
        match shots[0].cue {
            ShotCue::RifleShot1 => seen[0] = true,
            ShotCue::RifleShot2 => seen[1] = true,
            ShotCue::RifleShot4 => seen[2] = true,
            ShotCue::RifleShot5 => seen[3] = true,
        }
    }
    assert_eq!(seen, [true, true, true, true]);
}

#[test]
fn a_shot_brings_a_projectile_and_its_sound() {
    let sounds = ShotSounds {
        rifle_shot_1: SourceRef { id: 11 },
        rifle_shot_2: SourceRef { id: 12 },
        rifle_shot_4: SourceRef { id: 14 },
        rifle_shot_5: SourceRef { id: 15 },
    };
    assert_eq!(sounds.source(ShotCue::RifleShot1), SourceRef { id: 11 });
    assert_eq!(sounds.source(ShotCue::RifleShot2), SourceRef { id: 12 });
    assert_eq!(sounds.source(ShotCue::RifleShot4), SourceRef { id: 14 });
    assert_eq!(sounds.source(ShotCue::RifleShot5), SourceRef { id: 15 });
    let spawn = camera().spawn_request().unwrap();
    let shot = shot_for_draw(Entity { id: 0 }, spawn, 3);
    let mut projectiles: Table<Projectile> = Table::new();
    let mut emitters: Table<AudioEmitter> = Table::new();
    let mut instances = AudioInstances::new();
    let mut allocator = EntityAllocator { next: 5 };
    let (projectile, emitter) = carry_out_shot(
        &shot,
        &sounds,
        &mut projectiles,
        &mut emitters,
        &mut instances,
        &mut allocator,
    );
    assert_eq!(projectile, Entity { id: 5 });
    assert_eq!(emitter, Entity { id: 6 });
    assert_eq!(allocator.next, 7);
    assert_eq!(
        *projectiles.get(projectile).unwrap(),
        Projectile {
            transform: spawn.transform,
            kind: ProjectileKind::Tracing(TracingProjectile { velocity: Vec3::new(0, 0, -10_000_000) }),
        }
    );
    let row = emitters.get(emitter).unwrap();
    assert_eq!(row.position, Vec3::new(1_000_000, 2_000_000, 1_000_000));
    assert_eq!(row.handle.instance, Some(InstanceRef { index: 0 }));
    assert!(row.disposable.is_some());
    assert!(row.looping.is_none());
    let playing = instances.get(&row.handle.instance).unwrap();
    assert_eq!(playing.source, SourceRef { id: 15 });
    assert_eq!(playing.state, PlaybackState::Playing);
    assert_eq!(playing.volume, SHOT_VOLUME);
    assert_eq!(SHOT_VOLUME, 600_000);
    assert!(!playing.looped);
    let commands = instances.take_commands();
    assert_eq!(commands.len(), 1);
    assert!(matches!(
        commands[0],
        BackendCommand::Create {
            instance: InstanceRef { index: 0 },
            source: SourceRef { id: 15 },
            setup: InstanceSetup { looped: false, volume: 600_000 },
            ..
        }
    ));
}

#[test]
fn given_draws_decide_the_sounds() {
    let mut shooters: Table<Shooting> = Table::new();
    let mut ready = armed(500_000);
    ready.request();
    shooters.insert(Entity { id: 1 }, ready);
    shooters.insert(Entity { id: 2 }, armed(500_000));
    shooters.insert(Entity { id: 3 }, ready);
    shooters.insert(Entity { id: 4 }, ready);
    let view = camera();
    let shots = apply_shooting_with_draws(&mut shooters, Some(&view), 16_000, &vec![3, 0, 1, 2]);
    assert_eq!(shots.len(), 3);
    assert_eq!((shots[0].shooter, shots[0].cue), (Entity { id: 1 }, ShotCue::RifleShot5));
    assert_eq!((shots[1].shooter, shots[1].cue), (Entity { id: 3 }, ShotCue::RifleShot1));
    assert_eq!((shots[2].shooter, shots[2].cue), (Entity { id: 4 }, ShotCue::RifleShot2));
    let shots = apply_shooting_with_draws(&mut shooters, None, 16_000, &vec![0, 0, 0, 0]);
    assert!(shots.is_empty());
}

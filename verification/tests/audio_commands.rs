use skirmish::entity::Entity;
use skirmish::fixed::Vec3;
use skirmish::spatial_audio::{
    cleanup_spatial_audio, create_walking_audio_handle, handle_emitter_audio_commands,
    AudioEmitter, AudioEmitterHandle, AudioInstance, AudioInstances, AudioTween, BackendCommand,
    DisposableAudioEmitter, EmitterPlayerCommand, InstanceRef, InstanceSetup, LoopAudioEmitter,
    PlaybackState, SourceRef, CENTRE, WALKING_VOLUME,
};
use skirmish::table::Table;

const STEPS: SourceRef = SourceRef { id: 3 };
const SETUP: InstanceSetup = InstanceSetup { looped: true, volume: 800_000 };
const FADE: AudioTween = AudioTween { duration: 250_000 };
const QUICK: AudioTween = AudioTween { duration: 10_000 };
const QUEUED: PlaybackState = PlaybackState::Queued;
const PLAYING: PlaybackState = PlaybackState::Playing;
const PAUSING: PlaybackState = PlaybackState::Pausing;
const PAUSED: PlaybackState = PlaybackState::Paused;
const STOPPING: PlaybackState = PlaybackState::Stopping;
const STOPPED: PlaybackState = PlaybackState::Stopped;

fn origin() -> Vec3 {
    Vec3::new(0, 0, 0)
}

#[test]
fn audio_defaults() {
    assert_eq!(AudioEmitterHandle::default(), AudioEmitterHandle { instance: None });
    assert_eq!(DisposableAudioEmitter::default(), DisposableAudioEmitter {});
    assert_eq!(AudioTween::default(), QUICK);
}

#[test]
fn state_transitions() {
    let all = [QUEUED, PLAYING, PAUSING, PAUSED, STOPPING, STOPPED];
    let resumed = [QUEUED, PLAYING, PLAYING, PLAYING, STOPPING, STOPPED];
    let paused = [QUEUED, PAUSING, PAUSING, PAUSED, STOPPING, STOPPED];
    let stopped = [STOPPING, STOPPING, STOPPING, STOPPING, STOPPING, STOPPED];
    let settled = [QUEUED, PLAYING, PAUSED, PAUSED, STOPPED, STOPPED];
    for i in 0..6 {
        assert_eq!(all[i].resume(), resumed[i]);
        assert_eq!(all[i].pause(), paused[i]);
        assert_eq!(all[i].stop(), stopped[i]);
        assert_eq!(all[i].settle(), settled[i]);
    }
}

#[test]
fn pause_play_stop_on_an_emitter_without_instance() {
    let mut emitter = LoopAudioEmitter::new(STEPS, SETUP);
    let mut instances = AudioInstances::new();
    let mut handle: Option<InstanceRef> = None;
    emitter.pause(FADE);
    emitter.play(QUICK);
    emitter.stop(FADE);
    assert_eq!(
        emitter.pending_emitter_commands,
        vec![
            EmitterPlayerCommand::Pause(FADE),
            EmitterPlayerCommand::Play(QUICK),
            EmitterPlayerCommand::Stop(FADE)
        ]
    );
    emitter.process_commands(&mut handle, &mut instances);
    assert!(emitter.pending_emitter_commands.is_empty());
    let created = InstanceRef { index: 0 };
    assert_eq!(handle, Some(created));
    assert_eq!(
        instances.get(&handle),
        Some(AudioInstance {
            source: STEPS,
            state: PlaybackState::Stopping,
            looped: true,
            volume: 800_000,
            panning: CENTRE,
        })
    );
    assert_eq!(
        instances.take_commands(),
        vec![
            BackendCommand::Create { instance: created, source: STEPS, setup: SETUP, tween: QUICK },
            BackendCommand::Stop { instance: created, tween: FADE },
        ]
    );
    // Once the backend reports the end of the transition, the instance has
    // stopped; it has not vanished.
    instances.observe(created, Some(PlaybackState::Stopping.settle()));
    assert_eq!(instances.state(&handle), Some(PlaybackState::Stopped));
}

#[test]
fn commands_run_in_the_order_given() {
    let mut emitter = LoopAudioEmitter::new(STEPS, SETUP);
    let mut instances = AudioInstances::new();
    let mut handle: Option<InstanceRef> = None;
    emitter.play(QUICK);
    emitter.pause(FADE);
    emitter.resume(QUICK);
    emitter.pause(QUICK);
    emitter.process_commands(&mut handle, &mut instances);
    let created = InstanceRef { index: 0 };
    assert_eq!(instances.state(&handle), Some(PlaybackState::Pausing));
    assert_eq!(
        instances.take_commands(),
        vec![
            BackendCommand::Create { instance: created, source: STEPS, setup: SETUP, tween: QUICK },
            BackendCommand::Pause { instance: created, tween: FADE },
            BackendCommand::Resume { instance: created, tween: QUICK },
            BackendCommand::Pause { instance: created, tween: QUICK },
        ]
    );
    assert!(instances.take_commands().is_empty());
}

#[test]
fn play_resumes_an_instance_that_resolves() {
    let emitter = LoopAudioEmitter::new(STEPS, SETUP);
    let mut instances = AudioInstances::new();
    let existing = instances.create(STEPS, SETUP, QUICK);
    instances.pause(&Some(existing), QUICK);
    instances.take_commands();
    let mut handle = Some(existing);
    emitter.play_command(FADE, &mut handle, &mut instances);
    assert_eq!(handle, Some(existing));
    assert_eq!(instances.slots.len(), 1);
    assert_eq!(instances.state(&handle), Some(PlaybackState::Playing));
    assert_eq!(instances.take_commands(), vec![BackendCommand::Resume { instance: existing, tween: FADE }]);
}

#[test]
fn play_makes_a_new_instance_where_the_handle_is_stale() {
    let emitter = LoopAudioEmitter::new(STEPS, SETUP);
    let mut instances = AudioInstances::new();
    let gone = instances.create(STEPS, SETUP, QUICK);
    instances.observe(gone, None);
    instances.take_commands();
    assert_eq!(instances.get(&Some(gone)), None);
    let mut handle = Some(gone);
    emitter.process_command(&mut handle, EmitterPlayerCommand::Play(FADE), &mut instances);
    assert_eq!(handle, Some(InstanceRef { index: 1 }));
    assert_eq!(instances.state(&handle), Some(PlaybackState::Playing));
    assert_eq!(instances.state(&Some(gone)), None);

    let mut never_made = Some(InstanceRef { index: 17 });
    emitter.process_command(&mut never_made, EmitterPlayerCommand::Play(FADE), &mut instances);
    assert_eq!(never_made, Some(InstanceRef { index: 2 }));
}

#[test]
fn resume_pause_and_stop_never_make_an_instance() {
    let emitter = LoopAudioEmitter::new(STEPS, SETUP);
    let mut instances = AudioInstances::new();
    emitter.resume_command(QUICK, &None, &mut instances);
    emitter.pause_command(QUICK, &None, &mut instances);
    emitter.stop_command(QUICK, &None, &mut instances);
    emitter.stop_command(QUICK, &Some(InstanceRef { index: 4 }), &mut instances);
    let mut handle = None;
    emitter.process_command(&mut handle, EmitterPlayerCommand::Resume(QUICK), &mut instances);
    emitter.process_command(&mut handle, EmitterPlayerCommand::Pause(QUICK), &mut instances);
    emitter.process_command(&mut handle, EmitterPlayerCommand::Stop(QUICK), &mut instances);
    assert_eq!(handle, None);
    assert!(instances.slots.is_empty());
    assert!(instances.outbox.is_empty());
}

#[test]
fn the_walking_sound_loops() {
    let mut instances = AudioInstances::new();
    let handle = create_walking_audio_handle(STEPS, &mut instances);
    assert_eq!(handle, InstanceRef { index: 0 });
    let instance = instances.get(&Some(handle)).unwrap();
    assert!(instance.looped);
    assert_eq!(instance.volume, 800_000);
    assert_eq!(WALKING_VOLUME, 800_000);
}

#[test]
fn observing_an_unknown_reference_changes_nothing() {
    let mut instances = AudioInstances::new();
    instances.observe(InstanceRef { index: 0 }, Some(PlaybackState::Playing));
    assert!(instances.slots.is_empty());
    let made = instances.create(STEPS, SETUP, QUICK);
    instances.observe(made, None);
    instances.observe(made, Some(PlaybackState::Playing));
    assert_eq!(instances.get(&Some(made)), None);
}

#[test]
fn every_looping_emitter_is_processed_and_its_state_noted() {
    let mut emitters: Table<AudioEmitter> = Table::new();
    let mut instances = AudioInstances::new();
    let mut first = AudioEmitter::looping(STEPS, SETUP, origin());
    first.looping.as_mut().unwrap().play(QUICK);
    let mut second = AudioEmitter::looping(SourceRef { id: 4 }, SETUP, origin());
    second.looping.as_mut().unwrap().pause(QUICK);
    let mut third = AudioEmitter::looping(SourceRef { id: 5 }, SETUP, origin());
    third.looping.as_mut().unwrap().play(QUICK);
    third.looping.as_mut().unwrap().stop(FADE);
    let shot = instances.create(SourceRef { id: 9 }, InstanceSetup { looped: false, volume: 600_000 }, QUICK);
    emitters.insert(Entity { id: 1 }, first);
    emitters.insert(Entity { id: 2 }, AudioEmitter::disposable(shot, origin()));
    emitters.insert(Entity { id: 3 }, second);
    emitters.insert(Entity { id: 4 }, third);
    handle_emitter_audio_commands(&mut emitters, &mut instances);

    let first = emitters.value_at(0);
    assert_eq!(first.handle.instance, Some(InstanceRef { index: 1 }));
    assert_eq!(first.looping.as_ref().unwrap().playback_state, Some(PlaybackState::Playing));
    assert!(first.looping.as_ref().unwrap().pending_emitter_commands.is_empty());

    let disposable = emitters.value_at(1);
    assert_eq!(disposable.handle.instance, Some(shot));
    assert!(disposable.disposable.is_some());
    assert!(disposable.looping.is_none());

    let second = emitters.value_at(2);
    assert_eq!(second.handle.instance, None);
    assert_eq!(second.looping.as_ref().unwrap().playback_state, None);
    assert!(second.looping.as_ref().unwrap().pending_emitter_commands.is_empty());

    let third = emitters.value_at(3);
    assert_eq!(third.handle.instance, Some(InstanceRef { index: 2 }));
    assert_eq!(third.looping.as_ref().unwrap().playback_state, Some(PlaybackState::Stopping));
    assert_eq!(instances.slots.len(), 3);
    assert_eq!(emitters.key_at(3), Entity { id: 4 });

    // Nothing is queued any more: a second pass only notes the states again.
    instances.observe(InstanceRef { index: 2 }, Some(PlaybackState::Stopped));
    instances.observe(InstanceRef { index: 1 }, None);
    instances.take_commands();
    handle_emitter_audio_commands(&mut emitters, &mut instances);
    assert_eq!(emitters.value_at(0).looping.as_ref().unwrap().playback_state, None);
    assert_eq!(emitters.value_at(0).handle.instance, Some(InstanceRef { index: 1 }));
    assert_eq!(emitters.value_at(3).looping.as_ref().unwrap().playback_state, Some(PlaybackState::Stopped));
    assert!(instances.outbox.is_empty());
}

#[test]
fn disposable_emitters_leave_when_their_sound_is_over() {
    let mut instances = AudioInstances::new();
    let states = [
        PlaybackState::Queued,
        PlaybackState::Playing,
        PlaybackState::Pausing,
        PlaybackState::Paused,
        PlaybackState::Stopping,
        PlaybackState::Stopped,
    ];
    let mut emitters: Table<AudioEmitter> = Table::new();
    for (i, state) in states.iter().enumerate() {
        let instance = instances.create(STEPS, SETUP, QUICK);
        instances.observe(instance, Some(*state));
        emitters.insert(Entity { id: i as u64 }, AudioEmitter::disposable(instance, origin()));
    }
    let released = instances.create(STEPS, SETUP, QUICK);
    instances.observe(released, None);
    emitters.insert(Entity { id: 6 }, AudioEmitter::disposable(released, origin()));
    let mut without_handle = AudioEmitter::disposable(released, origin());
    without_handle.handle.instance = None;
    emitters.insert(Entity { id: 7 }, without_handle);
    // Not disposable: stays although it plays nothing.
    emitters.insert(Entity { id: 8 }, AudioEmitter::looping(STEPS, SETUP, origin()));
    let mut kept = AudioEmitter::disposable(InstanceRef { index: 5 }, origin());
    kept.disposable = None;
    emitters.insert(Entity { id: 9 }, kept);

    let removed = cleanup_spatial_audio(&mut emitters, &instances);
    assert_eq!(removed, vec![Entity { id: 5 }, Entity { id: 6 }, Entity { id: 7 }]);
    assert_eq!(emitters.len(), 7);
    for id in [0u64, 1, 2, 3, 4, 8, 9] {
        assert!(emitters.has(Entity { id }));
    }
    assert!(cleanup_spatial_audio(&mut emitters, &instances).is_empty());

    instances.observe(InstanceRef { index: 1 }, Some(PlaybackState::Stopped));
    assert_eq!(cleanup_spatial_audio(&mut emitters, &instances), vec![Entity { id: 1 }]);
}

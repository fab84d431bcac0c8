//! Audio emitters: the instances that play, the commands queued on an
//! emitter, the removal of emitters whose sound is over, and the volume and
//! panning of each emitter as the receiver hears it.

pub mod emitter;
pub mod instances;
pub mod mix;

pub use emitter::{
    after_command, after_commands, backend_after, cleanup_spatial_audio, emitter_views,
    finished_marks, handle_emitter_audio_commands, AudioEmitter, AudioEmitterHandle,
    AudioEmitterView, CustomAudioReceiver, DisposableAudioEmitter, Drain, EmitterPlayerCommand,
    LoopAudioEmitter, LoopAudioEmitterView,
};
pub use instances::{
    create_walking_audio_handle, AudioInstance, AudioInstances, AudioTween, Backend,
    BackendCommand, InstanceRef, InstanceSetup, PlaybackState, SourceRef, CENTRE, WALKING_VOLUME,
};
pub use mix::{
    can_mix, cosine_between, mix_tween, panning_toward, run_spatial_audio, volume_at,
    within_world, AudioReceiver, SpatialAudio,
};

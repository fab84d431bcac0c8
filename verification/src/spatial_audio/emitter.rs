//! The emitters: the commands queued on a looping emitter and how they reach
//! the instances, and the removal of disposable emitters whose sound is
//! over.

use vstd::prelude::*;
use crate::entity::Entity;
use crate::fixed::Vec3;
use crate::spatial_audio::instances::{
    AudioInstances,
    AudioTween,
    Backend,
    BackendCommand,
    InstanceRef,
    InstanceSetup,
    PlaybackState,
    SourceRef,
};
use crate::table::{pick, Table};

verus! {

/// The instance that an emitter plays, if any. No instance is a state like
/// any other, not an error.
#[derive(Clone, Copy, Debug, PartialEq, Eq, Structural)]
pub struct AudioEmitterHandle {
    pub instance: Option<InstanceRef>,
}

impl Default for AudioEmitterHandle {
    fn default() -> (r: Self)
        ensures
            r.instance is None,
    {
        AudioEmitterHandle { instance: None }
    }
}

/// Marks an emitter that is removed once its sound is over.
#[derive(Clone, Copy, Debug, PartialEq, Eq, Structural)]
pub struct DisposableAudioEmitter {}

impl Default for DisposableAudioEmitter {
    fn default() -> (r: Self) {
        DisposableAudioEmitter {  }
    }
}

/// Marks the entity that listens. The first one found is the receiver.
#[derive(Clone, Copy, Debug, PartialEq, Eq, Structural)]
pub struct CustomAudioReceiver;

/// What gameplay asks of a looping emitter, each with the transition to use.
#[derive(Clone, Copy, Debug, PartialEq, Eq, Structural)]
pub enum EmitterPlayerCommand {
    Play(AudioTween),
    Resume(AudioTween),
    Pause(AudioTween),
    Stop(AudioTween),
}

/// An emitter whose sound is started, paused and stopped by commands. The
/// commands wait in the order in which they were given until they are
/// processed, once per tick.
pub struct LoopAudioEmitter {
    pub source_handle: SourceRef,
    pub setup: InstanceSetup,
    pub pending_emitter_commands: Vec<EmitterPlayerCommand>,
    /// What the instance was doing when the commands were last processed;
    /// for others to read, never consulted by the commands.
    pub playback_state: Option<PlaybackState>,
}

/// The mathematical value of a [`LoopAudioEmitter`].
pub ghost struct LoopAudioEmitterView {
    pub source_handle: SourceRef,
    pub setup: InstanceSetup,
    pub pending: Seq<EmitterPlayerCommand>,
    pub playback_state: Option<PlaybackState>,
}

impl View for LoopAudioEmitter {
    type V = LoopAudioEmitterView;

    open spec fn view(&self) -> LoopAudioEmitterView {
        LoopAudioEmitterView {
            source_handle: self.source_handle,
            setup: self.setup,
            pending: self.pending_emitter_commands@,
            playback_state: self.playback_state,
        }
    }
}

/// An emitter's handle and the backend, while commands are processed.
pub ghost struct Drain {
    pub handle: Option<InstanceRef>,
    pub backend: Backend,
}

/// What one command does. `Play` resumes the instance if the handle
/// resolves, and else makes a new one from the source and takes its
/// reference as the handle. The others act on the instance if the handle
/// resolves and do nothing if it does not; they never make an instance.
pub open spec fn after_command(
    drain: Drain,
    source: SourceRef,
    setup: InstanceSetup,
    command: EmitterPlayerCommand,
) -> Drain {
    match command {
        EmitterPlayerCommand::Play(tween) => if drain.backend.resolves(drain.handle) {
            Drain { handle: drain.handle, backend: drain.backend.resumed(drain.handle, tween) }
        } else {
            Drain {
                handle: Some(drain.backend.next_ref()),
                backend: drain.backend.created(source, setup, tween),
            }
        },
        EmitterPlayerCommand::Resume(tween) => Drain {
            handle: drain.handle,
            backend: drain.backend.resumed(drain.handle, tween),
        },
        EmitterPlayerCommand::Pause(tween) => Drain {
            handle: drain.handle,
            backend: drain.backend.paused(drain.handle, tween),
        },
        EmitterPlayerCommand::Stop(tween) => Drain {
            handle: drain.handle,
            backend: drain.backend.stopped(drain.handle, tween),
        },
    }
}

/// What a queue of commands does, the first one first.
pub open spec fn after_commands(
    drain: Drain,
    source: SourceRef,
    setup: InstanceSetup,
    commands: Seq<EmitterPlayerCommand>,
) -> Drain
    decreases commands.len(),
{
    if commands.len() == 0 {
        drain
    } else {
        after_command(
            after_commands(drain, source, setup, commands.drop_last()),
            source,
            setup,
            commands.last(),
        )
    }
}

/// On an emitter without an instance, a pause, a play and a stop in this
/// order leave the emitter with a new instance that is stopping, and that
/// has stopped once the transition is over: the pause does nothing, the play
/// makes the instance, and the stop acts on it.
pub proof fn lemma_pause_play_stop(
    backend: Backend,
    source: SourceRef,
    setup: InstanceSetup,
    pause: AudioTween,
    play: AudioTween,
    stop: AudioTween,
)
    requires
        backend.slots.len() < usize::MAX,
    ensures
        ({
            let made = backend.next_ref();
            let end = after_commands(
                Drain { handle: None, backend },
                source,
                setup,
                seq![
                    EmitterPlayerCommand::Pause(pause),
                    EmitterPlayerCommand::Play(play),
                    EmitterPlayerCommand::Stop(stop),
                ],
            );
            &&& end.handle == Some(made)
            &&& !backend.resolves(Some(made))
            &&& end.backend.state_of(end.handle) == Some(PlaybackState::Stopping)
            &&& PlaybackState::Stopping.settled() == PlaybackState::Stopped
            &&& end.backend.slots.len() == backend.slots.len() + 1
            &&& end.backend.outbox == backend.outbox.push(
                BackendCommand::Create { instance: made, source, setup, tween: play },
            ).push(BackendCommand::Stop { instance: made, tween: stop })
        }),
{
    let commands = seq![
        EmitterPlayerCommand::Pause(pause),
        EmitterPlayerCommand::Play(play),
        EmitterPlayerCommand::Stop(stop),
    ];
    let start = Drain { handle: None, backend };
    let two = commands.drop_last();
    let one = two.drop_last();
    assert(one.drop_last() =~= Seq::<EmitterPlayerCommand>::empty());
    assert(after_commands(start, source, setup, one.drop_last()) == start);
    assert(after_commands(start, source, setup, one) == start);
    let played = after_commands(start, source, setup, two);
    assert(played == after_command(start, source, setup, EmitterPlayerCommand::Play(play)));
    assert(played.backend.resolves(played.handle));
}

impl LoopAudioEmitter {
    /// An emitter of `source_handle` with nothing queued.
    pub fn new(source_handle: SourceRef, setup: InstanceSetup) -> (r: Self)
        ensures
            r@ == (LoopAudioEmitterView {
                source_handle,
                setup,
                pending: Seq::empty(),
                playback_state: None,
            }),
    {
        LoopAudioEmitter {
            source_handle,
            setup,
            pending_emitter_commands: Vec::new(),
            playback_state: None,
        }
    }

    /// Makes the emitter's instance from its source.
    fn setup_fn(&self, instances: &mut AudioInstances, tween: AudioTween) -> (instance: InstanceRef)
        ensures
            instance == old(instances)@.next_ref(),
            final(instances)@ == old(instances)@.created(self.source_handle, self.setup, tween),
    {
        instances.create(self.source_handle, self.setup, tween)
    }

    /// Plays: resumes the instance if there is one, else makes one.
    pub fn play_command(
        &self,
        tween: AudioTween,
        instance: &mut Option<InstanceRef>,
        instances: &mut AudioInstances,
    )
        ensures
            (Drain { handle: *final(instance), backend: final(instances)@ }) == after_command(
                Drain { handle: *old(instance), backend: old(instances)@ },
                self.source_handle,
                self.setup,
                EmitterPlayerCommand::Play(tween),
            ),
    {
        let mut is_new_instance_required = false;
        if instances.get(instance).is_some() {
            instances.resume(instance, tween);
        } else {
            is_new_instance_required = true;
        }
        if is_new_instance_required {
            *instance = Some(self.setup_fn(instances, tween));
        }
    }

    /// Resumes the instance if there is one; does nothing otherwise.
    pub fn resume_command(
        &self,
        tween: AudioTween,
        instance: &Option<InstanceRef>,
        instances: &mut AudioInstances,
    )
        ensures
            final(instances)@ == old(instances)@.resumed(*instance, tween),
    {
        instances.resume(instance, tween);
    }

    /// Pauses the instance if there is one; does nothing otherwise.
    pub fn pause_command(
        &self,
        tween: AudioTween,
        instance: &Option<InstanceRef>,
        instances: &mut AudioInstances,
    )
        ensures
            final(instances)@ == old(instances)@.paused(*instance, tween),
    {
        instances.pause(instance, tween);
    }

    /// Stops the instance if there is one; does nothing otherwise.
    pub fn stop_command(
        &self,
        tween: AudioTween,
        instance: &Option<InstanceRef>,
        instances: &mut AudioInstances,
    )
        ensures
            final(instances)@ == old(instances)@.stopped(*instance, tween),
    {
        instances.stop(instance, tween);
    }

    /// Carries out one command.
    pub fn process_command(
        &self,
        instance: &mut Option<InstanceRef>,
        command: EmitterPlayerCommand,
        instances: &mut AudioInstances,
    )
        ensures
            (Drain { handle: *final(instance), backend: final(instances)@ }) == after_command(
                Drain { handle: *old(instance), backend: old(instances)@ },
                self.source_handle,
                self.setup,
                command,
            ),
    {
        match command {
            EmitterPlayerCommand::Play(tween) => self.play_command(tween, instance, instances),
            EmitterPlayerCommand::Resume(tween) => self.resume_command(tween, instance, instances),
            EmitterPlayerCommand::Pause(tween) => self.pause_command(tween, instance, instances),
            EmitterPlayerCommand::Stop(tween) => self.stop_command(tween, instance, instances),
        }
    }

    /// Carries out the queued commands in the order in which they were
    /// given, and leaves the queue empty.
    pub fn process_commands(
        &mut self,
        instance: &mut Option<InstanceRef>,
        instances: &mut AudioInstances,
    )
        ensures
            (Drain { handle: *final(instance), backend: final(instances)@ }) == after_commands(
                Drain { handle: *old(instance), backend: old(instances)@ },
                old(self).source_handle,
                old(self).setup,
                old(self)@.pending,
            ),
            final(self)@ == (LoopAudioEmitterView { pending: Seq::empty(), ..old(self)@ }),
    {
        let mut commands: Vec<EmitterPlayerCommand> = Vec::new();
        std::mem::swap(&mut self.pending_emitter_commands, &mut commands);
        let ghost start = Drain { handle: *instance, backend: instances@ };
        let mut n: usize = 0;
        while n < commands.len()
            invariant
                n <= commands@.len(),
                self.source_handle == old(self).source_handle,
                self.setup == old(self).setup,
                self.playback_state == old(self).playback_state,
                self.pending_emitter_commands@ == Seq::<EmitterPlayerCommand>::empty(),
                (Drain { handle: *instance, backend: instances@ }) == after_commands(
                    start,
                    self.source_handle,
                    self.setup,
                    commands@.take(n as int),
                ),
            decreases commands@.len() - n,
        {
            proof {
                assert(commands@.take(n + 1).drop_last() =~= commands@.take(n as int));
            }
            self.process_command(instance, commands[n], instances);
            n = n + 1;
        }
        proof {
            assert(commands@.take(commands@.len() as int) =~= commands@);
        }
    }

    /// Queues a command to play.
    pub fn play(&mut self, tween: AudioTween)
        ensures
            final(self)@ == (LoopAudioEmitterView {
                pending: old(self)@.pending.push(EmitterPlayerCommand::Play(tween)),
                ..old(self)@
            }),
    {
        self.pending_emitter_commands.push(EmitterPlayerCommand::Play(tween));
    }

    /// Queues a command to resume.
    pub fn resume(&mut self, tween: AudioTween)
        ensures
            final(self)@ == (LoopAudioEmitterView {
                pending: old(self)@.pending.push(EmitterPlayerCommand::Resume(tween)),
                ..old(self)@
            }),
    {
        self.pending_emitter_commands.push(EmitterPlayerCommand::Resume(tween));
    }

    /// Queues a command to pause.
    pub fn pause(&mut self, tween: AudioTween)
        ensures
            final(self)@ == (LoopAudioEmitterView {
                pending: old(self)@.pending.push(EmitterPlayerCommand::Pause(tween)),
                ..old(self)@
            }),
    {
        self.pending_emitter_commands.push(EmitterPlayerCommand::Pause(tween));
    }

    /// Queues a command to stop.
    pub fn stop(&mut self, tween: AudioTween)
        ensures
            final(self)@ == (LoopAudioEmitterView {
                pending: old(self)@.pending.push(EmitterPlayerCommand::Stop(tween)),
                ..old(self)@
            }),
    {
        self.pending_emitter_commands.push(EmitterPlayerCommand::Stop(tween));
    }
}

/// One emitter in the world: where it is, the instance it plays, whether it
/// is removed once its sound is over, and its command queue if it loops.
pub struct AudioEmitter {
    pub position: Vec3,
    pub handle: AudioEmitterHandle,
    pub disposable: Option<DisposableAudioEmitter>,
    pub looping: Option<LoopAudioEmitter>,
}

/// The mathematical value of an [`AudioEmitter`].
pub ghost struct AudioEmitterView {
    pub position: Vec3,
    pub handle: AudioEmitterHandle,
    pub disposable: Option<DisposableAudioEmitter>,
    pub looping: Option<LoopAudioEmitterView>,
}

impl View for AudioEmitter {
    type V = AudioEmitterView;

    open spec fn view(&self) -> AudioEmitterView {
        AudioEmitterView {
            position: self.position,
            handle: self.handle,
            disposable: self.disposable,
            looping: match self.looping {
                Some(looping) => Some(looping@),
                None => None,
            },
        }
    }
}

/// The values of the emitters, in row order.
pub open spec fn emitter_views(emitters: Seq<AudioEmitter>) -> Seq<AudioEmitterView> {
    Seq::new(emitters.len(), |i: int| emitters[i]@)
}

impl AudioEmitter {
    /// An emitter that plays `instance` and is removed when that is over.
    pub fn disposable(instance: InstanceRef, position: Vec3) -> (r: Self)
        ensures
            r@ == (AudioEmitterView {
                position,
                handle: AudioEmitterHandle { instance: Some(instance) },
                disposable: Some(DisposableAudioEmitter {  }),
                looping: None,
            }),
    {
        AudioEmitter {
            position,
            handle: AudioEmitterHandle { instance: Some(instance) },
            disposable: Some(DisposableAudioEmitter {  }),
            looping: None,
        }
    }

    /// An emitter that loops `source_handle` on command and plays nothing
    /// yet.
    pub fn looping(source_handle: SourceRef, setup: InstanceSetup, position: Vec3) -> (r: Self)
        ensures
            r@ == (AudioEmitterView {
                position,
                handle: AudioEmitterHandle { instance: None },
                disposable: None,
                looping: Some(
                    LoopAudioEmitterView {
                        source_handle,
                        setup,
                        pending: Seq::empty(),
                        playback_state: None,
                    },
                ),
            }),
    {
        AudioEmitter {
            position,
            handle: AudioEmitterHandle { instance: None },
            disposable: None,
            looping: Some(LoopAudioEmitter::new(source_handle, setup)),
        }
    }
}

impl AudioEmitterView {
    /// The handle and the backend after this emitter's queue has been
    /// processed; both as they were for an emitter without a queue.
    pub open spec fn drained(self, backend: Backend) -> Drain {
        match self.looping {
            Some(looping) => after_commands(
                Drain { handle: self.handle.instance, backend },
                looping.source_handle,
                looping.setup,
                looping.pending,
            ),
            None => Drain { handle: self.handle.instance, backend },
        }
    }

    /// The emitter after its queue has been processed against `backend`: it
    /// holds the handle that the commands left, its queue is empty, and its
    /// playback state is that of its instance, or none if the handle does
    /// not resolve.
    pub open spec fn after_processing(self, backend: Backend) -> AudioEmitterView {
        match self.looping {
            Some(looping) => AudioEmitterView {
                handle: AudioEmitterHandle { instance: self.drained(backend).handle },
                looping: Some(
                    LoopAudioEmitterView {
                        pending: Seq::empty(),
                        playback_state: self.drained(backend).backend.state_of(
                            self.drained(backend).handle,
                        ),
                        ..looping
                    },
                ),
                ..self
            },
            None => self,
        }
    }

    /// Whether the emitter is to be removed: it is disposable, and its
    /// instance has stopped or does not resolve.
    pub open spec fn finished(self, backend: Backend) -> bool {
        &&& self.disposable is Some
        &&& match backend.state_of(self.handle.instance) {
            Some(state) => state == PlaybackState::Stopped,
            None => true,
        }
    }
}

/// The backend after the queues of `emitters` have been processed, one
/// emitter after the other.
pub open spec fn backend_after(backend: Backend, emitters: Seq<AudioEmitterView>) -> Backend
    decreases emitters.len(),
{
    if emitters.len() == 0 {
        backend
    } else {
        emitters.last().drained(backend_after(backend, emitters.drop_last())).backend
    }
}

/// Processes the command queue of every looping emitter, in row order, and
/// then notes on the emitter what its instance is doing.
pub fn handle_emitter_audio_commands(
    emitters: &mut Table<AudioEmitter>,
    instances: &mut AudioInstances,
)
    requires
        old(emitters).wf(),
    ensures
        final(emitters).wf(),
        final(emitters).keys() == old(emitters).keys(),
        final(emitters).values().len() == old(emitters).values().len(),
        final(instances)@ == backend_after(old(instances)@, emitter_views(old(emitters).values())),
        forall|i: int|
            0 <= i < old(emitters).values().len() ==> (#[trigger] final(emitters).values()[i])@
                == old(emitters).values()[i]@.after_processing(
                backend_after(old(instances)@, emitter_views(old(emitters).values()).take(i)),
            ),
{
    let ghost views0 = emitter_views(emitters.values());
    let ghost backend0 = instances@;
    let total: usize = emitters.len();
    let mut i: usize = 0;
    while i < total
        invariant
            emitters.wf(),
            emitters.keys() == old(emitters).keys(),
            views0 == emitter_views(old(emitters).values()),
            backend0 == old(instances)@,
            emitters.values().len() == total,
            views0.len() == total,
            i <= total,
            instances@ == backend_after(backend0, views0.take(i as int)),
            forall|j: int|
                0 <= j < i ==> (#[trigger] emitters.values()[j])@ == views0[j].after_processing(
                    backend_after(backend0, views0.take(j)),
                ),
            forall|j: int| i <= j < total ==> (#[trigger] emitters.values()[j])@ == views0[j],
        decreases total - i,
    {
        proof {
            assert(views0.take(i + 1).drop_last() =~= views0.take(i as int));
            assert(views0.take(i + 1).last() == views0[i as int]);
        }
        let vacant = AudioEmitter {
            position: Vec3::zero(),
            handle: AudioEmitterHandle { instance: None },
            disposable: None,
            looping: None,
        };
        let taken = emitters.replace_at(i, vacant);
        assert(taken@ == views0[i as int]);
        let AudioEmitter { position, handle, disposable, looping } = taken;
        let updated = match looping {
            Some(mut queue) => {
                let mut instance = handle.instance;
                queue.process_commands(&mut instance, instances);
                queue.playback_state = instances.state(&instance);
                AudioEmitter {
                    position,
                    handle: AudioEmitterHandle { instance },
                    disposable,
                    looping: Some(queue),
                }
            },
            None => AudioEmitter { position, handle, disposable, looping: None },
        };
        assert(updated@ == views0[i as int].after_processing(
            backend_after(backend0, views0.take(i as int)),
        ));
        let _vacant = emitters.replace_at(i, updated);
        i = i + 1;
    }
    proof {
        assert(views0.take(total as int) =~= views0);
    }
}

/// A disposable emitter whose instance has stopped, or whose handle does not
/// resolve, is to be removed; one whose instance is in any other state is
/// not, and neither is an emitter that is not disposable.
pub proof fn lemma_finished_means_stopped_or_gone(emitter: AudioEmitterView, backend: Backend)
    ensures
        emitter.disposable is Some && backend.state_of(emitter.handle.instance) == Some(
            PlaybackState::Stopped,
        ) ==> emitter.finished(backend),
        emitter.disposable is Some && !backend.resolves(emitter.handle.instance)
            ==> emitter.finished(backend),
        backend.state_of(emitter.handle.instance) is Some && backend.state_of(
            emitter.handle.instance,
        ) != Some(PlaybackState::Stopped) ==> !emitter.finished(backend),
        emitter.disposable is None ==> !emitter.finished(backend),
{
}

/// For each emitter, whether it is to be removed.
pub open spec fn finished_marks(emitters: Seq<AudioEmitter>, backend: Backend) -> Seq<bool> {
    Seq::new(emitters.len(), |i: int| emitters[i]@.finished(backend))
}

/// Removes every disposable emitter whose instance has stopped or does not
/// resolve, and hands back the removed entities in row order. An emitter
/// whose instance is queued, plays, pauses, is paused or is stopping stays,
/// and so does every emitter that is not disposable.
pub fn cleanup_spatial_audio(emitters: &mut Table<AudioEmitter>, instances: &AudioInstances) -> (removed:
    Vec<Entity>)
    requires
        old(emitters).wf(),
    ensures
        final(emitters).wf(),
        final(emitters).keys() == pick(
            old(emitters).keys(),
            finished_marks(old(emitters).values(), instances@),
            false,
        ),
        final(emitters).values() == pick(
            old(emitters).values(),
            finished_marks(old(emitters).values(), instances@),
            false,
        ),
        removed@ == pick(
            old(emitters).keys(),
            finished_marks(old(emitters).values(), instances@),
            true,
        ),
        removed@.no_duplicates(),
        forall|i: int|
            0 <= i < old(emitters).keys().len() ==> (old(emitters).values()[i]@.finished(
                instances@,
            ) <==> removed@.contains(#[trigger] old(emitters).keys()[i])),
        forall|i: int|
            0 <= i < old(emitters).keys().len() ==> #[trigger] final(emitters).lookup(
                old(emitters).keys()[i],
            ) == if old(emitters).values()[i]@.finished(instances@) {
                None
            } else {
                Some(old(emitters).values()[i])
            },
{
    let mut marks: Vec<bool> = Vec::new();
    let total: usize = emitters.len();
    let mut i: usize = 0;
    while i < total
        invariant
            emitters.wf(),
            total == emitters.values().len(),
            i <= total,
            marks@.len() == i,
            forall|j: int| 0 <= j < i ==> marks@[j] == emitters.values()[j]@.finished(instances@),
        decreases total - i,
    {
        let emitter = emitters.value_at(i);
        let mut should_despawn = false;
        if emitter.disposable.is_some() {
            match instances.state(&emitter.handle.instance) {
                Some(PlaybackState::Stopped) => {
                    should_despawn = true;
                },
                Some(_) => {},
                None => {
                    should_despawn = true;
                },
            }
        }
        marks.push(should_despawn);
        i = i + 1;
    }
    assert(marks@ =~= finished_marks(emitters.values(), instances@));
    emitters.remove_marked(&marks)
}

} // verus!

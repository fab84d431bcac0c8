//! The instances of the audio backend, as the rules keep track of them.
//!
//! The backend itself is outside. [`AudioInstances`] is the record that the
//! rules keep of it: the state in which each instance is expected to be,
//! which [`AudioInstances::observe`] corrects by what the backend reports,
//! and the commands that the backend has yet to be given.

use vstd::prelude::*;

verus! {

/// The panning of a sound that is heard equally on both sides.
pub const CENTRE: i64 = 500_000;

/// A reference to a sound that can be played.
#[derive(Clone, Copy, Debug, PartialEq, Eq, Structural, Hash)]
pub struct SourceRef {
    pub id: u64,
}

/// A reference to an instance of the audio backend. It may cease to resolve
/// at any time, which is never an error.
#[derive(Clone, Copy, Debug, PartialEq, Eq, Structural, Hash)]
pub struct InstanceRef {
    pub index: usize,
}

/// What an instance is doing.
#[derive(Clone, Copy, Debug, PartialEq, Eq, Structural)]
pub enum PlaybackState {
    Queued,
    Playing,
    Pausing,
    Paused,
    Stopping,
    Stopped,
}

impl PlaybackState {
    /// The state after a request to resume: an instance that pauses or is
    /// paused plays again.
    pub open spec fn resumed(self) -> PlaybackState {
        match self {
            PlaybackState::Pausing | PlaybackState::Paused => PlaybackState::Playing,
            other => other,
        }
    }

    /// The state after a request to pause: an instance that plays begins to
    /// pause.
    pub open spec fn paused(self) -> PlaybackState {
        match self {
            PlaybackState::Playing => PlaybackState::Pausing,
            other => other,
        }
    }

    /// The state after a request to stop: every instance that has not
    /// stopped begins to.
    pub open spec fn stopped(self) -> PlaybackState {
        match self {
            PlaybackState::Stopped => PlaybackState::Stopped,
            _ => PlaybackState::Stopping,
        }
    }

    /// The state once a transition is over: what was pausing is paused, what
    /// was stopping has stopped.
    pub open spec fn settled(self) -> PlaybackState {
        match self {
            PlaybackState::Pausing => PlaybackState::Paused,
            PlaybackState::Stopping => PlaybackState::Stopped,
            other => other,
        }
    }

    /// Executable form of [`Self::resumed`].
    pub fn resume(self) -> (r: PlaybackState)
        ensures
            r == self.resumed(),
    {
        match self {
            PlaybackState::Pausing => PlaybackState::Playing,
            PlaybackState::Paused => PlaybackState::Playing,
            other => other,
        }
    }

    /// Executable form of [`Self::paused`].
    pub fn pause(self) -> (r: PlaybackState)
        ensures
            r == self.paused(),
    {
        match self {
            PlaybackState::Playing => PlaybackState::Pausing,
            other => other,
        }
    }

    /// Executable form of [`Self::stopped`].
    pub fn stop(self) -> (r: PlaybackState)
        ensures
            r == self.stopped(),
    {
        match self {
            PlaybackState::Stopped => PlaybackState::Stopped,
            _ => PlaybackState::Stopping,
        }
    }

    /// Executable form of [`Self::settled`].
    pub fn settle(self) -> (r: PlaybackState)
        ensures
            r == self.settled(),
    {
        match self {
            PlaybackState::Pausing => PlaybackState::Paused,
            PlaybackState::Stopping => PlaybackState::Stopped,
            other => other,
        }
    }
}

/// How long a transition takes, in microseconds.
#[derive(Clone, Copy, Debug, PartialEq, Eq, Structural)]
pub struct AudioTween {
    pub duration: u64,
}

impl Default for AudioTween {
    /// The transition that is as good as immediate: ten milliseconds.
    fn default() -> (r: Self)
        ensures
            r.duration == 10_000,
    {
        AudioTween { duration: 10_000 }
    }
}

/// How an emitter's instance is made from its source: whether it loops, and
/// at which volume, in fixed-point steps.
#[derive(Clone, Copy, Debug, PartialEq, Eq, Structural)]
pub struct InstanceSetup {
    pub looped: bool,
    pub volume: i64,
}

/// One instance as the rules see it.
#[derive(Clone, Copy, Debug, PartialEq, Eq, Structural)]
pub struct AudioInstance {
    pub source: SourceRef,
    pub state: PlaybackState,
    pub looped: bool,
    /// From 0, silent, to [`crate::fixed::SCALE`], full.
    pub volume: i64,
    /// From 0, left, to [`crate::fixed::SCALE`], right.
    pub panning: i64,
}

/// What the audio backend is asked to do.
#[derive(Clone, Copy, Debug, PartialEq, Eq, Structural)]
pub enum BackendCommand {
    Create { instance: InstanceRef, source: SourceRef, setup: InstanceSetup, tween: AudioTween },
    Resume { instance: InstanceRef, tween: AudioTween },
    Pause { instance: InstanceRef, tween: AudioTween },
    Stop { instance: InstanceRef, tween: AudioTween },
    SetVolume { instance: InstanceRef, volume: i64, tween: AudioTween },
    SetPanning { instance: InstanceRef, panning: i64, tween: AudioTween },
}

/// The instances of the audio backend as the rules know them, and the
/// commands that the backend has yet to be given. An instance keeps its
/// place for good; a place is empty once the backend has let the instance
/// go.
pub struct AudioInstances {
    pub slots: Vec<Option<AudioInstance>>,
    pub outbox: Vec<BackendCommand>,
}

/// The mathematical value of [`AudioInstances`].
pub ghost struct Backend {
    pub slots: Seq<Option<AudioInstance>>,
    pub outbox: Seq<BackendCommand>,
}

impl View for AudioInstances {
    type V = Backend;

    open spec fn view(&self) -> Backend {
        Backend { slots: self.slots@, outbox: self.outbox@ }
    }
}

impl Backend {
    /// Whether `handle` refers to an instance that the backend still has.
    pub open spec fn resolves(self, handle: Option<InstanceRef>) -> bool {
        &&& handle is Some
        &&& handle->Some_0.index < self.slots.len()
        &&& self.slots[handle->Some_0.index as int] is Some
    }

    /// The instance that `handle` refers to, if it resolves.
    pub open spec fn resolve(self, handle: Option<InstanceRef>) -> Option<AudioInstance> {
        if self.resolves(handle) {
            self.slots[handle->Some_0.index as int]
        } else {
            None
        }
    }

    /// The state of the instance that `handle` refers to, if it resolves.
    pub open spec fn state_of(self, handle: Option<InstanceRef>) -> Option<PlaybackState> {
        match self.resolve(handle) {
            Some(instance) => Some(instance.state),
            None => None,
        }
    }

    /// The reference that the next new instance gets.
    pub open spec fn next_ref(self) -> InstanceRef {
        InstanceRef { index: self.slots.len() as usize }
    }

    /// The backend with `updated` in the place of `instance`, and `command`
    /// added to what it has yet to be given.
    pub open spec fn with(
        self,
        instance: InstanceRef,
        updated: AudioInstance,
        command: BackendCommand,
    ) -> Backend {
        Backend {
            slots: self.slots.update(instance.index as int, Some(updated)),
            outbox: self.outbox.push(command),
        }
    }

    /// The backend after a new instance of `source` has been made: it plays.
    pub open spec fn created(self, source: SourceRef, setup: InstanceSetup, tween: AudioTween) -> Backend {
        Backend {
            slots: self.slots.push(
                Some(
                    AudioInstance {
                        source,
                        state: PlaybackState::Playing,
                        looped: setup.looped,
                        volume: setup.volume,
                        panning: CENTRE,
                    },
                ),
            ),
            outbox: self.outbox.push(
                BackendCommand::Create { instance: self.next_ref(), source, setup, tween },
            ),
        }
    }

    /// The backend after the instance of `handle` was asked to resume;
    /// unchanged where the handle does not resolve.
    pub open spec fn resumed(self, handle: Option<InstanceRef>, tween: AudioTween) -> Backend {
        match self.resolve(handle) {
            Some(instance) => self.with(
                handle->Some_0,
                AudioInstance { state: instance.state.resumed(), ..instance },
                BackendCommand::Resume { instance: handle->Some_0, tween },
            ),
            None => self,
        }
    }

    /// The backend after the instance of `handle` was asked to pause;
    /// unchanged where the handle does not resolve.
    pub open spec fn paused(self, handle: Option<InstanceRef>, tween: AudioTween) -> Backend {
        match self.resolve(handle) {
            Some(instance) => self.with(
                handle->Some_0,
                AudioInstance { state: instance.state.paused(), ..instance },
                BackendCommand::Pause { instance: handle->Some_0, tween },
            ),
            None => self,
        }
    }

    /// The backend after the instance of `handle` was asked to stop;
    /// unchanged where the handle does not resolve.
    pub open spec fn stopped(self, handle: Option<InstanceRef>, tween: AudioTween) -> Backend {
        match self.resolve(handle) {
            Some(instance) => self.with(
                handle->Some_0,
                AudioInstance { state: instance.state.stopped(), ..instance },
                BackendCommand::Stop { instance: handle->Some_0, tween },
            ),
            None => self,
        }
    }

    /// The backend after the volume of the instance of `handle` was set;
    /// unchanged where the handle does not resolve.
    pub open spec fn with_volume(self, handle: Option<InstanceRef>, volume: i64, tween: AudioTween) -> Backend {
        match self.resolve(handle) {
            Some(instance) => self.with(
                handle->Some_0,
                AudioInstance { volume, ..instance },
                BackendCommand::SetVolume { instance: handle->Some_0, volume, tween },
            ),
            None => self,
        }
    }

    /// The backend after the panning of the instance of `handle` was set;
    /// unchanged where the handle does not resolve.
    pub open spec fn with_panning(
        self,
        handle: Option<InstanceRef>,
        panning: i64,
        tween: AudioTween,
    ) -> Backend {
        match self.resolve(handle) {
            Some(instance) => self.with(
                handle->Some_0,
                AudioInstance { panning, ..instance },
                BackendCommand::SetPanning { instance: handle->Some_0, panning, tween },
            ),
            None => self,
        }
    }
}

impl AudioInstances {
    /// No instance, and nothing to tell the backend.
    pub fn new() -> (r: Self)
        ensures
            r@.slots == Seq::<Option<AudioInstance>>::empty(),
            r@.outbox == Seq::<BackendCommand>::empty(),
    {
        AudioInstances { slots: Vec::new(), outbox: Vec::new() }
    }

    /// The instance that `handle` refers to, if it resolves.
    pub fn get(&self, handle: &Option<InstanceRef>) -> (r: Option<AudioInstance>)
        ensures
            r == self@.resolve(*handle),
    {
        match handle {
            Some(instance) => {
                if instance.index < self.slots.len() {
                    self.slots[instance.index]
                } else {
                    None
                }
            },
            None => None,
        }
    }

    /// The state of the instance that `handle` refers to, if it resolves.
    pub fn state(&self, handle: &Option<InstanceRef>) -> (r: Option<PlaybackState>)
        ensures
            r == self@.state_of(*handle),
    {
        match self.get(handle) {
            Some(instance) => Some(instance.state),
            None => None,
        }
    }

    /// Puts `updated` in the place of `instance` and notes `command` for the
    /// backend.
    fn put(&mut self, instance: InstanceRef, updated: AudioInstance, command: BackendCommand)
        requires
            instance.index < old(self)@.slots.len(),
        ensures
            final(self)@ == old(self)@.with(instance, updated, command),
    {
        self.slots.push(Some(updated));
        let _previous = self.slots.swap_remove(instance.index);
        self.outbox.push(command);
        assert(self.slots@ =~= old(self).slots@.update(instance.index as int, Some(updated)));
    }

    /// Makes a new instance of `source`, which plays, and hands back its
    /// reference.
    pub fn create(&mut self, source: SourceRef, setup: InstanceSetup, tween: AudioTween) -> (instance:
        InstanceRef)
        ensures
            instance == old(self)@.next_ref(),
            final(self)@ == old(self)@.created(source, setup, tween),
            final(self)@.resolves(Some(instance)),
            !old(self)@.resolves(Some(instance)),
    {
        let instance = InstanceRef { index: self.slots.len() };
        self.slots.push(
            Some(
                AudioInstance {
                    source,
                    state: PlaybackState::Playing,
                    looped: setup.looped,
                    volume: setup.volume,
                    panning: CENTRE,
                },
            ),
        );
        self.outbox.push(BackendCommand::Create { instance, source, setup, tween });
        instance
    }

    /// Asks the instance of `handle` to resume, if the handle resolves.
    pub fn resume(&mut self, handle: &Option<InstanceRef>, tween: AudioTween)
        ensures
            final(self)@ == old(self)@.resumed(*handle, tween),
    {
        match self.get(handle) {
            Some(instance) => {
                let at = handle.unwrap();
                self.put(
                    at,
                    AudioInstance { state: instance.state.resume(), ..instance },
                    BackendCommand::Resume { instance: at, tween },
                );
            },
            None => {},
        }
    }

    /// Asks the instance of `handle` to pause, if the handle resolves.
    pub fn pause(&mut self, handle: &Option<InstanceRef>, tween: AudioTween)
        ensures
            final(self)@ == old(self)@.paused(*handle, tween),
    {
        match self.get(handle) {
            Some(instance) => {
                let at = handle.unwrap();
                self.put(
                    at,
                    AudioInstance { state: instance.state.pause(), ..instance },
                    BackendCommand::Pause { instance: at, tween },
                );
            },
            None => {},
        }
    }

    /// Asks the instance of `handle` to stop, if the handle resolves.
    pub fn stop(&mut self, handle: &Option<InstanceRef>, tween: AudioTween)
        ensures
            final(self)@ == old(self)@.stopped(*handle, tween),
    {
        match self.get(handle) {
            Some(instance) => {
                let at = handle.unwrap();
                self.put(
                    at,
                    AudioInstance { state: instance.state.stop(), ..instance },
                    BackendCommand::Stop { instance: at, tween },
                );
            },
            None => {},
        }
    }

    /// Sets the volume of the instance of `handle`, if the handle resolves.
    pub fn set_volume(&mut self, handle: &Option<InstanceRef>, volume: i64, tween: AudioTween)
        ensures
            final(self)@ == old(self)@.with_volume(*handle, volume, tween),
    {
        match self.get(handle) {
            Some(instance) => {
                let at = handle.unwrap();
                self.put(
                    at,
                    AudioInstance { volume, ..instance },
                    BackendCommand::SetVolume { instance: at, volume, tween },
                );
            },
            None => {},
        }
    }

    /// Sets the panning of the instance of `handle`, if the handle resolves.
    pub fn set_panning(&mut self, handle: &Option<InstanceRef>, panning: i64, tween: AudioTween)
        ensures
            final(self)@ == old(self)@.with_panning(*handle, panning, tween),
    {
        match self.get(handle) {
            Some(instance) => {
                let at = handle.unwrap();
                self.put(
                    at,
                    AudioInstance { panning, ..instance },
                    BackendCommand::SetPanning { instance: at, panning, tween },
                );
            },
            None => {},
        }
    }

    /// Records what the backend reports of an instance: its state, or that
    /// it has let the instance go. A reference that was never handed out is
    /// ignored.
    pub fn observe(&mut self, instance: InstanceRef, state: Option<PlaybackState>)
        ensures
            final(self)@.outbox == old(self)@.outbox,
            instance.index >= old(self)@.slots.len() ==> final(self)@.slots == old(self)@.slots,
            instance.index < old(self)@.slots.len() ==> final(self)@.slots == old(
                self,
            )@.slots.update(
                instance.index as int,
                match (state, old(self)@.slots[instance.index as int]) {
                    (Some(state), Some(known)) => Some(AudioInstance { state, ..known }),
                    _ => None,
                },
            ),
    {
        if instance.index < self.slots.len() {
            let updated = match (state, self.slots[instance.index]) {
                (Some(state), Some(known)) => Some(AudioInstance { state, ..known }),
                _ => None,
            };
            self.slots.push(updated);
            let _previous = self.slots.swap_remove(instance.index);
            assert(self.slots@ =~= old(self).slots@.update(instance.index as int, updated));
        }
    }

    /// Hands over the commands that the backend has yet to be given, in the
    /// order in which they were noted, and forgets them.
    pub fn take_commands(&mut self) -> (commands: Vec<BackendCommand>)
        ensures
            commands@ == old(self)@.outbox,
            final(self)@.outbox == Seq::<BackendCommand>::empty(),
            final(self)@.slots == old(self)@.slots,
    {
        let mut commands: Vec<BackendCommand> = Vec::new();
        std::mem::swap(&mut self.outbox, &mut commands);
        commands
    }
}

/// The volume of the sound of steps, in fixed-point steps.
pub const WALKING_VOLUME: i64 = 800_000;

/// Makes the instance of the sound of steps: it loops, at
/// [`WALKING_VOLUME`].
pub fn create_walking_audio_handle(source_handle: SourceRef, instances: &mut AudioInstances) -> (instance:
    InstanceRef)
    ensures
        instance == old(instances)@.next_ref(),
        final(instances)@ == old(instances)@.created(
            source_handle,
            InstanceSetup { looped: true, volume: WALKING_VOLUME },
            AudioTween { duration: 10_000 },
        ),
{
    instances.create(
        source_handle,
        InstanceSetup { looped: true, volume: WALKING_VOLUME },
        AudioTween::default(),
    )
}

} // verus!

//! The capture session lifecycle and the registry that holds at most one
//! session.
//!
//! The registry does no I/O. A start is made in two steps around the work of
//! the capture thread: [`SessionRegistry::reserve`] before the thread is
//! spawned, [`SessionRegistry::complete`] with what the thread reported. A
//! stop is made in two steps around the teardown: [`SessionRegistry::release`]
//! takes the session out, [`CaptureSession::finish`] turns what the thread
//! left behind into the result. [`SessionRegistry::start`] and
//! [`SessionRegistry::stop`] are the two operations as a whole.

use vstd::prelude::*;
use crate::device::{SetupFault, SetupFaultView, setup_error, setup_error_view};
use crate::error::{CaptureError, CaptureErrorView};
use crate::wav::{encodable, encode_wav_bytes, is_encoding_result};

verus! {

/// Where a session stands.
#[derive(Debug, Clone, Copy, PartialEq, Eq, Structural)]
pub enum SessionState {
    /// No session: nothing was started, or the last one has ended.
    Idle,
    /// The capture thread is setting the device up.
    Starting,
    /// The stream is running and frames are being captured.
    Recording,
    /// The session was taken out of the registry and is being torn down.
    Stopping,
    /// Setup failed. Nothing leads out of this state.
    Failed,
}

/// What moves a session from one state to the next.
#[derive(Debug, Clone, Copy, PartialEq, Eq, Structural)]
pub enum SessionEvent {
    /// A start was requested and accepted.
    StartRequested,
    /// The capture thread reported a running stream.
    StreamReady,
    /// The capture thread reported a setup fault, or ended without a report.
    SetupFailed,
    /// A stop was requested.
    StopRequested,
    /// The capture thread has ended and its samples were collected.
    WorkerJoined,
}

/// The state machine: the state that `event` leads to from `state`, or `None`
/// where the event is not allowed.
pub open spec fn next_state(state: SessionState, event: SessionEvent) -> Option<SessionState> {
    match (state, event) {
        (SessionState::Idle, SessionEvent::StartRequested) => Some(SessionState::Starting),
        (SessionState::Starting, SessionEvent::StreamReady) => Some(SessionState::Recording),
        (SessionState::Starting, SessionEvent::SetupFailed) => Some(SessionState::Failed),
        (SessionState::Recording, SessionEvent::StopRequested) => Some(SessionState::Stopping),
        (SessionState::Stopping, SessionEvent::WorkerJoined) => Some(SessionState::Idle),
        _ => None,
    }
}

/// The state that `event` leads to from `state`, or `None` where the event is
/// not allowed.
pub fn advance(state: SessionState, event: SessionEvent) -> (next: Option<SessionState>)
    ensures
        next == next_state(state, event),
{
    match (state, event) {
        (SessionState::Idle, SessionEvent::StartRequested) => Some(SessionState::Starting),
        (SessionState::Starting, SessionEvent::StreamReady) => Some(SessionState::Recording),
        (SessionState::Starting, SessionEvent::SetupFailed) => Some(SessionState::Failed),
        (SessionState::Recording, SessionEvent::StopRequested) => Some(SessionState::Stopping),
        (SessionState::Stopping, SessionEvent::WorkerJoined) => Some(SessionState::Idle),
        _ => None,
    }
}

/// What the capture thread reported after setting the device up.
#[derive(Debug, PartialEq, Eq)]
pub enum Handshake {
    /// The stream is running at this sample rate.
    Ready(u32),
    /// Setup failed.
    Failed(SetupFault),
    /// The thread ended without reporting anything.
    Lost,
}

/// A [`Handshake`] with the fault's texts as sequences of characters.
pub enum HandshakeView {
    Ready(u32),
    Failed(SetupFaultView),
    Lost,
}

impl View for Handshake {
    type V = HandshakeView;

    open spec fn view(&self) -> HandshakeView {
        match self {
            Handshake::Ready(rate) => HandshakeView::Ready(*rate),
            Handshake::Failed(fault) => HandshakeView::Failed(fault@),
            Handshake::Lost => HandshakeView::Lost,
        }
    }
}

/// How the capture thread ended.
#[derive(Debug, Clone, Copy, PartialEq, Eq, Structural)]
pub enum WorkerExit {
    /// It ran to its end.
    Finished,
    /// It ended abnormally.
    Panicked,
}

/// The error that a handshake stands for, if it is not a success.
pub open spec fn handshake_error(handshake: HandshakeView) -> Option<CaptureErrorView> {
    match handshake {
        HandshakeView::Ready(_) => None,
        HandshakeView::Failed(fault) => Some(setup_error_view(fault)),
        HandshakeView::Lost => Some(
            CaptureErrorView::DeviceError("Native recorder thread failed to initialize."@),
        ),
    }
}

/// What a stop reports without asking the encoder: the fault, or `None` where
/// samples were captured and the encoder decides.
pub open spec fn teardown_fault(exit: WorkerExit, count: nat) -> Option<CaptureErrorView> {
    if exit == WorkerExit::Panicked {
        Some(CaptureErrorView::WorkerPanicked)
    } else if count == 0 {
        Some(CaptureErrorView::NoAudioCaptured)
    } else {
        None
    }
}

/// Whether `result` is what a teardown may report for a session at
/// `sample_rate` whose thread ended as `exit` and left `samples` behind.
pub open spec fn is_teardown_result(
    sample_rate: u32,
    exit: WorkerExit,
    samples: Seq<u32>,
    result: Result<Vec<u8>, CaptureError>,
) -> bool {
    match teardown_fault(exit, samples.len()) {
        Some(fault) => result matches Err(e) && e@ == fault,
        None => is_encoding_result(sample_rate, samples, result),
    }
}

/// One recording, from its start to its stop.
#[derive(Debug, Clone, Copy)]
pub struct CaptureSession {
    state: SessionState,
    sample_rate: u32,
}

impl CaptureSession {
    /// The state of the session.
    pub closed spec fn phase(&self) -> SessionState {
        self.state
    }

    /// The negotiated sample rate, once the session is recording.
    pub closed spec fn rate(&self) -> u32 {
        self.sample_rate
    }

    /// A session that has not been started.
    pub fn new() -> (session: CaptureSession)
        ensures
            session.phase() == SessionState::Idle,
            session.rate() == 0,
    {
        CaptureSession { state: SessionState::Idle, sample_rate: 0 }
    }

    /// The state of the session.
    pub fn state(&self) -> (state: SessionState)
        ensures
            state == self.phase(),
    {
        self.state
    }

    /// The negotiated sample rate; zero before the session is recording.
    pub fn sample_rate(&self) -> (rate: u32)
        ensures
            rate == self.rate(),
    {
        self.sample_rate
    }

    /// Takes the session from `Idle` to `Starting`.
    pub fn begin_start(&mut self)
        requires
            old(self).phase() == SessionState::Idle,
        ensures
            Some(final(self).phase()) == next_state(
                old(self).phase(),
                SessionEvent::StartRequested,
            ),
            final(self).rate() == old(self).rate(),
    {
        self.state = SessionState::Starting;
    }

    /// Takes the session out of `Starting` with what the capture thread
    /// reported: to `Recording` at the reported rate, or to `Failed` with the
    /// error that the report stands for.
    pub fn resolve(&mut self, handshake: Handshake) -> (r: Result<(), CaptureError>)
        requires
            old(self).phase() == SessionState::Starting,
        ensures
            match handshake@ {
                HandshakeView::Ready(rate) => {
                    &&& r is Ok
                    &&& final(self).phase() == SessionState::Recording
                    &&& final(self).rate() == rate
                },
                _ => {
                    &&& r matches Err(e) && Some(e@) == handshake_error(handshake@)
                    &&& final(self).phase() == SessionState::Failed
                    &&& final(self).rate() == old(self).rate()
                },
            },
            Some(final(self).phase()) == next_state(
                old(self).phase(),
                if handshake@ is Ready {
                    SessionEvent::StreamReady
                } else {
                    SessionEvent::SetupFailed
                },
            ),
    {
        match handshake {
            Handshake::Ready(rate) => {
                self.state = SessionState::Recording;
                self.sample_rate = rate;
                Ok(())
            },
            Handshake::Failed(fault) => {
                self.state = SessionState::Failed;
                Err(setup_error(fault))
            },
            Handshake::Lost => {
                self.state = SessionState::Failed;
                Err(
                    CaptureError::DeviceError(
                        String::from_str("Native recorder thread failed to initialize."),
                    ),
                )
            },
        }
    }

    /// Takes the session from `Recording` to `Stopping`.
    pub fn begin_stop(&mut self)
        requires
            old(self).phase() == SessionState::Recording,
        ensures
            Some(final(self).phase()) == next_state(
                old(self).phase(),
                SessionEvent::StopRequested,
            ),
            final(self).rate() == old(self).rate(),
    {
        self.state = SessionState::Stopping;
    }

    /// Ends a session that is `Stopping`, once the capture thread has been
    /// joined and the sample buffer drained.
    ///
    /// A thread that ended abnormally gives `WorkerPanicked`, whatever was
    /// captured. Otherwise an empty buffer gives `NoAudioCaptured`. Otherwise
    /// the samples are encoded at the session's rate, and the result is the
    /// encoder's.
    pub fn finish(&mut self, exit: WorkerExit, samples: &[u32]) -> (r: Result<
        Vec<u8>,
        CaptureError,
    >)
        requires
            old(self).phase() == SessionState::Stopping,
            teardown_fault(exit, samples@.len()) is None ==> encodable(
                old(self).rate(),
                samples@.len(),
            ),
        ensures
            is_teardown_result(old(self).rate(), exit, samples@, r),
            Some(final(self).phase()) == next_state(
                old(self).phase(),
                SessionEvent::WorkerJoined,
            ),
            final(self).rate() == old(self).rate(),
    {
        self.state = SessionState::Idle;
        match exit {
            WorkerExit::Panicked => Err(CaptureError::WorkerPanicked),
            WorkerExit::Finished => {
                if samples.len() == 0 {
                    Err(CaptureError::NoAudioCaptured)
                } else {
                    encode_wav_bytes(samples, self.sample_rate)
                }
            },
        }
    }
}

/// What a registry holds, as a value: the state of its slot and, while a
/// session is recording, the session's sample rate (zero otherwise).
pub struct RegistryModel {
    pub state: SessionState,
    pub sample_rate: u32,
}

/// The model of a registry with an empty slot.
pub open spec fn idle_registry() -> RegistryModel {
    RegistryModel { state: SessionState::Idle, sample_rate: 0 }
}

/// The registry after a start, as a whole, with `handshake` as the capture
/// thread's report.
pub open spec fn registry_after_start(before: RegistryModel, handshake: HandshakeView) -> RegistryModel {
    if before.state != SessionState::Idle {
        before
    } else {
        match handshake {
            HandshakeView::Ready(rate) => RegistryModel {
                state: SessionState::Recording,
                sample_rate: rate,
            },
            _ => idle_registry(),
        }
    }
}

/// What a start, as a whole, reports.
pub open spec fn start_verdict(before: RegistryModel, handshake: HandshakeView) -> Result<
    (),
    CaptureErrorView,
> {
    if before.state != SessionState::Idle {
        Err(CaptureErrorView::AlreadyRecording)
    } else {
        match handshake_error(handshake) {
            Some(e) => Err(e),
            None => Ok(()),
        }
    }
}

/// The registry after a stop: the slot is empty if a session was recording,
/// and as before otherwise.
pub open spec fn registry_after_stop(before: RegistryModel) -> RegistryModel {
    if before.state == SessionState::Recording {
        idle_registry()
    } else {
        before
    }
}

/// What a stop, as a whole, reports without asking the encoder: the fault, or
/// `None` where a recording session left samples behind and the encoder
/// decides.
pub open spec fn stop_fault(before: RegistryModel, exit: WorkerExit, count: nat) -> Option<
    CaptureErrorView,
> {
    if before.state != SessionState::Recording {
        Some(CaptureErrorView::NotRecording)
    } else {
        teardown_fault(exit, count)
    }
}

/// The slot that holds at most one session.
#[derive(Debug)]
pub struct SessionRegistry {
    slot: Option<CaptureSession>,
}

impl View for SessionRegistry {
    type V = RegistryModel;

    closed spec fn view(&self) -> RegistryModel {
        match self.slot {
            Some(session) => RegistryModel {
                state: session.state,
                sample_rate: session.sample_rate,
            },
            None => idle_registry(),
        }
    }
}

impl SessionRegistry {
    /// A held session is starting, with no rate yet, or recording.
    #[verifier::type_invariant]
    spec fn holds_live_session(self) -> bool {
        match self.slot {
            Some(session) => {
                ||| session.state == SessionState::Starting && session.sample_rate == 0
                ||| session.state == SessionState::Recording
            },
            None => true,
        }
    }

    /// What every registry satisfies: its slot is empty, or holds a session
    /// that is starting or recording.
    pub open spec fn is_valid(model: RegistryModel) -> bool {
        ||| model == idle_registry()
        ||| model.state == SessionState::Starting && model.sample_rate == 0
        ||| model.state == SessionState::Recording
    }

    /// A registry with an empty slot.
    pub fn new() -> (registry: SessionRegistry)
        ensures
            registry@ == idle_registry(),
    {
        SessionRegistry { slot: None }
    }

    /// The state of the slot: `Idle` when it is empty, the session's state
    /// otherwise.
    pub fn state(&self) -> (state: SessionState)
        ensures
            state == self@.state,
            Self::is_valid(self@),
    {
        proof {
            use_type_invariant(self);
        }
        match &self.slot {
            Some(session) => session.state(),
            None => SessionState::Idle,
        }
    }

    /// The sample rate of the recording session; `None` when no session is
    /// recording.
    pub fn sample_rate(&self) -> (rate: Option<u32>)
        ensures
            rate == if self@.state == SessionState::Recording {
                Some(self@.sample_rate)
            } else {
                None
            },
    {
        match &self.slot {
            Some(session) => {
                if session.state() == SessionState::Recording {
                    Some(session.sample_rate())
                } else {
                    None
                }
            },
            None => None,
        }
    }

    /// First step of a start: refuses with `AlreadyRecording` when the slot
    /// is taken, and otherwise puts a session that is `Starting` into it.
    pub fn reserve(&mut self) -> (r: Result<(), CaptureError>)
        ensures
            match r {
                Ok(()) => old(self)@ == idle_registry() && final(self)@ == (RegistryModel {
                    state: SessionState::Starting,
                    sample_rate: 0,
                }),
                Err(e) => old(self)@.state != SessionState::Idle && final(self)@ == old(self)@
                    && e@ == CaptureErrorView::AlreadyRecording,
            },
    {
        proof {
            use_type_invariant(&*self);
        }
        if self.slot.is_some() {
            return Err(CaptureError::AlreadyRecording);
        }
        let mut session = CaptureSession::new();
        session.begin_start();
        self.slot = Some(session);
        Ok(())
    }

    /// Second step of a start, with what the capture thread reported: the
    /// session records at the reported rate, or the slot is emptied and the
    /// error that the report stands for is returned.
    pub fn complete(&mut self, handshake: Handshake) -> (r: Result<(), CaptureError>)
        requires
            old(self)@.state == SessionState::Starting,
        ensures
            final(self)@ == registry_after_start(idle_registry(), handshake@),
            match r {
                Ok(()) => handshake_error(handshake@) is None,
                Err(e) => handshake_error(handshake@) == Some(e@),
            },
    {
        proof {
            use_type_invariant(&*self);
        }
        let mut session = self.slot.unwrap();
        match session.resolve(handshake) {
            Ok(()) => {
                self.slot = Some(session);
                Ok(())
            },
            Err(e) => {
                self.slot = None;
                Err(e)
            },
        }
    }

    /// First step of a stop: takes the recording session out of the slot and
    /// hands it over in state `Stopping`. Refuses with `NotRecording` when no
    /// session is recording, and leaves the slot as it is.
    pub fn release(&mut self) -> (r: Result<CaptureSession, CaptureError>)
        ensures
            final(self)@ == registry_after_stop(old(self)@),
            match r {
                Ok(session) => {
                    &&& old(self)@.state == SessionState::Recording
                    &&& session.phase() == SessionState::Stopping
                    &&& session.rate() == old(self)@.sample_rate
                },
                Err(e) => old(self)@.state != SessionState::Recording && e@
                    == CaptureErrorView::NotRecording,
            },
    {
        proof {
            use_type_invariant(&*self);
        }
        match self.slot {
            Some(mut session) => {
                if session.state() == SessionState::Recording {
                    self.slot = None;
                    session.begin_stop();
                    Ok(session)
                } else {
                    Err(CaptureError::NotRecording)
                }
            },
            None => Err(CaptureError::NotRecording),
        }
    }

    /// A start as a whole, with what the capture thread reports.
    ///
    /// Refused with `AlreadyRecording` while a session exists; the registry
    /// is then unchanged. Otherwise a running stream makes the session
    /// record at its rate, and a setup fault or a lost thread leaves the slot
    /// empty and is reported as a `DeviceError` or `UnsupportedFormat`.
    pub fn start(&mut self, handshake: Handshake) -> (r: Result<(), CaptureError>)
        ensures
            final(self)@ == registry_after_start(old(self)@, handshake@),
            match r {
                Ok(()) => start_verdict(old(self)@, handshake@) is Ok,
                Err(e) => start_verdict(old(self)@, handshake@) == Err::<(), CaptureErrorView>(
                    e@,
                ),
            },
    {
        match self.reserve() {
            Ok(()) => self.complete(handshake),
            Err(e) => Err(e),
        }
    }

    /// A stop as a whole, with how the capture thread ended and the samples
    /// it left behind.
    ///
    /// Refused with `NotRecording` while no session is recording; the
    /// registry is then unchanged. Otherwise the slot is emptied, whatever
    /// the result: `WorkerPanicked` for a thread that ended abnormally,
    /// `NoAudioCaptured` for an empty buffer, and else what the encoder gives
    /// for the samples at the session's rate.
    pub fn stop(&mut self, exit: WorkerExit, samples: &[u32]) -> (r: Result<Vec<u8>, CaptureError>)
        requires
            stop_fault(old(self)@, exit, samples@.len()) is None ==> encodable(
                old(self)@.sample_rate,
                samples@.len(),
            ),
        ensures
            final(self)@ == registry_after_stop(old(self)@),
            match stop_fault(old(self)@, exit, samples@.len()) {
                Some(fault) => r matches Err(e) && e@ == fault,
                None => is_teardown_result(old(self)@.sample_rate, exit, samples@, r),
            },
    {
        match self.release() {
            Ok(mut session) => session.finish(exit, samples),
            Err(e) => Err(e),
        }
    }
}

/// A start that follows a successful start is refused with
/// `AlreadyRecording`, whatever the capture thread would report, and leaves
/// the registry as the first start left it.
pub proof fn second_start_is_refused(
    before: RegistryModel,
    first: HandshakeView,
    second: HandshakeView,
)
    requires
        start_verdict(before, first) is Ok,
    ensures
        start_verdict(registry_after_start(before, first), second) == Err::<(), CaptureErrorView>(
            CaptureErrorView::AlreadyRecording,
        ),
        registry_after_start(registry_after_start(before, first), second) == registry_after_start(
            before,
            first,
        ),
{
}

/// A start succeeds exactly when the slot is empty and the capture thread
/// reports a running stream; the session then records at the reported rate.
pub proof fn start_succeeds_on_a_free_slot_and_a_running_stream(
    before: RegistryModel,
    handshake: HandshakeView,
)
    ensures
        start_verdict(before, handshake) is Ok <==> before.state == SessionState::Idle
            && handshake is Ready,
        start_verdict(before, handshake) is Ok ==> registry_after_start(before, handshake) == (
        RegistryModel { state: SessionState::Recording, sample_rate: handshake->Ready_0 }),
        start_verdict(before, handshake) is Err ==> registry_after_start(before, handshake).state
            == before.state || registry_after_start(before, handshake) == idle_registry(),
{
}

/// A stop that follows a stop is refused with `NotRecording`, whatever the
/// first one reported, and changes nothing.
pub proof fn second_stop_is_refused(before: RegistryModel, exit: WorkerExit, count: nat)
    ensures
        stop_fault(registry_after_stop(before), exit, count) == Some(
            CaptureErrorView::NotRecording,
        ),
        registry_after_stop(registry_after_stop(before)) == registry_after_stop(before),
{
}

/// A session that recorded no frame ends with `NoAudioCaptured` and no
/// bytes, at whatever rate it was started, and the slot is free afterwards.
pub proof fn empty_capture_is_reported(
    sample_rate: u32,
    result: Result<Vec<u8>, CaptureError>,
)
    requires
        is_teardown_result(sample_rate, WorkerExit::Finished, Seq::<u32>::empty(), result),
    ensures
        stop_fault(
            registry_after_start(idle_registry(), HandshakeView::Ready(sample_rate)),
            WorkerExit::Finished,
            0,
        ) == Some(CaptureErrorView::NoAudioCaptured),
        result matches Err(e) && e@ == CaptureErrorView::NoAudioCaptured,
        registry_after_stop(
            registry_after_start(idle_registry(), HandshakeView::Ready(sample_rate)),
        ) == idle_registry(),
{
}

/// A start that fails on the device leaves the slot empty, so that a later
/// start with a running stream succeeds. An unsupported encoding is reported
/// as `UnsupportedFormat` with the encoding's name.
pub proof fn failed_start_leaves_the_slot_free(fault: SetupFaultView, sample_rate: u32)
    ensures
        start_verdict(idle_registry(), HandshakeView::Failed(fault)) == Err::<
            (),
            CaptureErrorView,
        >(setup_error_view(fault)),
        fault matches SetupFaultView::UnsupportedFormat(name) ==> setup_error_view(fault)
            == CaptureErrorView::UnsupportedFormat(name),
        registry_after_start(idle_registry(), HandshakeView::Failed(fault)) == idle_registry(),
        registry_after_start(idle_registry(), HandshakeView::Lost) == idle_registry(),
        start_verdict(
            registry_after_start(idle_registry(), HandshakeView::Failed(fault)),
            HandshakeView::Ready(sample_rate),
        ) is Ok,
{
}

/// The registry never holds more than the one session its model shows: what
/// a start or a stop leaves behind is again a valid registry.
pub proof fn operations_keep_the_registry_valid(
    before: RegistryModel,
    handshake: HandshakeView,
)
    requires
        SessionRegistry::is_valid(before),
    ensures
        SessionRegistry::is_valid(registry_after_start(before, handshake)),
        SessionRegistry::is_valid(registry_after_stop(before)),
{
}

} // verus!

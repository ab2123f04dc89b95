//! Replacing the Stingers of a running project: resources are prepared while
//! the program goes on, installed between two frames, and the old ones are
//! handed to workers that take them down.

use vstd::prelude::*;

use crate::audio_playback::NativeStingerAudioPlayback;
use crate::model::StingerConfig;
use crate::project_plan::NativeProjectPlan;
use crate::source::NativeResolvedSource;
use crate::source_playback::NativeSourcePlayback;

verus! {

/// How many workers take resources down.
pub const RETIREMENT_WORKERS: usize = 2;

/// How many resources wait for a worker.
pub const RETIREMENT_QUEUE: usize = 2;

/// How many resources may be on their way down at a time.
pub const RETIREMENT_LIMIT: usize = 4;

/// Returns how many resources may be on their way down at a time.
pub fn retirement_limit_for_test() -> (limit: usize)
    ensures
        limit == RETIREMENT_WORKERS + RETIREMENT_QUEUE,
        limit == RETIREMENT_LIMIT,
{
    RETIREMENT_LIMIT
}

/// Where resources could not be handed over.
#[derive(Clone, Copy, Debug, PartialEq, Eq, Structural)]
pub enum RetirementError {
    AfterPreflight,
    DuringInstallation,
}

impl RetirementError {
    /// The text of the error.
    pub open spec fn text(self) -> Seq<char> {
        match self {
            RetirementError::AfterPreflight =>
                "native Stinger retirement capacity changed after preflight"@,
            RetirementError::DuringInstallation =>
                "native Stinger retirement capacity changed during installation"@,
        }
    }

    /// Returns the text of the error.
    pub fn message(&self) -> (message: &'static str)
        ensures
            message@ == self.text(),
    {
        match self {
            RetirementError::AfterPreflight =>
                "native Stinger retirement capacity changed after preflight",
            RetirementError::DuringInstallation =>
                "native Stinger retirement capacity changed during installation",
        }
    }
}

/// Resources on their way down: those that wait, and those in a worker's hands.
pub struct NativeStingerRetirements<R> {
    pub waiting: Vec<R>,
    pub working: usize,
    pub open: bool,
}

/// What is on its way down.
#[verifier::ext_equal]
pub struct RetirementsModel<R> {
    pub waiting: Seq<R>,
    pub working: nat,
    pub open: bool,
}

impl<R> View for NativeStingerRetirements<R> {
    type V = RetirementsModel<R>;

    open spec fn view(&self) -> RetirementsModel<R> {
        RetirementsModel {
            waiting: self.waiting@,
            working: self.working as nat,
            open: self.open,
        }
    }
}

impl<R> RetirementsModel<R> {
    /// Whether no more waits than the queue holds, and no more is being taken
    /// down than there are workers.
    pub open spec fn wf(self) -> bool {
        &&& self.waiting.len() <= RETIREMENT_QUEUE
        &&& self.working <= RETIREMENT_WORKERS
    }

    /// How many resources are on their way down.
    pub open spec fn pending(self) -> nat {
        self.waiting.len() + self.working
    }

    /// Whether one more may come.
    pub open spec fn accepts(self) -> bool {
        self.pending() < RETIREMENT_LIMIT
    }

    /// Whether the queue takes one more now.
    pub open spec fn has_room(self) -> bool {
        self.open && self.waiting.len() < RETIREMENT_QUEUE
    }

    /// What is on its way down once a resource was handed over, and whether it
    /// was taken.
    pub open spec fn retired(self, resource: R) -> (Self, Result<(), R>) {
        if self.has_room() {
            (RetirementsModel { waiting: self.waiting.push(resource), ..self }, Ok(()))
        } else {
            (self, Err(resource))
        }
    }

    /// What is on its way down once a worker has asked for work, and what it got.
    pub open spec fn taken(self) -> (Self, Option<R>) {
        if self.waiting.len() > 0 && self.working < RETIREMENT_WORKERS {
            (
                RetirementsModel {
                    waiting: self.waiting.drop_first(),
                    working: self.working + 1,
                    ..self
                },
                Some(self.waiting.first()),
            )
        } else {
            (self, None)
        }
    }

    /// What is on its way down once a worker has finished.
    pub open spec fn finished(self) -> Self {
        RetirementsModel { working: (self.working - 1) as nat, ..self }
    }
}

impl<R> NativeStingerRetirements<R> {
    /// Opens the queue.
    pub fn start() -> (retirements: Self)
        ensures
            retirements@.wf(),
            retirements@ == (RetirementsModel::<R> {
                waiting: Seq::empty(),
                working: 0,
                open: true,
            }),
    {
        NativeStingerRetirements { waiting: Vec::new(), working: 0, open: true }
    }

    /// Returns whether one more may come.
    pub fn can_accept(&self) -> (accepts: bool)
        requires
            self@.wf(),
        ensures
            accepts == self@.accepts(),
    {
        self.waiting.len() + self.working < RETIREMENT_LIMIT
    }

    /// Hands a resource over; a queue that is full or closed gives it back.
    pub fn retire(&mut self, retired: R) -> (result: Result<(), R>)
        requires
            old(self)@.wf(),
        ensures
            final(self)@.wf(),
            (final(self)@, result) == old(self)@.retired(retired),
    {
        if !self.open || self.waiting.len() >= RETIREMENT_QUEUE {
            return Err(retired);
        }
        self.waiting.push(retired);
        Ok(())
    }

    /// Gives a worker what has waited longest.
    pub fn take(&mut self) -> (resource: Option<R>)
        requires
            old(self)@.wf(),
        ensures
            final(self)@.wf(),
            (final(self)@, resource) == old(self)@.taken(),
    {
        if self.waiting.len() == 0 || self.working >= RETIREMENT_WORKERS {
            return None;
        }
        let resource = self.waiting.remove(0);
        self.working = self.working + 1;
        proof {
            assert(self.waiting@ =~= old(self)@.waiting.drop_first());
        }
        Some(resource)
    }

    /// Notes that a worker has taken its resource down.
    pub fn finish(&mut self)
        requires
            old(self)@.wf(),
            old(self)@.working > 0,
        ensures
            final(self)@.wf(),
            final(self)@ == old(self)@.finished(),
    {
        self.working = self.working - 1;
    }

    /// Closes the queue; what waits in it is still taken down.
    pub fn close(&mut self)
        requires
            old(self)@.wf(),
        ensures
            final(self)@.wf(),
            final(self)@ == (RetirementsModel { open: false, ..old(self)@ }),
    {
        self.open = false;
    }
}

/// What has to be taken down after a change of Stingers.
pub struct RetiredResources {
    pub stingers: NativeSourcePlayback,
    pub audio: NativeStingerAudioPlayback,
}

/// Prepared resources of a change of Stingers.
pub struct NativeStingerMutation {
    pub project_plan: NativeProjectPlan,
    pub stingers: NativeSourcePlayback,
    pub audio: NativeStingerAudioPlayback,
    pub ordinary_video_limit: u64,
}

impl NativeStingerRetirements<RetiredResources> {
    /// Hands over the resources of a change that will not be made.
    pub fn discard(&mut self, mutation: NativeStingerMutation) -> (result: Result<
        (),
        RetirementError,
    >)
        requires
            old(self)@.wf(),
        ensures
            final(self)@.wf(),
            final(self)@ == old(self)@.retired(
                RetiredResources { stingers: mutation.stingers, audio: mutation.audio },
            ).0,
            result == (if old(self)@.has_room() {
                Ok::<(), RetirementError>(())
            } else {
                Err(RetirementError::AfterPreflight)
            }),
    {
        let retired = RetiredResources { stingers: mutation.stingers, audio: mutation.audio };
        match self.retire(retired) {
            Ok(()) => Ok(()),
            Err(_) => Err(RetirementError::AfterPreflight),
        }
    }
}

/// The parts of a native program that a change of Stingers replaces.
pub struct NativeDaemon {
    /// How many bytes of frames the ordinary sources may hold.
    pub retained_byte_limit: u64,
    pub stingers: NativeSourcePlayback,
    pub stinger_audio: NativeStingerAudioPlayback,
    pub project_plan: NativeProjectPlan,
    pub stinger_retirements: NativeStingerRetirements<RetiredResources>,
    pub pending_stinger_mutation: Option<NativeStingerMutation>,
}

impl NativeDaemon {
    /// Keeps a prepared change until the next frame.
    pub fn stage_stinger_mutation(&mut self, mutation: NativeStingerMutation)
        requires
            old(self).pending_stinger_mutation is None,
        ensures
            *final(self) == (NativeDaemon {
                pending_stinger_mutation: Some(mutation),
                ..*old(self)
            }),
    {
        self.pending_stinger_mutation = Some(mutation);
    }

    /// Installs the change that is waiting, if there is one: the new parts
    /// take their places, and the old ones are handed over to be taken down.
    /// The new parts are in place even where the old ones were not taken.
    pub fn install_stinger_mutation(&mut self) -> (result: Result<(), RetirementError>)
        requires
            old(self).stinger_retirements@.wf(),
        ensures
            final(self).stinger_retirements@.wf(),
            final(self).pending_stinger_mutation is None,
            match old(self).pending_stinger_mutation {
                None => {
                    &&& result == Ok::<(), RetirementError>(())
                    &&& *final(self) == *old(self)
                },
                Some(mutation) => {
                    &&& final(self).retained_byte_limit == mutation.ordinary_video_limit
                    &&& final(self).stingers == mutation.stingers
                    &&& final(self).stinger_audio == mutation.audio
                    &&& final(self).project_plan == mutation.project_plan
                    &&& final(self).stinger_retirements@
                        == old(self).stinger_retirements@.retired(
                        RetiredResources {
                            stingers: old(self).stingers,
                            audio: old(self).stinger_audio,
                        },
                    ).0
                    &&& result == (if old(self).stinger_retirements@.has_room() {
                        Ok::<(), RetirementError>(())
                    } else {
                        Err(RetirementError::DuringInstallation)
                    })
                },
            },
    {
        let mutation = match self.pending_stinger_mutation.take() {
            None => {
                return Ok(());
            },
            Some(mutation) => mutation,
        };
        self.retained_byte_limit = mutation.ordinary_video_limit;
        let mut stingers = mutation.stingers;
        core::mem::swap(&mut self.stingers, &mut stingers);
        let mut audio = mutation.audio;
        core::mem::swap(&mut self.stinger_audio, &mut audio);
        self.project_plan = mutation.project_plan;
        match self.stinger_retirements.retire(RetiredResources { stingers, audio }) {
            Ok(()) => Ok(()),
            Err(_) => Err(RetirementError::DuringInstallation),
        }
    }
}

/// What the thread that prepares a change has to show.
#[derive(Clone, Copy, Debug, PartialEq, Eq, Structural)]
pub enum PreflightPoll {
    /// The resources are there; whether the ordinary sources can keep to the
    /// bytes that are left to them.
    Prepared { limit_fits: bool },
    /// They could not be prepared, or the thread is gone.
    Failed,
    /// Nothing yet.
    Waiting,
}

/// What to do while a change is being prepared.
#[derive(Clone, Copy, Debug, PartialEq, Eq, Structural)]
pub enum PreflightStep {
    /// Go on with the resources.
    Accept,
    /// Hand the resources over to be taken down, and refuse the change.
    DiscardAndRefuse,
    /// Refuse the change.
    Refuse,
    /// Give up, since the program is stopping.
    Stop,
    /// Run the frames that are due and look again.
    Tick,
}

/// Returns what to do while a change is being prepared. Resources that are
/// there are looked at before a request to stop.
pub fn preflight_step(poll: PreflightPoll, stopping: bool) -> (step: PreflightStep)
    ensures
        step == match poll {
            PreflightPoll::Prepared { limit_fits } => if limit_fits {
                PreflightStep::Accept
            } else {
                PreflightStep::DiscardAndRefuse
            },
            PreflightPoll::Failed => PreflightStep::Refuse,
            PreflightPoll::Waiting => if stopping {
                PreflightStep::Stop
            } else {
                PreflightStep::Tick
            },
        },
{
    match poll {
        PreflightPoll::Prepared { limit_fits } => {
            if limit_fits {
                PreflightStep::Accept
            } else {
                PreflightStep::DiscardAndRefuse
            }
        },
        PreflightPoll::Failed => PreflightStep::Refuse,
        PreflightPoll::Waiting => {
            if stopping {
                PreflightStep::Stop
            } else {
                PreflightStep::Tick
            }
        },
    }
}

/// Whether a source is a video file that a preloaded Stinger plays.
pub open spec fn plays_file(source: NativeResolvedSource, stingers: Seq<StingerConfig>) -> bool {
    source is LocalVideo && exists|i: int|
        0 <= i < stingers.len() && (#[trigger] stingers[i]).preload && stingers[i].media_input
            == source.source_input()
}

/// Returns whether a preloaded Stinger plays a video file, which takes a
/// codec to prepare.
pub fn native_stinger_requires_ffmpeg(
    stingers: &[StingerConfig],
    sources: &[NativeResolvedSource],
) -> (required: bool)
    ensures
        required == exists|s: int|
            0 <= s < sources@.len() && plays_file(#[trigger] sources@[s], stingers@),
{
    let mut index: usize = 0;
    while index < sources.len()
        invariant
            index <= sources.len(),
            forall|s: int| 0 <= s < index ==> !plays_file(#[trigger] sources@[s], stingers@),
        decreases sources.len() - index,
    {
        if let NativeResolvedSource::LocalVideo { input, .. } = &sources[index] {
            let mut config: usize = 0;
            while config < stingers.len()
                invariant
                    config <= stingers.len(),
                    index < sources.len(),
                    sources@[index as int] is LocalVideo,
                    *input == sources@[index as int].source_input(),
                    forall|i: int|
                        0 <= i < config ==> !((#[trigger] stingers@[i]).preload
                            && stingers@[i].media_input == *input),
                decreases stingers.len() - config,
            {
                if stingers[config].preload && stingers[config].media_input == *input {
                    proof {
                        assert(stingers@[config as int].preload);
                        assert(plays_file(sources@[index as int], stingers@));
                    }
                    return true;
                }
                config = config + 1;
            }
        }
        index = index + 1;
    }
    false
}

/// The text for a codec that is missing.
pub open spec fn codec_text() -> Seq<char> {
    "native Stinger preflight requires available codec capabilities"@
}

/// Returns why a change cannot be prepared: it takes a codec, of which both
/// tools have to be there.
pub fn codec_requirement(required: bool, ffmpeg: bool, ffprobe: bool) -> (result: Result<
    (),
    &'static str,
>)
    ensures
        result is Ok <==> !required || ffmpeg && ffprobe,
        result matches Err(message) ==> message@ == codec_text(),
{
    if required && !(ffmpeg && ffprobe) {
        Err("native Stinger preflight requires available codec capabilities")
    } else {
        Ok(())
    }
}

/// What the control made of a command.
#[derive(Clone, Copy, Debug, PartialEq, Eq, Structural)]
pub enum Preparation {
    /// The command came before, and its answer is known.
    Replayed,
    /// The command is new, and was accepted or not.
    Prepared { accepted: bool },
}

/// How far a change has come.
#[derive(Clone, Copy, Debug, PartialEq, Eq, Structural)]
pub enum TransactionStage {
    /// The command is to be prepared for the first time.
    First,
    /// The resources are being prepared.
    Preflight,
    /// The command is to be prepared again, since time has passed.
    Second,
    /// The two outcomes are to be compared.
    Compare,
    /// The change is to be saved, committed, staged and run.
    Commit,
    /// The command is answered.
    Done,
}

/// What to do next for a change.
#[derive(Clone, Copy, Debug, PartialEq, Eq, Structural)]
pub enum TransactionStep {
    /// Prepare the resources of the candidate.
    Preflight,
    /// Prepare the command again.
    PrepareAgain,
    /// Compare the candidate with the outcome of now.
    Compare,
    /// Answer as the command was answered before.
    Replay { discard: bool },
    /// Save and commit the rejection, and answer with it.
    PersistRejected { discard: bool },
    /// Answer that the resources could not be prepared; nothing is saved.
    Fail { discard: bool },
    /// Save, commit and stage the change, and run the next frame.
    Commit,
}

/// One command that changes the Stingers.
pub struct StingerTransaction<E> {
    pub stage: TransactionStage,
    /// Whether prepared resources are held.
    pub held: bool,
    /// What the program has told of itself since the command came.
    pub runtime_events: Vec<E>,
}

/// What is known of a command that changes the Stingers.
#[verifier::ext_equal]
pub struct TransactionModel<E> {
    pub stage: TransactionStage,
    pub held: bool,
    pub runtime_events: Seq<E>,
}

impl<E> View for StingerTransaction<E> {
    type V = TransactionModel<E>;

    open spec fn view(&self) -> TransactionModel<E> {
        TransactionModel {
            stage: self.stage,
            held: self.held,
            runtime_events: self.runtime_events@,
        }
    }
}

impl<E> TransactionModel<E> {
    /// Whether resources are held exactly between their preflight and the answer.
    pub open spec fn wf(self) -> bool {
        &&& self.held == (self.stage is Second || self.stage is Compare || self.stage is Commit)
        &&& self.stage is First ==> self.runtime_events.len() == 0
        &&& self.stage is Preflight ==> self.runtime_events.len() == 0
    }

    /// The answered command, with the events that go with the answer.
    pub open spec fn answered(self, runtime_events: Seq<E>) -> Self {
        TransactionModel { stage: TransactionStage::Done, held: false, runtime_events }
    }

    /// What comes of the command being prepared. A rejection that is found the
    /// second time is answered without the events.
    pub open spec fn prepared(self, preparation: Preparation) -> (Self, TransactionStep) {
        let discard = self.held;
        match preparation {
            Preparation::Replayed => (
                self.answered(self.runtime_events),
                TransactionStep::Replay { discard },
            ),
            Preparation::Prepared { accepted } => if !accepted {
                (self.answered(Seq::empty()), TransactionStep::PersistRejected { discard })
            } else if self.stage is First {
                (
                    TransactionModel { stage: TransactionStage::Preflight, ..self },
                    TransactionStep::Preflight,
                )
            } else {
                (
                    TransactionModel { stage: TransactionStage::Compare, ..self },
                    TransactionStep::Compare,
                )
            },
        }
    }

    /// What comes of the resources being prepared or not. A preflight that was
    /// given up told nothing.
    pub open spec fn preflighted(self, outcome: Option<(bool, Seq<E>)>) -> (
        Self,
        TransactionStep,
    ) {
        match outcome {
            None => (
                self.answered(Seq::empty()),
                TransactionStep::Fail { discard: false },
            ),
            Some((true, events)) => (
                TransactionModel {
                    stage: TransactionStage::Second,
                    held: true,
                    runtime_events: events,
                },
                TransactionStep::PrepareAgain,
            ),
            Some((false, events)) => (
                self.answered(events),
                TransactionStep::Fail { discard: false },
            ),
        }
    }

    /// What comes of comparing: the change is made only where the Stingers are
    /// those that were prepared for.
    pub open spec fn compared(
        self,
        candidate: Seq<StingerConfig>,
        updated: Seq<StingerConfig>,
        limit_fits: bool,
    ) -> (Self, TransactionStep) {
        if candidate == updated && limit_fits {
            (
                TransactionModel { stage: TransactionStage::Commit, ..self },
                TransactionStep::Commit,
            )
        } else {
            (self.answered(self.runtime_events), TransactionStep::Fail { discard: true })
        }
    }

    /// The answered command once the change was made.
    pub open spec fn realized(self, events: Seq<E>) -> Self {
        self.answered(self.runtime_events + events)
    }
}

/// Returns whether two lists of Stingers are the same.
pub fn same_stingers(candidate: &[StingerConfig], updated: &[StingerConfig]) -> (same: bool)
    ensures
        same == (candidate@ == updated@),
{
    if candidate.len() != updated.len() {
        return false;
    }
    let mut index: usize = 0;
    while index < candidate.len()
        invariant
            index <= candidate.len(),
            candidate.len() == updated.len(),
            forall|i: int| 0 <= i < index ==> candidate@[i] == updated@[i],
        decreases candidate.len() - index,
    {
        if candidate[index] != updated[index] {
            return false;
        }
        index = index + 1;
    }
    proof {
        assert(candidate@ =~= updated@);
    }
    true
}

impl<E> StingerTransaction<E> {
    /// A command that has just come.
    pub fn new() -> (transaction: Self)
        ensures
            transaction@.wf(),
            transaction@ == (TransactionModel::<E> {
                stage: TransactionStage::First,
                held: false,
                runtime_events: Seq::empty(),
            }),
    {
        StingerTransaction {
            stage: TransactionStage::First,
            held: false,
            runtime_events: Vec::new(),
        }
    }

    /// Takes in what the control made of the command.
    pub fn prepared(&mut self, preparation: Preparation) -> (step: TransactionStep)
        requires
            old(self)@.wf(),
            old(self)@.stage is First || old(self)@.stage is Second,
        ensures
            final(self)@.wf(),
            (final(self)@, step) == old(self)@.prepared(preparation),
    {
        let discard = self.held;
        match preparation {
            Preparation::Replayed => {
                self.stage = TransactionStage::Done;
                self.held = false;
                TransactionStep::Replay { discard }
            },
            Preparation::Prepared { accepted } => {
                if !accepted {
                    self.stage = TransactionStage::Done;
                    self.held = false;
                    self.runtime_events = Vec::new();
                    return TransactionStep::PersistRejected { discard };
                }
                match self.stage {
                    TransactionStage::First => {
                        self.stage = TransactionStage::Preflight;
                        TransactionStep::Preflight
                    },
                    _ => {
                        self.stage = TransactionStage::Compare;
                        TransactionStep::Compare
                    },
                }
            },
        }
    }

    /// Takes in whether the resources were prepared, with what the program has
    /// told meanwhile; a preflight that was given up has nothing to show.
    pub fn preflighted(&mut self, outcome: Option<(bool, Vec<E>)>) -> (step: TransactionStep)
        requires
            old(self)@.wf(),
            old(self)@.stage is Preflight,
        ensures
            final(self)@.wf(),
            (final(self)@, step) == old(self)@.preflighted(
                match outcome {
                    None => None,
                    Some((prepared, events)) => Some((prepared, events@)),
                },
            ),
    {
        match outcome {
            None => {
                self.stage = TransactionStage::Done;
                self.runtime_events = Vec::new();
                TransactionStep::Fail { discard: false }
            },
            Some((prepared, events)) => {
                self.runtime_events = events;
                if prepared {
                    self.stage = TransactionStage::Second;
                    self.held = true;
                    TransactionStep::PrepareAgain
                } else {
                    self.stage = TransactionStage::Done;
                    TransactionStep::Fail { discard: false }
                }
            },
        }
    }

    /// Compares the Stingers that were prepared for with those of now.
    pub fn compared(
        &mut self,
        candidate: &[StingerConfig],
        updated: &[StingerConfig],
        limit_fits: bool,
    ) -> (step: TransactionStep)
        requires
            old(self)@.wf(),
            old(self)@.stage is Compare,
        ensures
            final(self)@.wf(),
            (final(self)@, step) == old(self)@.compared(candidate@, updated@, limit_fits),
    {
        if same_stingers(candidate, updated) && limit_fits {
            self.stage = TransactionStage::Commit;
            TransactionStep::Commit
        } else {
            self.stage = TransactionStage::Done;
            self.held = false;
            TransactionStep::Fail { discard: true }
        }
    }

    /// Takes in what the program told while the change was made.
    pub fn realized(&mut self, events: Vec<E>)
        requires
            old(self)@.wf(),
            old(self)@.stage is Commit,
        ensures
            final(self)@.wf(),
            final(self)@ == old(self)@.realized(events@),
    {
        let mut events = events;
        self.runtime_events.append(&mut events);
        self.stage = TransactionStage::Done;
        self.held = false;
    }

    /// Ends the command and returns the events that go with its answer.
    pub fn into_events(self) -> (events: Vec<E>)
        requires
            self@.stage is Done,
        ensures
            events@ == self@.runtime_events,
    {
        self.runtime_events
    }
}

/// Why a command was rejected.
#[derive(Clone, Copy, Debug, PartialEq, Eq, Structural)]
pub enum RejectionCode {
    Unavailable,
}

/// An answer that rejects a command.
#[derive(Debug)]
pub struct RejectedCommand {
    pub id: String,
    pub code: RejectionCode,
    pub message: String,
    pub fields: Vec<String>,
    pub current_revision: u64,
    pub retryable: bool,
}

/// A change that could not be prepared.
pub struct NativeMutationFailure<E> {
    pub result: RejectedCommand,
    pub runtime_events: Vec<E>,
}

/// The text for a change that could not be prepared. It names no file.
pub open spec fn failure_text() -> Seq<char> {
    "native Stinger resources could not be prepared"@
}

/// Makes the answer to a command whose resources could not be prepared.
pub fn preflight_failure<E>(
    command: String,
    current_revision: u64,
    runtime_events: Vec<E>,
) -> (failure: NativeMutationFailure<E>)
    ensures
        failure.runtime_events == runtime_events,
        failure.result.id == command,
        failure.result.code == RejectionCode::Unavailable,
        failure.result.message@ == failure_text(),
        failure.result.fields@.len() == 0,
        failure.result.current_revision == current_revision,
        !failure.result.retryable,
{
    NativeMutationFailure {
        result: RejectedCommand {
            id: command,
            code: RejectionCode::Unavailable,
            message: String::from_str("native Stinger resources could not be prepared"),
            fields: Vec::new(),
            current_revision,
            retryable: false,
        },
        runtime_events,
    }
}

/// No more is on its way down than the limit, and what was refused leaves
/// everything as it was.
pub proof fn retirement_is_bounded<R>(before: RetirementsModel<R>, resource: R)
    requires
        before.wf(),
    ensures
        before.pending() <= RETIREMENT_LIMIT,
        before.retired(resource).0.wf(),
        before.retired(resource).0.pending() <= RETIREMENT_LIMIT,
        before.retired(resource).1 is Err ==> before.retired(resource) == (
            before,
            Err::<(), R>(resource),
        ),
        before.taken().0.pending() == before.pending(),
        before.working > 0 ==> before.finished().pending() + 1 == before.pending(),
{
}

/// Where no resource waits while a worker is idle, room that was promised is
/// there.
pub proof fn promised_room_is_there<R>(before: RetirementsModel<R>, resource: R)
    requires
        before.wf(),
        before.open,
        before.waiting.len() > 0 ==> before.working == RETIREMENT_WORKERS,
    ensures
        before.accepts() <==> before.retired(resource).1 is Ok,
{
}

/// Resources are taken down in the order in which they came.
pub proof fn retirement_keeps_the_order<R>(before: RetirementsModel<R>, resource: R)
    requires
        before.wf(),
        before.has_room(),
        before.working < RETIREMENT_WORKERS,
    ensures
        before.retired(resource).0.taken().1 == Some(
            if before.waiting.len() > 0 {
                before.waiting.first()
            } else {
                resource
            },
        ),
        before.waiting.len() > 0 ==> before.retired(resource).0.taken().0
            == before.taken().0.retired(resource).0,
{
    if before.waiting.len() > 0 {
        assert(before.waiting.push(resource).drop_first() =~= before.waiting.drop_first().push(
            resource,
        ));
    }
}

/// A command saves a change of Stingers only after two accepted preparations
/// with the same Stingers and a successful preflight; resources that were
/// prepared are held until they are staged or discarded.
pub proof fn a_change_is_made_as_prepared<E>(
    first: Preparation,
    outcome: Option<(bool, Seq<E>)>,
    second: Preparation,
    candidate: Seq<StingerConfig>,
    updated: Seq<StingerConfig>,
    limit_fits: bool,
)
    ensures
        ({
            let start = TransactionModel::<E> {
                stage: TransactionStage::First,
                held: false,
                runtime_events: Seq::empty(),
            };
            let (one, step_one) = start.prepared(first);
            let (two, step_two) = one.preflighted(outcome);
            let (three, step_three) = two.prepared(second);
            let (four, step_four) = three.compared(candidate, updated, limit_fits);
            let reached = step_one is Preflight && step_two is PrepareAgain
                && step_three is Compare;
            let accepted = Preparation::Prepared { accepted: true };
            &&& reached && step_four is Commit <==> {
                &&& first == accepted
                &&& outcome matches Some((true, _))
                &&& second == accepted
                &&& candidate == updated
                &&& limit_fits
            }
            &&& !(step_one is Preflight) ==> !one.held && one.stage is Done
            &&& step_one is Preflight && !(step_two is PrepareAgain) ==> step_two == (
            TransactionStep::Fail { discard: false }) && two.stage is Done
            &&& step_one is Preflight && step_two is PrepareAgain && !(step_three is Compare)
                ==> three.stage is Done && match step_three {
                TransactionStep::Replay { discard } => discard,
                TransactionStep::PersistRejected { discard } => discard,
                _ => false,
            }
            &&& reached && !(step_four is Commit) ==> four.stage is Done && step_four == (
            TransactionStep::Fail { discard: true })
        }),
{
}

} // verus!

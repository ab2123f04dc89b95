//! How playback serves its rings, how Stingers are changed, and where the program is shown.
use vstd::prelude::*;

use crate::model::{InputId, StingerConfig};
use crate::monitor;
use crate::monitor::{DescriptorModel, MonitorChange, MonitorEntry, MonitorPolicy};
use crate::playback_cycle;
use crate::playback_cycle::{PlaybackEvent, PlaybackService, PlaybackStageModel, RingsModel};
use crate::source::NativeResolvedSource;
use crate::source_playback;
use crate::source_playback::{NativeDecodeResult, NativeSourcePlaybackError, VerdictModel};
use crate::source_registry::{RegistryModel, WorkingFrame};
use crate::stinger_mutation;
use crate::stinger_mutation::{
    Preparation, PreflightPoll, PreflightStep, RetirementsModel, TransactionModel,
    TransactionStep,
};

verus! {

/// Rings are served while playback has not failed; where one source alone is to be served, it
/// has to be there for Stingers.
pub proof fn rings_are_served_while_playback_goes_on(rings: RingsModel, only: Option<InputId>)
    ensures
        playback_cycle::service_allowed(rings, only) is Ok <==> {
            &&& !rings.failed
            &&& only matches Some(input) ==> (rings.registry.prefix(input) matches Some(prefix)
                && prefix.available_for_stinger)
        },
{
}

/// Whether an answer brings no frame, only that its source has ended.
pub open spec fn brings_the_end_alone(result: NativeDecodeResult) -> bool {
    result.window matches Ok(window) && window.frames@.len() == 0 && window.end_of_stream
}

/// Answers are looked through in their order. The first that brings frames is to be uploaded;
/// before it there are only those that bring the end of their source. Once there is none left,
/// the service is over, and says what comes of the rings then.
pub proof fn no_answer_is_passed_over(
    registry: RegistryModel,
    service: PlaybackService,
    answers: Seq<NativeDecodeResult>,
    place: int,
)
    requires
        0 <= place,
    ensures
        ({
            let (after, next) = playback_cycle::looked_through(registry, service, answers, place);
            &&& next is Ok ==> !after.failed
            &&& next is Err ==> after.failed
            &&& next matches Ok(PlaybackStageModel::Upload { answers: kept, place: found }) ==> {
                &&& kept == answers
                &&& place <= found < answers.len()
                &&& forall|k: int|
                    place <= k < found ==> brings_the_end_alone(#[trigger] answers[k])
                &&& answers[found].window matches Ok(window) && window.frames@.len() > 0
            }
            &&& next matches Ok(PlaybackStageModel::Over { requests, covered }) ==> {
                &&& forall|k: int|
                    place <= k < answers.len() ==> brings_the_end_alone(#[trigger] answers[k])
                &&& exists|last: RegistryModel|
                    {
                        let served = #[trigger] source_playback::serviced(
                            last,
                            service.deadline_ns,
                            service.only,
                        );
                        &&& served.registry == after.registry
                        &&& served.requests == requests
                        &&& served.covered == Ok::<bool, NativeSourcePlaybackError>(covered)
                        &&& place >= answers.len() ==> last == registry
                    }
            }
            &&& !(next matches Ok(PlaybackStageModel::Answers))
        }),
    decreases answers.len() - place,
{
    if place >= answers.len() {
        let served = source_playback::serviced(registry, service.deadline_ns, service.only);
        assert(served == source_playback::serviced(registry, service.deadline_ns, service.only));
    } else {
        let window = source_playback::answer(answers[place]);
        match source_playback::page_verdict(registry, answers[place].request, window) {
            Err(_) => {},
            Ok(VerdictModel::Upload(_)) => {},
            Ok(VerdictModel::EndOfStream) => {
                let ended = source_playback::answered(
                    registry,
                    answers[place].request,
                    window,
                    Ok(Seq::empty()),
                )->Ok_0;
                no_answer_is_passed_over(ended, service, answers, place + 1);
            },
        }
    }
}

/// Frames that were uploaded are added to the ring of their own answer, and the answers behind it
/// are looked through from there. Whatever fails ends playback with what failed.
pub proof fn uploads_go_to_their_answer(
    rings: RingsModel,
    service: PlaybackService,
    answers: Seq<NativeDecodeResult>,
    place: int,
    event: PlaybackEvent,
    uploads: Seq<WorkingFrame>,
)
    requires
        !rings.failed,
        0 <= place < answers.len(),
        event matches PlaybackEvent::Uploaded(Ok(uploaded)) && uploaded@ == uploads,
    ensures
        ({
            let stage = PlaybackStageModel::Upload { answers, place };
            let (after, next) = playback_cycle::playback_step(rings, service, stage, event);
            match source_playback::answered(
                rings.registry,
                answers[place].request,
                source_playback::answer(answers[place]),
                Ok(uploads),
            ) {
                Err(error) => next == Err::<PlaybackStageModel, NativeSourcePlaybackError>(error)
                    && after.failed && after.registry == rings.registry,
                Ok(taken) => (after, next) == playback_cycle::looked_through(
                    taken,
                    service,
                    answers,
                    place + 1,
                ),
            }
        }),
{
}

/// A worker that answers no more ends playback with what it says.
pub proof fn a_lost_worker_ends_playback(
    rings: RingsModel,
    service: PlaybackService,
    error: NativeSourcePlaybackError,
)
    requires
        !rings.failed,
    ensures
        ({
            let (after, next) = playback_cycle::playback_step(
                rings,
                service,
                PlaybackStageModel::Answers,
                PlaybackEvent::Answered(Err(error)),
            );
            &&& next == Err::<PlaybackStageModel, NativeSourcePlaybackError>(error)
            &&& after.failed
            &&& after.registry == rings.registry
        }),
{
}

/// A resource is taken where the queue is open and not full, and waits behind all others. A
/// worker that is idle gets what has waited longest.
pub proof fn resources_wait_their_turn<R>(before: RetirementsModel<R>, resource: R)
    requires
        before.wf(),
    ensures
        ({
            let (after, taken) = before.retired(resource);
            &&& taken is Ok <==> before.open && before.waiting.len()
                < stinger_mutation::RETIREMENT_QUEUE
            &&& taken is Ok ==> after.waiting == before.waiting.push(resource)
            &&& taken matches Err(back) ==> back == resource && after.waiting == before.waiting
            &&& after.working == before.working
            &&& after.open == before.open
        }),
        ({
            let (after, given) = before.taken();
            &&& given is Some <==> before.waiting.len() > 0 && before.working
                < stinger_mutation::RETIREMENT_WORKERS
            &&& given matches Some(first) ==> before.waiting == seq![first] + after.waiting
                && after.working == before.working + 1
            &&& given is None ==> after == before
            &&& after.open == before.open
        }),
        before.accepts() <==> before.waiting.len() + before.working
            < stinger_mutation::RETIREMENT_WORKERS + stinger_mutation::RETIREMENT_QUEUE,
{
    let (after, given) = before.taken();
    if let Some(first) = given {
        assert(before.waiting =~= seq![first] + after.waiting);
    }
}

/// What the program has told goes with the answer: a change that was made is answered with all of
/// it, a command that came before or found other Stingers with what was told until then, and one
/// that was rejected or given up with nothing.
pub proof fn events_go_with_the_answer<E>(
    before: TransactionModel<E>,
    preparation: Preparation,
    outcome: Option<(bool, Seq<E>)>,
    candidate: Seq<StingerConfig>,
    updated: Seq<StingerConfig>,
    limit_fits: bool,
    events: Seq<E>,
)
    ensures
        ({
            let (after, step) = before.prepared(preparation);
            &&& preparation is Replayed ==> after.runtime_events == before.runtime_events
                && after.stage is Done && step == (TransactionStep::Replay { discard: before.held })
            &&& preparation == (Preparation::Prepared { accepted: false }) ==> after.runtime_events
                == Seq::<E>::empty() && after.stage is Done && step
                == (TransactionStep::PersistRejected { discard: before.held })
            &&& preparation == (Preparation::Prepared { accepted: true }) ==> after.runtime_events
                == before.runtime_events && after.held == before.held && (if before.stage is First {
                after.stage is Preflight && step is Preflight
            } else {
                after.stage is Compare && step is Compare
            })
            &&& after.stage is Done ==> !after.held
        }),
        ({
            let (after, step) = before.preflighted(outcome);
            &&& outcome matches Some((prepared, told)) ==> after.runtime_events == told && (prepared
                <==> after.held) && (prepared <==> step is PrepareAgain)
            &&& outcome is None ==> after.runtime_events == Seq::<E>::empty() && !after.held
            &&& !(step is PrepareAgain) ==> after.stage is Done && step == (TransactionStep::Fail {
                discard: false,
            })
        }),
        ({
            let (after, step) = before.compared(candidate, updated, limit_fits);
            &&& after.runtime_events == before.runtime_events
            &&& step is Commit <==> (candidate == updated && limit_fits)
            &&& step is Commit ==> after.stage is Commit && after.held == before.held
            &&& !(step is Commit) ==> after.stage is Done && !after.held && step
                == (TransactionStep::Fail { discard: true })
        }),
        before.realized(events).runtime_events == before.runtime_events + events,
        before.realized(events).stage is Done,
{
}

/// Whether bytes are the same up to a place.
pub open spec fn agree_before(a: Seq<u8>, b: Seq<u8>, place: int) -> bool {
    &&& 0 <= place <= a.len()
    &&& place <= b.len()
    &&& forall|i: int| 0 <= i < place ==> a[i] == #[trigger] b[i]
}

/// Bytes come before others exactly where, behind what both begin with, they end first or go on
/// with a smaller byte.
pub proof fn bytes_are_ordered_by_their_first_difference(a: Seq<u8>, b: Seq<u8>, place: int)
    requires
        agree_before(a, b, place),
        place < a.len() && place < b.len() ==> a[place] != b[place],
    ensures
        monitor::bytes_below(a, b) <==> place < b.len() && (place == a.len() || a[place]
            < b[place]),
    decreases place,
{
    if place > 0 {
        assert(a[0] == b[0]);
        let (c, d) = (a.drop_first(), b.drop_first());
        assert forall|i: int| 0 <= i < place - 1 implies c[i] == #[trigger] d[i] by {
            assert(a[i + 1] == b[i + 1]);
        }
        bytes_are_ordered_by_their_first_difference(c, d, place - 1);
    }
}

/// Displays stand from left to right, then from top to bottom, then by name, size, rate and
/// scale.
pub proof fn displays_stand_from_left_to_right(a: DescriptorModel, b: DescriptorModel)
    ensures
        a.x < b.x ==> monitor::comes_before(a, b),
        a.x == b.x && a.y < b.y ==> monitor::comes_before(a, b),
        a.x == b.x && a.y == b.y ==> {
            &&& monitor::bytes_below(a.name, b.name) ==> monitor::comes_before(a, b)
            &&& a.name == b.name ==> {
                &&& a.width < b.width ==> monitor::comes_before(a, b)
                &&& a.width == b.width && a.height < b.height ==> monitor::comes_before(a, b)
                &&& a.width == b.width && a.height == b.height ==> {
                    &&& a.refresh_millihertz < b.refresh_millihertz ==> monitor::comes_before(a, b)
                    &&& a.refresh_millihertz == b.refresh_millihertz && a.scale_bits < b.scale_bits
                        ==> monitor::comes_before(a, b)
                }
            }
        },
        a == b ==> !monitor::comes_before(a, b),
{
    monitor::bytes_are_ordered(a.name, b.name, a.name);
}

/// A display is found by what identifies it, wherever it stands, and only by that.
pub proof fn displays_are_found_by_their_identity<I>(inventory: Seq<MonitorEntry<I>>, identity: I)
    requires
        inventory.len() <= usize::MAX,
    ensures
        match monitor::first_with(inventory, identity) {
            Some(index) => {
                &&& index < inventory.len()
                &&& inventory[index as int].identity == identity
                &&& forall|i: int|
                    0 <= i < index ==> (#[trigger] inventory[i]).identity != identity
            },
            None => forall|i: int|
                0 <= i < inventory.len() ==> (#[trigger] inventory[i]).identity != identity,
        },
    decreases inventory.len(),
{
    if inventory.len() > 0 {
        let rest = inventory.drop_last();
        displays_are_found_by_their_identity(rest, identity);
        match monitor::first_with(rest, identity) {
            Some(index) => {
                assert(rest[index as int] == inventory[index as int]);
                assert forall|i: int| 0 <= i < index implies (#[trigger] inventory[i]).identity
                    != identity by {
                    assert(rest[i] == inventory[i]);
                }
            },
            None => {
                assert forall|i: int| 0 <= i < rest.len() implies (#[trigger] inventory[i]).identity
                    != identity by {
                    assert(rest[i] == inventory[i]);
                }
            },
        }
    }
}

/// A change is told exactly where the selected display goes or comes back: that it has gone where
/// it was there, and where it stands where it was not.
pub proof fn changes_of_the_selected_display_are_told<I>(
    policy: MonitorPolicy<I>,
    inventory: Seq<MonitorEntry<I>>,
)
    requires
        inventory.len() <= usize::MAX,
    ensures
        ({
            let (after, change) = monitor::updated(policy, inventory);
            let there = exists|i: int|
                0 <= i < inventory.len() && (#[trigger] inventory[i]).identity == policy.selected;
            &&& after.selected == policy.selected
            &&& after.connected <==> there
            &&& change is Disconnected <==> policy.connected && !there
            &&& change is Reconnected <==> !policy.connected && there
            &&& change is Unchanged <==> policy.connected == there
            &&& change matches MonitorChange::Reconnected(index) ==> index < inventory.len()
                && inventory[index as int].identity == policy.selected
        }),
{
    displays_are_found_by_their_identity(inventory, policy.selected);
}

/// While a change is being prepared, frames go on; once its resources are there, they are used
/// where the ordinary sources can keep to what is left to them, also where the program is about
/// to stop.
pub proof fn prepared_resources_are_looked_at_first(poll: PreflightPoll, stopping: bool)
    ensures
        forall|step: PreflightStep|
            #![trigger call_ensures(stinger_mutation::preflight_step, (poll, stopping), step)]
            call_ensures(stinger_mutation::preflight_step, (poll, stopping), step) ==> {
                &&& step is Accept <==> poll == (PreflightPoll::Prepared { limit_fits: true })
                &&& step is DiscardAndRefuse <==> poll == (PreflightPoll::Prepared {
                    limit_fits: false,
                })
                &&& step is Refuse <==> poll is Failed
                &&& step is Stop <==> poll is Waiting && stopping
                &&& step is Tick <==> poll is Waiting && !stopping
            },
{
}

/// Whether a Stinger is preloaded and plays a file.
pub open spec fn preloads_file(stinger: StingerConfig, source: NativeResolvedSource) -> bool {
    source is LocalVideo && stinger.preload && stinger.media_input == source.source_input()
}

/// A file needs a codec exactly where a Stinger that is preloaded plays it; nothing else needs
/// one.
pub proof fn codecs_are_needed_for_files(
    source: NativeResolvedSource,
    stingers: Seq<StingerConfig>,
)
    ensures
        stinger_mutation::plays_file(source, stingers) <==> exists|i: int|
            0 <= i < stingers.len() && preloads_file(#[trigger] stingers[i], source),
{
}

/// Both tools of a codec have to be there where one is needed.
pub proof fn both_tools_of_a_codec_are_needed(
    required: bool,
    ffmpeg: bool,
    ffprobe: bool,
    result: Result<(), &'static str>,
)
    requires
        call_ensures(stinger_mutation::codec_requirement, (required, ffmpeg, ffprobe), result),
    ensures
        result is Err <==> required && !(ffmpeg && ffprobe),
{
}

} // verus!

//! Where each input of a project takes its audio from.
use vstd::prelude::*;

use crate::model::{Input, InputId, InputKind, Project};
use crate::ordered;
use crate::ordered::lists_key;
use crate::project_plan::NativeProjectPlanError;
use crate::scene_graph;
use crate::scene_graph::find_input;

verus! {

/// A schema input's recursively resolved native audio terminal.
#[derive(Clone, Copy, Debug, PartialEq, Eq, Structural)]
pub enum NativeAudioRoute {
    Leaf(InputId),
    Silence,
}

/// How many inputs of the project have not been passed.
pub open spec fn unpassed(project: Project, passed: Set<InputId>) -> nat {
    scene_graph::input_models(project).dom().difference(passed).len()
}

/// Passing an input leaves one fewer to pass.
pub proof fn lemma_unpassed_decreases(project: Project, passed: Set<InputId>, input: InputId)
    requires
        scene_graph::input_models(project).contains_key(input),
        !passed.contains(input),
    ensures
        unpassed(project, passed.insert(input)) < unpassed(project, passed),
{
    let pairs = Seq::new(
        project.inputs@.len(),
        |i: int| (project.inputs@[i].id, project.inputs@[i]),
    );
    ordered::lemma_collected(pairs);
    let left = scene_graph::input_models(project).dom().difference(passed);
    assert(scene_graph::input_models(project).dom().difference(passed.insert(input))
        =~= left.remove(input));
    assert(left.contains(input));
}

/// Where the audio of `input` comes from: media plays itself, a scene plays the input
/// that it names or is silent. `passed` holds the inputs on the way to this one.
pub open spec fn audio_terminal(project: Project, input: InputId, passed: Set<InputId>) -> Result<
    NativeAudioRoute,
    NativeProjectPlanError,
>
    decreases unpassed(project, passed),
{
    if passed.contains(input) {
        Err(NativeProjectPlanError::AudioCycle { input })
    } else {
        match scene_graph::input_model(project, input) {
            None => Err(NativeProjectPlanError::MissingInput(input)),
            Some(model) => {
                proof {
                    lemma_unpassed_decreases(project, passed, input);
                }
                match model.kind {
                    InputKind::Scene { audio_source: Some(source), .. } => audio_terminal(
                        project,
                        source,
                        passed.insert(input),
                    ),
                    InputKind::Scene { audio_source: None, .. } => Ok(NativeAudioRoute::Silence),
                    InputKind::Media => Ok(NativeAudioRoute::Leaf(input)),
                }
            },
        }
    }
}

/// The audio terminals of the inputs, or the failure of the first that has none.
pub open spec fn audio_entries(project: Project, inputs: Seq<Input>) -> Result<
    Seq<(InputId, NativeAudioRoute)>,
    NativeProjectPlanError,
>
    decreases inputs.len(),
{
    if inputs.len() == 0 {
        Ok(Seq::empty())
    } else {
        match audio_entries(project, inputs.drop_last()) {
            Err(error) => Err(error),
            Ok(entries) => match audio_terminal(project, inputs.last().id, Set::empty()) {
                Err(error) => Err(error),
                Ok(route) => Ok(ordered::with_entry(entries, inputs.last().id, route)),
            },
        }
    }
}

/// A failed beginning fails the whole.
pub proof fn lemma_audio_entries_fail_early(project: Project, inputs: Seq<Input>, count: int)
    requires
        0 <= count <= inputs.len(),
        audio_entries(project, inputs.take(count)) is Err,
    ensures
        audio_entries(project, inputs) == audio_entries(project, inputs.take(count)),
    decreases inputs.len() - count,
{
    if count < inputs.len() {
        assert(inputs.take(count + 1).drop_last() =~= inputs.take(count));
        lemma_audio_entries_fail_early(project, inputs, count + 1);
    } else {
        assert(inputs.take(count) =~= inputs);
    }
}

/// Follows the audio of `input` to where it comes from.
pub fn resolve_audio_route(
    input: InputId,
    project: &Project,
    visiting: &mut Vec<InputId>,
) -> (route: Result<NativeAudioRoute, NativeProjectPlanError>)
    ensures
        route == audio_terminal(*project, input, old(visiting)@.to_set()),
        route is Ok ==> final(visiting)@ == old(visiting)@,
    decreases unpassed(*project, old(visiting)@.to_set()),
{
    if lists_key(visiting, input) {
        return Err(NativeProjectPlanError::AudioCycle { input });
    }
    let model: &Input = match find_input(project, input) {
        None => {
            return Err(NativeProjectPlanError::MissingInput(input));
        },
        Some(model) => model,
    };
    let route: NativeAudioRoute = match model.kind {
        InputKind::Scene { audio_source: Some(source), .. } => {
            proof {
                ordered::lemma_push_to_set(visiting@, input);
                lemma_unpassed_decreases(*project, visiting@.to_set(), input);
            }
            visiting.push(input);
            let route = resolve_audio_route(source, project, visiting);
            match route {
                Err(error) => {
                    return Err(error);
                },
                Ok(route) => {
                    visiting.pop();
                    assert(visiting@ =~= old(visiting)@);
                    route
                },
            }
        },
        InputKind::Scene { audio_source: None, .. } => NativeAudioRoute::Silence,
        InputKind::Media => NativeAudioRoute::Leaf(input),
    };
    Ok(route)
}

proof fn lemma_fewer_passed(
    project: Project,
    input: InputId,
    fewer: Set<InputId>,
    passed: Set<InputId>,
)
    requires
        fewer.subset_of(passed),
        audio_terminal(project, input, passed) is Ok,
    ensures
        audio_terminal(project, input, fewer) == audio_terminal(project, input, passed),
    decreases unpassed(project, passed),
{
    if let Some(model) = scene_graph::input_model(project, input) {
        if let InputKind::Scene { audio_source: Some(source), .. } = model.kind {
            lemma_unpassed_decreases(project, passed, input);
            lemma_fewer_passed(project, source, fewer.insert(input), passed.insert(input));
        }
    }
}

/// A scene input that names an audio source plays exactly what that source plays.
pub proof fn scene_plays_its_audio_source(project: Project, input: InputId, source: InputId)
    requires
        audio_terminal(project, input, Set::empty()) is Ok,
        scene_graph::input_model(project, input) matches Some(model) && model.kind matches InputKind::Scene {
            audio_source,
            ..
        } && audio_source == Some(source),
    ensures
        audio_terminal(project, input, Set::empty()) == audio_terminal(
            project,
            source,
            Set::empty(),
        ),
{
    lemma_unpassed_decreases(project, Set::empty(), input);
    lemma_fewer_passed(project, source, Set::empty(), Set::empty().insert(input));
}

/// An input never plays a scene: where its audio ends in an input, that input is media.
pub proof fn audio_ends_in_media(project: Project, input: InputId, passed: Set<InputId>)
    ensures
        audio_terminal(project, input, passed) matches Ok(NativeAudioRoute::Leaf(leaf))
            ==> scene_graph::input_model(project, leaf) matches Some(model) && model.kind
            is Media,
    decreases unpassed(project, passed),
{
    if !passed.contains(input) {
        if let Some(model) = scene_graph::input_model(project, input) {
            if let InputKind::Scene { audio_source: Some(source), .. } = model.kind {
                lemma_unpassed_decreases(project, passed, input);
                audio_ends_in_media(project, source, passed.insert(input));
            }
        }
    }
}

} // verus!

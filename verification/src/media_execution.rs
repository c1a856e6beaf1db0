//! A media request as a whole, and what becomes of its files.

use vstd::prelude::*;

use crate::args::{BackendArg, DeviceArg};
use crate::fields::{field_views, get_field, place_value};
use crate::json::{text_of, Json, JsonView};
use crate::manifest::InferenceTask;
use crate::media_params::{media_parameters, parameters_of, read_views};
use crate::media_request::{
    media_routing, routes, routing_error, InferenceInput, MediaPlan, RoutingArgs, RoutingOverrides,
};
use crate::outputs::{InferenceResult, OutputFile};
use crate::text::{join2, opt_view, views};

verus! {

/// A request to run a task on a model.
#[derive(Debug)]
pub struct InferenceRequest {
    pub model: String,
    pub task: InferenceTask,
    pub prompt: Option<String>,
    pub negative_prompt: Option<String>,
    pub inputs: Vec<InferenceInput>,
    pub parameters: Vec<(String, Json)>,
    pub routing: RoutingOverrides,
}

/// What was given on the command line: the arguments by name, what was set
/// outright, and the texts of the files that they name.
#[derive(Debug)]
pub struct MediaArguments {
    pub raw: Vec<(String, Json)>,
    pub set: Vec<(String, Json)>,
    pub files: Vec<Result<String, String>>,
    pub namespace: String,
}

/// The place that the outputs are asked to be put.
pub fn requested_media_output(raw: &Vec<(String, Json)>) -> (r: Option<String>)
    ensures
        opt_view(r) == text_of(place_value(field_views(raw@), "output"@)),
{
    match get_field(raw, "output") {
        Some(value) => match value.as_str() {
            Some(path) => Some(path.to_owned()),
            None => None,
        },
        None => None,
    }
}

pub open spec fn arguments_parameters(a: MediaArguments, task: InferenceTask) -> Result<
    Seq<(Seq<char>, JsonView)>,
    Seq<char>,
> {
    parameters_of(
        field_views(a.raw@),
        field_views(a.set@),
        read_views(a.files@),
        task,
        a.namespace@,
    )
}

/// Puts a request together. Its parameters are read first, then where it is to
/// be run, where `policy` is what its parameter policy was read as.
pub fn execute_media_args(
    model: &str,
    plan: MediaPlan,
    prompt: Option<String>,
    negative_prompt: Option<String>,
    arguments: MediaArguments,
    routing_args: &RoutingArgs,
    backend: BackendArg,
    device: Option<DeviceArg>,
    policy: Result<String, String>,
) -> (r: Result<InferenceRequest, String>)
    ensures
        match r {
            Ok(request) => {
                &&& request.model@ == model@
                &&& request.task == plan.task
                &&& request.prompt == prompt
                &&& request.negative_prompt == negative_prompt
                &&& request.inputs == plan.inputs
                &&& arguments_parameters(arguments, plan.task) == Ok::<
                    Seq<(Seq<char>, JsonView)>,
                    Seq<char>,
                >(field_views(request.parameters@))
                &&& routing_error(*routing_args, device, policy) is None
                &&& routes(request.routing, *routing_args, backend, device, policy->Ok_0@)
            },
            Err(message) => match arguments_parameters(arguments, plan.task) {
                Err(error) => message@ == error,
                Ok(_) => routing_error(*routing_args, device, policy) == Some(message@),
            },
        },
{
    let parameters = match media_parameters(
        arguments.raw,
        arguments.set,
        &arguments.files,
        plan.task,
        arguments.namespace.as_str(),
    ) {
        Ok(parameters) => parameters,
        Err(message) => {
            return Err(message);
        },
    };
    let routing = match media_routing(routing_args, backend, device, policy) {
        Ok(routing) => routing,
        Err(message) => {
            return Err(message);
        },
    };
    Ok(
        InferenceRequest {
            model: model.to_owned(),
            task: plan.task,
            prompt,
            negative_prompt,
            inputs: plan.inputs,
            parameters,
            routing,
        },
    )
}

/// The outputs with these paths; those beyond keep theirs.
pub open spec fn has_paths(outputs: Seq<OutputFile>, paths: Seq<String>) -> bool {
    forall|i: int|
        0 <= i < outputs.len() && i < paths.len() ==> (#[trigger] outputs[i]).path@ == paths[i]@
}

/// An output that differs in its path at most.
pub open spec fn same_output(a: OutputFile, b: OutputFile) -> bool {
    a.id == b.id && a.mime_type == b.mime_type && a.size_bytes == b.size_bytes && a.width
        == b.width && a.height == b.height && a.duration == b.duration && a.seed == b.seed
        && a.metadata == b.metadata
}

/// Records where the outputs were put, and that the copies they came from could
/// not be removed. `saved` tells a default place from one that was asked for.
pub fn record_publication(
    result: &mut InferenceResult,
    paths: Vec<String>,
    saved: bool,
    removal_error: Option<String>,
)
    ensures
        final(result).id == old(result).id,
        final(result).task == old(result).task,
        final(result).model == old(result).model,
        final(result).runtime == old(result).runtime,
        final(result).outputs@.len() == old(result).outputs@.len(),
        has_paths(final(result).outputs@, paths@),
        forall|i: int|
            0 <= i < old(result).outputs@.len() ==> same_output(
                #[trigger] final(result).outputs@[i],
                old(result).outputs@[i],
            ),
        forall|i: int|
            paths@.len() <= i < old(result).outputs@.len() ==> (#[trigger] final(result).outputs@[i]).path
                == old(result).outputs@[i].path,
        views(final(result).warnings@) == match opt_view(removal_error) {
            None => views(old(result).warnings@),
            Some(error) => views(old(result).warnings@).push(
                (if saved {
                    "outputs were saved, but temporary result metadata could not be removed: "@
                } else {
                    "outputs were published, but the redundant managed copy could not be removed: "@
                }) + error,
            ),
        },
{
    let ghost before = *result;
    let ghost count = result.outputs@.len();
    let mut done: Vec<OutputFile> = Vec::new();
    let mut i: usize = 0;
    while result.outputs.len() > 0
        invariant
            i == done@.len(),
            i + result.outputs@.len() == count,
            count == before.outputs@.len(),
            result.outputs@ == before.outputs@.skip(i as int),
            result.id == before.id,
            result.task == before.task,
            result.model == before.model,
            result.runtime == before.runtime,
            result.warnings == before.warnings,
            forall|k: int|
                0 <= k < i ==> same_output(#[trigger] done@[k], before.outputs@[k]) && (if k
                    < paths@.len() {
                    done@[k].path@ == paths@[k]@
                } else {
                    done@[k].path == before.outputs@[k].path
                }),
        decreases result.outputs@.len(),
    {
        let ghost left = result.outputs@;
        let mut output = result.outputs.remove(0);
        assert(left[0] == before.outputs@[i as int]);
        assert(result.outputs@ =~= before.outputs@.skip(i + 1));
        if i < paths.len() {
            output.path = paths[i].clone();
        }
        done.push(output);
        i = done.len();
    }
    result.outputs = done;
    if let Some(error) = removal_error {
        let ghost warned = result.warnings@;
        let start = if saved {
            "outputs were saved, but temporary result metadata could not be removed: "
        } else {
            "outputs were published, but the redundant managed copy could not be removed: "
        };
        result.warnings.push(join2(start, error.as_str()));
        assert(views(result.warnings@) =~= views(warned).push(start@ + error@));
    }
}

} // verus!

//! A single request from the command line: what is asked of the model, and
//! whether the options go together.

use vstd::prelude::*;

use crate::args::ChatTemplateArg;
use crate::backend::BackendChoice;
use crate::chat::DEFAULT_MAX_NEW_TOKENS;
use crate::fields::{field_views, get_field, place_value, put, put_field};
use crate::json::{json_bytes, parse_json_bytes, result_view, Json, JsonView};
use crate::manifest::{has_task, InferenceTask, InputModality, ModelManifest, OutputModality};
use crate::media_request::{string_input, written_input, InferenceInput, InputView};
use crate::text::{
    is_blank, join2, join3, join5, opt_str_view, opt_view, split_at_first, str_eq, str_is_blank,
    str_split_once, str_strip_prefix, without_prefix,
};

verus! {

/// The largest request that is read.
pub const REQUEST_LIMIT: usize = 134217728;

// ---------------------------------------------------------------------------
// Reading a request
// ---------------------------------------------------------------------------

/// The request that bytes hold: an object, in at most so many bytes.
pub open spec fn request_document(bytes: Seq<u8>) -> Result<JsonView, Seq<char>> {
    if bytes.len() > REQUEST_LIMIT {
        Err("request exceeds 128 MiB"@)
    } else {
        match json_bytes(bytes) {
            Err(message) => Err("invalid request JSON: "@ + message),
            Ok(value) => if value is Object {
                Ok(value)
            } else {
                Err("request must be a JSON object"@)
            },
        }
    }
}

/// Reads a request. Of a longer one it is enough to hand over one byte more than
/// the limit.
pub fn read_request(bytes: &Vec<u8>) -> (r: Result<Json, String>)
    ensures
        result_view(r) == request_document(bytes@),
{
    if bytes.len() > REQUEST_LIMIT {
        return Err("request exceeds 128 MiB".to_owned());
    }
    match parse_json_bytes(bytes.as_slice()) {
        Ok(value) => if value.is_object() {
            Ok(value)
        } else {
            Err("request must be a JSON object".to_owned())
        },
        Err(message) => Err(join2("invalid request JSON: ", message.as_str())),
    }
}

/// What a request says of its model.
#[derive(Clone, Copy, Debug, PartialEq, Eq, Structural)]
pub enum ModelClaim {
    Nothing,
    Same,
    Different,
    NoName,
}

pub open spec fn model_claim(fields: Seq<(Seq<char>, JsonView)>, model: Seq<char>) -> ModelClaim {
    match place_value(fields, "model"@) {
        None => ModelClaim::Nothing,
        Some(JsonView::Null) => ModelClaim::Nothing,
        Some(JsonView::Text(name)) => if name == model {
            ModelClaim::Same
        } else {
            ModelClaim::Different
        },
        Some(_) => ModelClaim::NoName,
    }
}

pub open spec fn claimed_model(fields: Seq<(Seq<char>, JsonView)>) -> Seq<char> {
    match place_value(fields, "model"@) {
        Some(JsonView::Text(name)) => name,
        _ => Seq::empty(),
    }
}

/// Writes the model into the fields of a request. One that names another model
/// is refused.
pub fn bind_request_model(fields: &mut Vec<(String, Json)>, model: &str) -> (r: Result<(), String>)
    ensures
        match r {
            Ok(_) => field_views(final(fields)@) == put(
                field_views(old(fields)@),
                "model"@,
                JsonView::Text(model@),
            ),
            Err(_) => *final(fields) == *old(fields),
        },
        match model_claim(field_views(old(fields)@), model@) {
            ModelClaim::Nothing => r is Ok,
            ModelClaim::Same => r is Ok,
            ModelClaim::Different => r matches Err(message) && message@ == "request model '"@
                + claimed_model(field_views(old(fields)@)) + "' differs from positional model '"@
                + model@ + "'"@,
            ModelClaim::NoName => r matches Err(message) && message@
                == "request model must be a string"@,
        },
{
    match get_field(fields, "model") {
        None => {},
        Some(Json::Null) => {},
        Some(Json::Text(name)) => {
            if !str_eq(name.as_str(), model) {
                return Err(
                    join5(
                        "request model '",
                        name.as_str(),
                        "' differs from positional model '",
                        model,
                        "'",
                    ),
                );
            }
        },
        Some(_) => {
            return Err("request model must be a string".to_owned());
        },
    }
    put_field(fields, "model".to_owned(), Json::Text(model.to_owned()));
    Ok(())
}

/// A request that was bound to a model can be bound to it again, and to no
/// other.
pub proof fn bound_requests_stay_bound(
    fields: Seq<(Seq<char>, JsonView)>,
    model: Seq<char>,
    other: Seq<char>,
)
    requires
        crate::fields::ascending(fields),
    ensures
        model_claim(put(fields, "model"@, JsonView::Text(model)), other) == if model == other {
            ModelClaim::Same
        } else {
            ModelClaim::Different
        },
{
    crate::fields::put_values_are_found(fields, "model"@, JsonView::Text(model));
    crate::fields::lemma_place_value(put(fields, "model"@, JsonView::Text(model)), "model"@);
}

// ---------------------------------------------------------------------------
// The task
// ---------------------------------------------------------------------------

/// The task of a model that is not told which: writing, then seeing, then the
/// only one there is.
pub open spec fn usual_task(tasks: Seq<InferenceTask>) -> Option<InferenceTask> {
    if tasks.len() == 0 || tasks.contains(InferenceTask::TextGeneration) {
        Some(InferenceTask::TextGeneration)
    } else if tasks.contains(InferenceTask::ImageUnderstanding) {
        Some(InferenceTask::ImageUnderstanding)
    } else if tasks.len() == 1 {
        Some(tasks[0])
    } else {
        None
    }
}

pub open spec fn many_tasks_message(id: Seq<char>) -> Seq<char> {
    "model '"@ + id
        + "' supports multiple media tasks; select --task or supply --request with a task"@
}

pub fn default_task(manifest: &ModelManifest) -> (r: Result<InferenceTask, String>)
    ensures
        match r {
            Ok(task) => usual_task(manifest.metadata.tasks@) == Some(task),
            Err(message) => usual_task(manifest.metadata.tasks@) is None && message@
                == many_tasks_message(manifest.id@),
        },
{
    let tasks = &manifest.metadata.tasks;
    if tasks.len() == 0 || has_task(tasks, InferenceTask::TextGeneration) {
        return Ok(InferenceTask::TextGeneration);
    }
    if has_task(tasks, InferenceTask::ImageUnderstanding) {
        return Ok(InferenceTask::ImageUnderstanding);
    }
    if tasks.len() == 1 {
        return Ok(tasks[0]);
    }
    Err(
        join3(
            "model '",
            manifest.id.as_str(),
            "' supports multiple media tasks; select --task or supply --request with a task",
        ),
    )
}

/// The task that was asked for: outright, by the request, by the messages that
/// it holds, or by what the model does.
pub open spec fn asked_task(
    tasks: Seq<InferenceTask>,
    explicit: Option<InferenceTask>,
    requested: Option<InferenceTask>,
    has_messages: bool,
) -> Option<InferenceTask> {
    if explicit is Some {
        explicit
    } else if requested is Some {
        requested
    } else if has_messages {
        Some(InferenceTask::TextGeneration)
    } else {
        usual_task(tasks)
    }
}

pub fn resolve_run_task(
    manifest: &ModelManifest,
    explicit: Option<InferenceTask>,
    requested: Option<InferenceTask>,
    has_messages: bool,
) -> (r: Result<InferenceTask, String>)
    ensures
        ({
            let disagree = explicit is Some && requested is Some && explicit != requested;
            let task = asked_task(manifest.metadata.tasks@, explicit, requested, has_messages);
            match r {
                Ok(found) => !disagree && task == Some(found),
                Err(message) => if disagree {
                    message@ == "--task disagrees with request task"@
                } else {
                    task is None && message@ == many_tasks_message(manifest.id@)
                },
            }
        }),
{
    if let Some(explicit) = explicit {
        if let Some(requested) = requested {
            if explicit != requested {
                return Err("--task disagrees with request task".to_owned());
            }
        }
        return Ok(explicit);
    }
    if let Some(requested) = requested {
        return Ok(requested);
    }
    if has_messages {
        return Ok(InferenceTask::TextGeneration);
    }
    default_task(manifest)
}

/// A task that is answered with words, not with files.
pub fn is_text_task(task: InferenceTask) -> (r: bool)
    ensures
        r == (task is TextGeneration || task is ImageUnderstanding),
{
    task == InferenceTask::TextGeneration || task == InferenceTask::ImageUnderstanding
}

// ---------------------------------------------------------------------------
// Options that go together
// ---------------------------------------------------------------------------

/// Which options were given.
#[derive(Clone, Copy, Debug, PartialEq, Eq, Structural)]
pub struct RunFlags {
    pub persistence: bool,
    pub stream: bool,
    pub stream_granularity: bool,
    pub temperature: bool,
    pub top_p: bool,
    pub chat_template: bool,
    pub max_tokens: bool,
    pub no_history: bool,
    pub inputs: bool,
    pub parameters: bool,
    pub output: bool,
}

/// What is wrong with the options for a task, the first thing first.
pub open spec fn option_error(flags: RunFlags, text_task: bool) -> Option<Seq<char>> {
    if text_task {
        if flags.inputs || flags.parameters || flags.output {
            Some(
                "text/vision uses --image or OpenAI --request; --input, --set and --output are media options"@,
            )
        } else {
            None
        }
    } else if flags.persistence {
        Some(
            "conversation persistence applies to text/vision and tool conversations; media uses the existing output store"@,
        )
    } else if flags.stream || flags.stream_granularity {
        Some("this media task returns completed outputs; text --stream is not supported"@)
    } else if flags.temperature || flags.top_p || flags.chat_template || flags.max_tokens
        || flags.no_history {
        Some(
            "text sampling/history/template options do not apply to media; use --set with the task's parameter schema"@,
        )
    } else {
        None
    }
}

pub fn check_run_options(flags: RunFlags, task: InferenceTask) -> (r: Result<(), String>)
    ensures
        match r {
            Ok(_) => option_error(flags, task is TextGeneration || task is ImageUnderstanding)
                is None,
            Err(message) => option_error(
                flags,
                task is TextGeneration || task is ImageUnderstanding,
            ) == Some(message@),
        },
{
    if is_text_task(task) {
        if flags.inputs || flags.parameters || flags.output {
            return Err(
                "text/vision uses --image or OpenAI --request; --input, --set and --output are media options".to_owned(),
            );
        }
        return Ok(());
    }
    if flags.persistence {
        return Err(
            "conversation persistence applies to text/vision and tool conversations; media uses the existing output store".to_owned(),
        );
    }
    if flags.stream || flags.stream_granularity {
        return Err(
            "this media task returns completed outputs; text --stream is not supported".to_owned(),
        );
    }
    if flags.temperature || flags.top_p || flags.chat_template || flags.max_tokens
        || flags.no_history {
        return Err(
            "text sampling/history/template options do not apply to media; use --set with the task's parameter schema".to_owned(),
        );
    }
    Ok(())
}

// ---------------------------------------------------------------------------
// Media requests
// ---------------------------------------------------------------------------

pub open spec fn modality_named(name: Seq<char>) -> Option<InputModality> {
    if name == "text"@ {
        Some(InputModality::Text)
    } else if name == "image"@ {
        Some(InputModality::Image)
    } else if name == "video"@ {
        Some(InputModality::Video)
    } else if name == "audio"@ {
        Some(InputModality::Audio)
    } else {
        None
    }
}

fn find_modality(name: &str) -> (r: Option<InputModality>)
    ensures
        r == modality_named(name@),
{
    if str_eq(name, "text") {
        Some(InputModality::Text)
    } else if str_eq(name, "image") {
        Some(InputModality::Image)
    } else if str_eq(name, "video") {
        Some(InputModality::Video)
    } else if str_eq(name, "audio") {
        Some(InputModality::Audio)
    } else {
        None
    }
}

/// The input that `MODALITY[:ROLE]=PATH_OR_URL` describes; without a role, the
/// modality is the role.
pub open spec fn described_input(value: Seq<char>) -> Result<InputView, Seq<char>> {
    match split_at_first(value, '=') {
        None => Err("--input requires MODALITY[:ROLE]=PATH_OR_URL"@),
        Some((kind, source)) => {
            let (modality, role) = match split_at_first(kind, ':') {
                Some((modality, role)) => (modality, role),
                None => (kind, kind),
            };
            match modality_named(modality) {
                None => Err("unsupported input modality '"@ + modality + "'"@),
                Some(found) => if is_blank(role) || is_blank(source) {
                    Err("input role and source must not be empty"@)
                } else {
                    Ok(written_input(found, role, source))
                },
            }
        },
    }
}

pub fn parse_input(value: &str) -> (r: Result<InferenceInput, String>)
    ensures
        match r {
            Ok(input) => described_input(value@) == Ok::<InputView, Seq<char>>(input@),
            Err(message) => described_input(value@) == Err::<InputView, Seq<char>>(message@),
        },
{
    let (kind, source) = match str_split_once(value, '=') {
        Some(pair) => pair,
        None => {
            return Err("--input requires MODALITY[:ROLE]=PATH_OR_URL".to_owned());
        },
    };
    let (modality, role) = match str_split_once(kind.as_str(), ':') {
        Some(pair) => pair,
        None => (kind.clone(), kind),
    };
    let found = match find_modality(modality.as_str()) {
        Some(found) => found,
        None => {
            return Err(join3("unsupported input modality '", modality.as_str(), "'"));
        },
    };
    if str_is_blank(role.as_str()) || str_is_blank(source.as_str()) {
        return Err("input role and source must not be empty".to_owned());
    }
    Ok(string_input(found, role.as_str(), source.as_str()))
}

/// The name of the parameter that a seed is.
pub fn seed_parameter(modality: OutputModality) -> (r: Result<&'static str, String>)
    ensures
        match modality {
            OutputModality::Image => r matches Ok(name) && name@ == "image.seed"@,
            OutputModality::Video => r matches Ok(name) && name@ == "video.seed"@,
            OutputModality::Audio => r matches Ok(name) && name@ == "audio.seed"@,
            _ => r matches Err(message) && message@ == "--seed does not apply to this "@
                + "task; use its canonical parameter schema"@,
        },
{
    match modality {
        OutputModality::Image => Ok("image.seed"),
        OutputModality::Video => Ok("video.seed"),
        OutputModality::Audio => Ok("audio.seed"),
        _ => Err(join2("--seed does not apply to this ", "task; use its canonical parameter schema")),
    }
}

/// The routing and the parameters of a request.
pub ghost struct SettingsView {
    pub routing: Seq<(Seq<char>, JsonView)>,
    pub parameters: Seq<(Seq<char>, JsonView)>,
}

/// One setting: a field of the routing that is there, or a parameter.
pub open spec fn with_setting(s: SettingsView, name: Seq<char>, value: JsonView) -> Option<
    SettingsView,
> {
    match without_prefix(name, "routing."@) {
        Some(part) => if place_value(s.routing, part) is Some {
            Some(SettingsView { routing: put(s.routing, part, value), ..s })
        } else {
            None
        },
        None => Some(SettingsView { parameters: put(s.parameters, name, value), ..s }),
    }
}

/// The settings in order, up to the first that names no field of the routing,
/// and that one's refusal.
pub open spec fn with_settings(s: SettingsView, settings: Seq<(Seq<char>, JsonView)>) -> (
    SettingsView,
    Option<Seq<char>>,
)
    decreases settings.len(),
{
    if settings.len() == 0 {
        (s, None)
    } else {
        match with_setting(s, settings[0].0, settings[0].1) {
            Some(next) => with_settings(next, settings.drop_first()),
            None => (s, Some("unknown routing parameter '"@ + settings[0].0 + "'"@)),
        }
    }
}

/// Applies settings to the routing and the parameters of a request. Those before
/// one that is refused have been applied.
pub fn apply_media_parameters(
    routing: &mut Vec<(String, Json)>,
    parameters: &mut Vec<(String, Json)>,
    settings: Vec<(String, Json)>,
) -> (r: Result<(), String>)
    ensures
        ({
            let before = SettingsView {
                routing: field_views(old(routing)@),
                parameters: field_views(old(parameters)@),
            };
            let after = SettingsView {
                routing: field_views(final(routing)@),
                parameters: field_views(final(parameters)@),
            };
            with_settings(before, field_views(settings@)) == (
                after,
                match r {
                    Ok(_) => None,
                    Err(message) => Some(message@),
                },
            )
        }),
{
    let ghost before = SettingsView {
        routing: field_views(routing@),
        parameters: field_views(parameters@),
    };
    let ghost all = field_views(settings@);
    let mut rest = settings;
    let ghost mut n: int = 0;
    assert(all.skip(0) =~= all);
    while rest.len() > 0
        invariant
            0 <= n <= all.len(),
            all == field_views(settings@),
            before == (SettingsView {
                routing: field_views(old(routing)@),
                parameters: field_views(old(parameters)@),
            }),
            field_views(rest@) == all.skip(n),
            with_settings(before, all) == with_settings(
                (SettingsView {
                    routing: field_views(routing@),
                    parameters: field_views(parameters@),
                }),
                all.skip(n),
            ),
        decreases rest@.len(),
    {
        let ghost left = rest@;
        assert(field_views(left).len() == left.len());
        let (name, value) = rest.remove(0);
        proof {
            assert(field_views(left)[0] == (name@, value@));
            assert(all.skip(n)[0] == (name@, value@));
            assert(field_views(rest@) =~= all.skip(n).drop_first());
            assert(all.skip(n).drop_first() =~= all.skip(n + 1));
        }
        match str_strip_prefix(name.as_str(), "routing.") {
            Some(part) => {
                if get_field(routing, part.as_str()).is_none() {
                    return Err(join3("unknown routing parameter '", name.as_str(), "'"));
                }
                put_field(routing, part, value);
            },
            None => {
                put_field(parameters, name, value);
            },
        }
        proof {
            n = n + 1;
        }
    }
    assert(all.skip(n).len() == 0);
    Ok(())
}

/// A place of the routing after the command line was heard: the two agree, or
/// one of them is silent.
pub fn merge_routing(
    label: &str,
    requested: Option<String>,
    supplied: Option<String>,
) -> (r: Result<Option<String>, String>)
    ensures
        match r {
            Ok(merged) => (requested is None || supplied is None || opt_view(requested)
                == opt_view(supplied)) && opt_view(merged) == if supplied is Some {
                opt_view(supplied)
            } else {
                opt_view(requested)
            },
            Err(message) => requested is Some && supplied is Some && opt_view(requested)
                != opt_view(supplied) && message@ == "conflicting media "@ + label@
                + " in request and CLI"@,
        },
{
    match supplied {
        None => Ok(requested),
        Some(supplied) => {
            if let Some(current) = &requested {
                if !str_eq(current.as_str(), supplied.as_str()) {
                    return Err(join3("conflicting media ", label, " in request and CLI"));
                }
            }
            Ok(Some(supplied))
        },
    }
}

// ---------------------------------------------------------------------------
// Text requests
// ---------------------------------------------------------------------------

/// The length of an answer: as the command line says, else as the request does,
/// else the default.
pub fn resolve_max_tokens(
    supplied: Option<usize>,
    max_completion_tokens: Option<usize>,
    max_tokens: Option<usize>,
) -> (r: usize)
    ensures
        r == if supplied is Some {
            supplied->0
        } else if max_completion_tokens is Some {
            max_completion_tokens->0
        } else if max_tokens is Some {
            max_tokens->0
        } else {
            DEFAULT_MAX_NEW_TOKENS
        },
{
    match supplied {
        Some(n) => n,
        None => match max_completion_tokens {
            Some(n) => n,
            None => match max_tokens {
                Some(n) => n,
                None => DEFAULT_MAX_NEW_TOKENS,
            },
        },
    }
}

/// Whether an answer is streamed: asked for outright, by its granularity, or by
/// the request.
pub fn resolve_stream(stream: bool, granularity: bool, requested: Option<bool>) -> (r: bool)
    ensures
        r == (stream || granularity || requested == Some(true)),
{
    stream || granularity || match requested {
        Some(requested) => requested,
        None => false,
    }
}

/// What is wrong with what a text or vision task is asked: neither a prompt nor a
/// request, no messages, or options of the runtime that were found invalid.
pub open spec fn question_error(
    has_request: bool,
    has_prompt: bool,
    has_messages: bool,
    options_error: Option<Seq<char>>,
) -> Option<Seq<char>> {
    if !has_request && !has_prompt {
        Some("text/vision requires a prompt or --request"@)
    } else if !has_messages {
        Some("chat messages must not be empty"@)
    } else {
        options_error
    }
}

/// Checks what a text or vision task is asked, before any conversation that was
/// kept is opened. `options_error` is why the options of the runtime are invalid.
pub fn check_question(
    has_request: bool,
    has_prompt: bool,
    has_messages: bool,
    options_error: Option<&str>,
) -> (r: Result<(), String>)
    ensures
        match question_error(has_request, has_prompt, has_messages, opt_str_view(options_error)) {
            Some(message) => r is Err && r->Err_0@ == message,
            None => r is Ok,
        },
{
    if !has_request && !has_prompt {
        return Err("text/vision requires a prompt or --request".to_owned());
    }
    if !has_messages {
        return Err("chat messages must not be empty".to_owned());
    }
    match options_error {
        Some(message) => Err(message.to_owned()),
        None => Ok(()),
    }
}

/// The tools that a request brings along, and how they may be called.
#[derive(Debug)]
pub struct ToolCallingConfig {
    pub tools: Option<Json>,
    pub tool_choice: Option<Json>,
    pub parallel_tool_calls: Option<bool>,
}

/// What a request says of tools, where it says anything.
pub fn tool_calling_config(
    tools: Option<Json>,
    tool_choice: Option<Json>,
    parallel_tool_calls: Option<bool>,
) -> (r: Option<ToolCallingConfig>)
    ensures
        r == if tools is Some || tool_choice is Some || parallel_tool_calls is Some {
            Some(ToolCallingConfig { tools, tool_choice, parallel_tool_calls })
        } else {
            None
        },
{
    if tools.is_some() || tool_choice.is_some() || parallel_tool_calls.is_some() {
        Some(ToolCallingConfig { tools, tool_choice, parallel_tool_calls })
    } else {
        None
    }
}

/// A backend that a conversation can be routed to.
#[derive(Clone, Copy, Debug, PartialEq, Eq, Structural)]
pub enum RunBackend {
    Choice(BackendChoice),
    /// The one backend that has options of its own.
    Omlx,
}

/// What a conversation is made of, as far as it decides what may be asked.
#[derive(Clone, Copy, Debug, PartialEq, Eq, Structural)]
pub struct ConversationTraits {
    pub has_images: bool,
    pub requires_tools: bool,
    /// The request sets options of the runtime.
    pub has_runtime_options: bool,
}

pub open spec fn takes_runtime_options(backend: RunBackend) -> bool {
    backend == RunBackend::Choice(BackendChoice::Auto) || backend is Omlx
}

/// What is wrong with a conversation, the first thing first. `asked` is the
/// backend that was asked for, or why there is none; `supports_tools` says of the
/// backend that was built whether it calls tools for the model.
pub open spec fn conversation_error(
    traits: ConversationTraits,
    template: Option<ChatTemplateArg>,
    asked: Result<RunBackend, String>,
    supports_tools: Option<bool>,
) -> Option<Seq<char>> {
    if traits.requires_tools && !(template is None || template == Some(ChatTemplateArg::Model)) {
        Some(
            "tool conversations require the backend/model chat template; omit --chat-template or use model"@,
        )
    } else if traits.has_images && traits.has_runtime_options {
        Some("werk.omlx options currently support text chat only"@)
    } else {
        match asked {
            Err(message) => Some(message@),
            Ok(backend) => if traits.has_runtime_options && !takes_runtime_options(backend) {
                Some("werk.omlx controls require the auto or omlx backend"@)
            } else if traits.requires_tools && supports_tools == Some(false) {
                Some("selected backend does not support OpenAI tool calling for this model"@)
            } else {
                None
            },
        }
    }
}

/// Where a conversation is routed to: options of the runtime name the one backend
/// that has them. A conversation is checked before a backend is built, and once
/// more when it is known whether that backend calls tools.
pub fn check_conversation(
    traits: ConversationTraits,
    template: Option<ChatTemplateArg>,
    asked: &Result<RunBackend, String>,
    supports_tools: Option<bool>,
) -> (r: Result<RunBackend, String>)
    ensures
        match conversation_error(traits, template, *asked, supports_tools) {
            Some(message) => r is Err && r->Err_0@ == message,
            None => r is Ok && r->Ok_0 == if traits.has_runtime_options {
                RunBackend::Omlx
            } else {
                asked->Ok_0
            },
        },
{
    let fits = match template {
        None => true,
        Some(ChatTemplateArg::Model) => true,
        Some(_) => false,
    };
    if traits.requires_tools && !fits {
        return Err(
            "tool conversations require the backend/model chat template; omit --chat-template or use model".to_owned(),
        );
    }
    if traits.has_images && traits.has_runtime_options {
        return Err("werk.omlx options currently support text chat only".to_owned());
    }
    let backend = match asked {
        Ok(backend) => *backend,
        Err(message) => {
            return Err(message.clone());
        },
    };
    let takes_options = match backend {
        RunBackend::Choice(BackendChoice::Auto) => true,
        RunBackend::Choice(_) => false,
        RunBackend::Omlx => true,
    };
    if traits.has_runtime_options && !takes_options {
        return Err("werk.omlx controls require the auto or omlx backend".to_owned());
    }
    if traits.requires_tools && supports_tools == Some(false) {
        return Err(
            "selected backend does not support OpenAI tool calling for this model".to_owned(),
        );
    }
    if traits.has_runtime_options {
        Ok(RunBackend::Omlx)
    } else {
        Ok(backend)
    }
}

/// Once a conversation passed the check before its backend was built, nothing but
/// missing tool calls can be found wrong with it.
pub proof fn routed_conversations_lack_only_tools(
    traits: ConversationTraits,
    template: Option<ChatTemplateArg>,
    asked: Result<RunBackend, String>,
    supports_tools: bool,
)
    requires
        conversation_error(traits, template, asked, None) is None,
    ensures
        conversation_error(traits, template, asked, Some(supports_tools)) is Some
            <==> traits.requires_tools && !supports_tools,
{
}

// ---------------------------------------------------------------------------
// What a request may say
// ---------------------------------------------------------------------------

/// A request is read where it is an object of at most 128 MiB, and is then what it
/// says.
pub proof fn requests_are_objects(bytes: Seq<u8>)
    ensures
        bytes.len() > 128 * 1024 * 1024 ==> request_document(bytes) is Err,
        bytes.len() <= 128 * 1024 * 1024 && (json_bytes(bytes) matches Ok(value) && value is Object)
            ==> request_document(bytes) == json_bytes(bytes),
        request_document(bytes) is Ok ==> json_bytes(bytes) is Ok && request_document(bytes)->Ok_0
            is Object,
{
}

/// A request that names a model names the one it is put to, or speaks of another.
pub proof fn requests_speak_of_models(
    fields: Seq<(Seq<char>, JsonView)>,
    model: Seq<char>,
    value: JsonView,
)
    requires
        crate::fields::ascending(fields),
    ensures
        ({
            let without = crate::fields::without(fields, "model"@);
            model_claim(without, model) is Nothing && claimed_model(without).len() == 0
        }),
        ({
            let with = put(fields, "model"@, value);
            &&& value is Null ==> model_claim(with, model) is Nothing
            &&& value is Text ==> claimed_model(with) == value->Text_0
            &&& !(value is Null) && !(value is Text)
                ==> model_claim(with, model) is NoName
        }),
{
    let without = crate::fields::without(fields, "model"@);
    let with = put(fields, "model"@, value);
    crate::fields::removed_names_are_gone(fields, "model"@);
    crate::fields::lemma_place_value(without, "model"@);
    crate::fields::put_values_are_found(fields, "model"@, value);
    crate::fields::lemma_place_value(with, "model"@);
}

/// What is asked for is done: what the command line says first, what the request says
/// next; messages are answered with text; and where nothing is said, a model does what
/// it can do, text before images, and nothing where it is open what that is.
pub proof fn tasks_are_asked_for(
    tasks: Seq<InferenceTask>,
    task: InferenceTask,
    requested: Option<InferenceTask>,
    has_messages: bool,
)
    ensures
        asked_task(tasks, Some(task), requested, has_messages) == Some(task),
        asked_task(tasks, None, Some(task), has_messages) == Some(task),
        asked_task(tasks, None, None, true) == Some(InferenceTask::TextGeneration),
        asked_task(Seq::empty(), None, None, false) == Some(InferenceTask::TextGeneration),
        tasks.contains(InferenceTask::TextGeneration) ==> asked_task(tasks, None, None, false)
            == Some(InferenceTask::TextGeneration),
        tasks.contains(InferenceTask::ImageUnderstanding) && !tasks.contains(
            InferenceTask::TextGeneration,
        ) ==> asked_task(tasks, None, None, false) == Some(InferenceTask::ImageUnderstanding),
        asked_task(seq![task], None, None, false) == Some(task),
        asked_task(tasks, None, None, false) is Some && tasks.len() > 0 ==> tasks.contains(
            asked_task(tasks, None, None, false)->0,
        ),
        tasks.len() >= 2 && !tasks.contains(InferenceTask::TextGeneration) && !tasks.contains(
            InferenceTask::ImageUnderstanding,
        ) ==> asked_task(tasks, None, None, false) is None,
{
    assert(seq![task][0] == task);
    if seq![task].contains(InferenceTask::TextGeneration) {
        assert(task == InferenceTask::TextGeneration);
    }
    if seq![task].contains(InferenceTask::ImageUnderstanding) {
        assert(task == InferenceTask::ImageUnderstanding);
    }
    if tasks.len() == 1 {
        assert(tasks[0] == tasks[0] && tasks.contains(tasks[0]));
    }
}

/// An option is refused exactly where its kind of task is not the one that is asked for.
pub proof fn options_belong_to_tasks(flags: RunFlags)
    ensures
        option_error(flags, true) is Some <==> flags.inputs || flags.parameters || flags.output,
        option_error(flags, false) is Some <==> flags.persistence || flags.stream
            || flags.stream_granularity || flags.temperature || flags.top_p || flags.chat_template
            || flags.max_tokens || flags.no_history,
        option_error(flags, true) is None && option_error(flags, false) is None ==> flags == (
        RunFlags {
            persistence: false,
            stream: false,
            stream_granularity: false,
            temperature: false,
            top_p: false,
            chat_template: false,
            max_tokens: false,
            no_history: false,
            inputs: false,
            parameters: false,
            output: false,
        }),
{
}

/// An input is described by its modality, its role and its source; without a role the
/// modality is the role.
pub proof fn inputs_are_described(name: Seq<char>, role: Seq<char>, source: Seq<char>)
    requires
        !name.contains(':') && !name.contains('='),
        !role.contains('='),
    ensures
        described_input(name).is_err(),
        ({
            let full = described_input(name + seq![':'] + role + seq!['='] + source);
            &&& modality_named(name) is None || is_blank(role) || is_blank(source) ==> full is Err
            &&& modality_named(name) is Some && !is_blank(role) && !is_blank(source) ==> full == Ok::<
                InputView,
                Seq<char>,
            >(written_input(modality_named(name)->0, role, source))
        }),
        ({
            let short = described_input(name + seq!['='] + source);
            modality_named(name) is Some && !is_blank(name) && !is_blank(source) ==> short == Ok::<
                InputView,
                Seq<char>,
            >(written_input(modality_named(name)->0, name, source))
        }),
        modality_named("text"@) == Some(InputModality::Text),
        modality_named("image"@) == Some(InputModality::Image),
        modality_named("video"@) == Some(InputModality::Video),
        modality_named("audio"@) == Some(InputModality::Audio),
        modality_named(name) is Some ==> name == "text"@ || name == "image"@ || name == "video"@
            || name == "audio"@,
{
    reveal_strlit("text");
    reveal_strlit("image");
    reveal_strlit("video");
    reveal_strlit("audio");
    assert("text"@[0] == 't' && "image"@[0] == 'i' && "video"@[0] == 'v' && "audio"@[0] == 'a');
    crate::text::lemma_position(name, '=');
    if crate::text::position(name, '=') < name.len() {
        assert(name.contains(name[crate::text::position(name, '=')]));
    }
    let kind = name + seq![':'] + role;
    let full = kind + seq!['='] + source;
    assert forall|j: int| 0 <= j < kind.len() implies full[j] != '=' by {
        if j < name.len() {
            assert(name.contains(name[j]));
            assert(full[j] == name[j]);
        } else if j > name.len() {
            assert(role.contains(role[j - name.len() - 1]));
            assert(full[j] == role[j - name.len() - 1]);
        }
    }
    crate::text::lemma_position_unique(full, '=', kind.len() as int);
    assert(full.take(kind.len() as int) =~= kind);
    assert(full.skip(kind.len() as int + 1) =~= source);
    assert forall|j: int| 0 <= j < name.len() implies kind[j] != ':' by {
        assert(name.contains(name[j]));
    }
    crate::text::lemma_position_unique(kind, ':', name.len() as int);
    assert(kind.take(name.len() as int) =~= name);
    assert(kind.skip(name.len() as int + 1) =~= role);
    let short = name + seq!['='] + source;
    assert forall|j: int| 0 <= j < name.len() implies short[j] != '=' by {
        assert(name.contains(name[j]));
    }
    crate::text::lemma_position_unique(short, '=', name.len() as int);
    assert(short.take(name.len() as int) =~= name);
    assert(short.skip(name.len() as int + 1) =~= source);
    crate::text::lemma_position(name, ':');
    if crate::text::position(name, ':') < name.len() {
        assert(name.contains(name[crate::text::position(name, ':')]));
    }
}

/// A setting of the routing is one only where the routing has it; every other is a
/// parameter; and neither touches the other.
pub proof fn settings_go_where_they_belong(
    s: SettingsView,
    name: Seq<char>,
    part: Seq<char>,
    value: JsonView,
)
    requires
        crate::fields::ascending(s.routing),
        crate::fields::ascending(s.parameters),
        !"routing."@.is_prefix_of(name),
    ensures
        ({
            let r = with_setting(s, name, value);
            &&& r is Some
            &&& r->0.routing == s.routing
            &&& crate::json::lookup(r->0.parameters, name) == Some(value)
        }),
        ({
            let r = with_setting(s, "routing."@ + part, value);
            &&& r is Some <==> crate::json::lookup(s.routing, part) is Some
            &&& r is Some ==> r->0.parameters == s.parameters && crate::json::lookup(
                r->0.routing,
                part,
            ) == Some(value)
        }),
{
    crate::fields::put_values_are_found(s.parameters, name, value);
    crate::fields::put_values_are_found(s.routing, part, value);
    crate::fields::lemma_place_value(s.routing, part);
    assert("routing."@.is_prefix_of("routing."@ + part));
    assert(("routing."@ + part).skip("routing."@.len() as int) =~= part);
}

/// A question needs something to ask and somebody who said it.
pub proof fn questions_say_something(
    has_request: bool,
    has_prompt: bool,
    has_messages: bool,
    options_error: Option<Seq<char>>,
)
    ensures
        question_error(has_request, has_prompt, has_messages, options_error) is None <==> (
        has_request || has_prompt) && has_messages && options_error is None,
        (has_request || has_prompt) && has_messages ==> question_error(
            has_request,
            has_prompt,
            has_messages,
            options_error,
        ) == options_error,
{
}

/// A conversation goes to a backend exactly where its template, its images, its options
/// and its tools go with that backend.
pub proof fn conversations_go_with_backends(
    traits: ConversationTraits,
    template: Option<ChatTemplateArg>,
    backend: RunBackend,
    supports_tools: Option<bool>,
    message: String,
)
    ensures
        conversation_error(traits, template, Ok(backend), supports_tools) is None <==> {
            &&& traits.requires_tools ==> (template is None || template == Some(
                ChatTemplateArg::Model,
            )) && supports_tools != Some(false)
            &&& traits.has_runtime_options ==> !traits.has_images && (backend is Omlx || backend
                == RunBackend::Choice(BackendChoice::Auto))
        },
        conversation_error(traits, template, Err(message), supports_tools) is Some,
        !traits.requires_tools && !traits.has_images ==> conversation_error(
            traits,
            template,
            Err(message),
            supports_tools,
        ) == Some(message@),
{
}

} // verus!

//! What `--verbose` and `--debug` tell of a media request.

use vstd::prelude::*;

use crate::backend::{yes_no, yes_no_text};
use crate::binary64::{bytes_text, format_bytes};
use crate::json::{field, text_of, Json, JsonView};
use crate::manifest::{InferenceTask, InputModality, OutputModality};
use crate::media_request::InferenceInput;
use crate::order::{ascending_set, sorted_set};
use crate::outputs::OutputFile;
use crate::redaction::{
    is_private_text, media_debug_parameter_value, media_input_source_kind,
    media_sanitize_debug_text, media_text_presence, presence, sanitized, shown_value, source_kind,
    ParameterValue,
};
use crate::report_lines::{
    add_line, add_lines, add_opt_stat, add_stat, lemma_from_nothing, line, no_lines, opt_stat, stat,
};
use crate::text::{
    decimal, i64_text, join2, join3, join5, join_strings, joined, opt_nat, opt_str, opt_str_view,
    opt_view, parse_u64, parsed_unsigned, signed_decimal, str_eq, u64_text, usize_text, views,
};

verus! {

/// The column in which values stand.
pub const STAT_WIDTH: usize = 24;

// ---------------------------------------------------------------------------
// What is told of
// ---------------------------------------------------------------------------

/// A step down that a plan accepts to make a request fit.
#[derive(Debug)]
pub enum ExecutionDegradation {
    CpuOffload,
    SequentialOffload,
    ComponentOffload,
    VaeTiling,
    TemporalWindowing,
    SlowerAttention { backend: String },
}

/// A try to run a request. The outcome is its name, the duration is written out.
#[derive(Debug)]
pub struct RuntimeAttempt {
    pub runtime: String,
    pub outcome: String,
    pub duration: String,
    pub error: Option<String>,
}

/// A parameter with its value and where that comes from.
#[derive(Debug)]
pub struct ResolvedParameter {
    pub path: String,
    pub value: ParameterValue,
    pub source: String,
    /// The backend changed it.
    pub adjusted: bool,
    /// The request set it.
    pub explicit: bool,
}

/// A request as it is run, its parameters in the order of their names.
#[derive(Debug)]
pub struct EffectiveRequest {
    pub task: String,
    pub model: String,
    pub parameter_policy: String,
    pub prompt: Option<String>,
    pub negative_prompt: Option<String>,
    pub inputs: Vec<InferenceInput>,
    pub parameters: Vec<ResolvedParameter>,
}

/// An estimate: how well the request fits, how sure that is, and what it takes.
#[derive(Debug)]
pub struct WorkloadEstimate {
    pub fit: String,
    pub confidence: String,
    pub accelerator_peak_bytes: Option<u64>,
    pub host_peak_bytes: Option<u64>,
}

#[derive(Debug)]
pub struct PlanCandidate {
    pub runtime_id: String,
    pub backend: String,
    pub accepted: bool,
    pub score: Option<i64>,
    pub reasons: Vec<String>,
    pub degradations: Vec<ExecutionDegradation>,
}

#[derive(Debug)]
pub struct ExecutionPlan {
    pub candidates: Vec<PlanCandidate>,
    pub selected_runtime: Option<String>,
    pub selected_backend: Option<String>,
    pub score: Option<i64>,
    pub backend_fallback: bool,
    pub degradations: Vec<ExecutionDegradation>,
    pub quality_downgrades: Vec<String>,
}

// ---------------------------------------------------------------------------
// Pieces
// ---------------------------------------------------------------------------

pub open spec fn degradation_text(d: ExecutionDegradation) -> Seq<char> {
    match d {
        ExecutionDegradation::CpuOffload => "cpu offload"@,
        ExecutionDegradation::SequentialOffload => "sequential offload"@,
        ExecutionDegradation::ComponentOffload => "component offload"@,
        ExecutionDegradation::VaeTiling => "VAE tiling"@,
        ExecutionDegradation::TemporalWindowing => "temporal windowing"@,
        ExecutionDegradation::SlowerAttention { backend } => "slower attention ("@ + backend@ + ")"@,
    }
}

pub fn format_media_degradation(degradation: &ExecutionDegradation) -> (r: String)
    ensures
        r@ == degradation_text(*degradation),
{
    match degradation {
        ExecutionDegradation::CpuOffload => "cpu offload".to_owned(),
        ExecutionDegradation::SequentialOffload => "sequential offload".to_owned(),
        ExecutionDegradation::ComponentOffload => "component offload".to_owned(),
        ExecutionDegradation::VaeTiling => "VAE tiling".to_owned(),
        ExecutionDegradation::TemporalWindowing => "temporal windowing".to_owned(),
        ExecutionDegradation::SlowerAttention { backend } => join3(
            "slower attention (",
            backend.as_str(),
            ")",
        ),
    }
}

pub open spec fn degradation_texts(all: Seq<ExecutionDegradation>) -> Seq<Seq<char>> {
    all.map_values(|d: ExecutionDegradation| degradation_text(d))
}

fn list_degradations(all: &Vec<ExecutionDegradation>) -> (r: Vec<String>)
    ensures
        views(r@) == degradation_texts(all@),
{
    let mut r: Vec<String> = Vec::new();
    let mut i: usize = 0;
    while i < all.len()
        invariant
            i <= all@.len(),
            r@.len() == i,
            forall|j: int| 0 <= j < i ==> (#[trigger] r@[j])@ == degradation_text(all@[j]),
        decreases all@.len() - i,
    {
        r.push(format_media_degradation(&all[i]));
        i = i + 1;
    }
    assert(views(r@) =~= degradation_texts(all@));
    r
}

/// A list behind a label, where there is anything in it.
pub open spec fn list_stat(label: Seq<char>, items: Seq<Seq<char>>) -> Seq<Seq<char>> {
    if items.len() == 0 {
        Seq::empty()
    } else {
        stat(STAT_WIDTH as nat, label, joined(items, ", "@))
    }
}

fn add_list_stat(lines: &mut Vec<String>, label: &str, items: &Vec<String>)
    ensures
        views(final(lines)@) == views(old(lines)@) + list_stat(label@, views(items@)),
{
    if items.len() == 0 {
        assert(views(lines@) + Seq::<Seq<char>>::empty() =~= views(lines@));
    } else {
        let text = join_strings(items, ", ");
        add_stat(lines, STAT_WIDTH, label, text.as_str());
    }
}

pub open spec fn score_text(score: Option<i64>) -> Seq<char> {
    match score {
        Some(score) => signed_decimal(score as int),
        None => "N/A"@,
    }
}

pub fn media_optional_i32(value: Option<i64>) -> (r: String)
    ensures
        r@ == score_text(value),
{
    match value {
        Some(value) => i64_text(value),
        None => "N/A".to_owned(),
    }
}

pub open spec fn opt_bytes(bytes: Option<u64>) -> Option<Seq<char>> {
    match bytes {
        Some(bytes) => Some(bytes_text(bytes as nat)),
        None => None,
    }
}

fn opt_bytes_text(bytes: Option<u64>) -> (r: Option<String>)
    ensures
        opt_view(r) == opt_bytes(bytes),
{
    match bytes {
        Some(bytes) => Some(format_bytes(bytes)),
        None => None,
    }
}

pub open spec fn modality_name(modality: InputModality) -> Seq<char> {
    match modality {
        InputModality::Text => "text"@,
        InputModality::Image => "image"@,
        InputModality::Video => "video"@,
        InputModality::Audio => "audio"@,
    }
}

pub fn modality_label(modality: InputModality) -> (r: &'static str)
    ensures
        r@ == modality_name(modality),
{
    match modality {
        InputModality::Text => "text",
        InputModality::Image => "image",
        InputModality::Video => "video",
        InputModality::Audio => "audio",
    }
}

pub open spec fn estimate_lines(e: WorkloadEstimate) -> Seq<Seq<char>> {
    stat(STAT_WIDTH as nat, "workload fit:"@, e.fit@ + " ("@ + e.confidence@ + ")"@) + opt_stat(
        STAT_WIDTH as nat,
        "estimated accel peak:"@,
        opt_bytes(e.accelerator_peak_bytes),
    ) + opt_stat(STAT_WIDTH as nat, "estimated host peak:"@, opt_bytes(e.host_peak_bytes))
}

fn tell_estimate(e: &WorkloadEstimate) -> (r: Vec<String>)
    ensures
        views(r@) == estimate_lines(*e),
{
    let mut r = no_lines();
    let mut fit = join3(e.fit.as_str(), " (", e.confidence.as_str());
    fit.push_str(")");
    add_stat(&mut r, STAT_WIDTH, "workload fit:", fit.as_str());
    proof {
        lemma_from_nothing(views(r@));
        assert(views(r@) =~= stat(
            STAT_WIDTH as nat,
            "workload fit:"@,
            e.fit@ + " ("@ + e.confidence@ + ")"@,
        ));
    }
    let accelerator = opt_bytes_text(e.accelerator_peak_bytes);
    add_opt_stat(&mut r, STAT_WIDTH, "estimated accel peak:", opt_str(&accelerator));
    let host = opt_bytes_text(e.host_peak_bytes);
    add_opt_stat(&mut r, STAT_WIDTH, "estimated host peak:", opt_str(&host));
    r
}

// ---------------------------------------------------------------------------
// Routing
// ---------------------------------------------------------------------------

pub open spec fn input_line(input: InferenceInput) -> Seq<char> {
    "  "@ + modality_name(input.modality) + " role="@ + input.role@ + " source="@ + source_kind(
        input.source,
    )
}

pub open spec fn input_lines(inputs: Seq<InferenceInput>) -> Seq<Seq<char>> {
    if inputs.len() == 0 {
        stat(STAT_WIDTH as nat, "inputs:"@, "none"@)
    } else {
        stat(STAT_WIDTH as nat, "inputs:"@, ""@) + inputs.map_values(
            |i: InferenceInput| input_line(i),
        )
    }
}

fn tell_inputs(inputs: &Vec<InferenceInput>) -> (r: Vec<String>)
    ensures
        views(r@) == input_lines(inputs@),
{
    let mut r = no_lines();
    if inputs.len() == 0 {
        add_stat(&mut r, STAT_WIDTH, "inputs:", "none");
        assert(views(r@) =~= input_lines(inputs@));
        return r;
    }
    add_stat(&mut r, STAT_WIDTH, "inputs:", "");
    let ghost head = stat(STAT_WIDTH as nat, "inputs:"@, ""@);
    assert(views(r@) =~= head);
    let ghost rest = inputs@.map_values(|i: InferenceInput| input_line(i));
    let mut i: usize = 0;
    assert(head + rest.take(0) =~= head);
    while i < inputs.len()
        invariant
            i <= inputs@.len(),
            rest == inputs@.map_values(|i: InferenceInput| input_line(i)),
            views(r@) == head + rest.take(i as int),
        decreases inputs@.len() - i,
    {
        let input = &inputs[i];
        let mut text = join5(
            "  ",
            modality_label(input.modality),
            " role=",
            input.role.as_str(),
            " source=",
        );
        text.push_str(media_input_source_kind(&input.source));
        assert(rest[i as int] == text@);
        add_line(&mut r, text);
        i = i + 1;
        assert(views(r@) =~= head + rest.take(i as int));
    }
    assert(rest.take(i as int) =~= rest);
    r
}

/// The parameter with this name.
pub open spec fn find_parameter(all: Seq<ResolvedParameter>, path: Seq<char>) -> Option<int>
    decreases all.len(),
{
    if all.len() == 0 {
        None
    } else if all.last().path@ == path {
        Some(all.len() - 1)
    } else {
        find_parameter(all.drop_last(), path)
    }
}

fn parameter_index(all: &Vec<ResolvedParameter>, path: &str) -> (r: Option<usize>)
    ensures
        match r {
            Some(i) => i < all@.len() && find_parameter(all@, path@) == Some(i as int),
            None => find_parameter(all@, path@) is None,
        },
{
    let mut n: usize = all.len();
    assert(all@.take(n as int) =~= all@);
    while n > 0
        invariant
            n <= all@.len(),
            find_parameter(all@, path@) == find_parameter(all@.take(n as int), path@),
        decreases n,
    {
        assert(all@.take(n as int).drop_last() =~= all@.take(n - 1));
        if str_eq(all[n - 1].path.as_str(), path) {
            return Some(n - 1);
        }
        n = n - 1;
    }
    None
}

/// The value of a parameter that is a text, and where it comes from.
pub open spec fn text_parameter(all: Seq<ResolvedParameter>, path: Seq<char>) -> Option<
    (Seq<char>, Seq<char>),
> {
    match find_parameter(all, path) {
        Some(i) => match all[i].value {
            ParameterValue::Text(text) => Some((text@, all[i].source@)),
            _ => None,
        },
        None => None,
    }
}

pub open spec fn routing_stat(label: Seq<char>, all: Seq<ResolvedParameter>, path: Seq<char>) -> Seq<
    Seq<char>,
> {
    opt_stat(
        STAT_WIDTH as nat,
        label,
        match text_parameter(all, path) {
            Some((value, source)) => Some(value + " ("@ + source + ")"@),
            None => None,
        },
    )
}

fn add_routing_stat(
    lines: &mut Vec<String>,
    label: &str,
    all: &Vec<ResolvedParameter>,
    path: &str,
)
    ensures
        views(final(lines)@) == views(old(lines)@) + routing_stat(label@, all@, path@),
{
    let value: Option<String> = match parameter_index(all, path) {
        Some(i) => match &all[i].value {
            ParameterValue::Text(text) => {
                let mut value = join3(text.as_str(), " (", all[i].source.as_str());
                value.push_str(")");
                Some(value)
            },
            _ => None,
        },
        None => None,
    };
    add_opt_stat(lines, STAT_WIDTH, label, opt_str(&value));
}

pub open spec fn candidate_lines(c: PlanCandidate) -> Seq<Seq<char>> {
    let status = if c.accepted {
        "accepted"@
    } else {
        "rejected"@
    };
    line(
        "  "@ + c.runtime_id@ + " backend="@ + c.backend@ + " status="@ + status + " score="@
            + score_text(c.score),
    ) + c.reasons@.map_values(|reason: String| "    reason: "@ + sanitized(reason@))
        + c.degradations@.map_values(
        |d: ExecutionDegradation| "    degradation: "@ + degradation_text(d),
    )
}

fn tell_candidate(c: &PlanCandidate) -> (r: Vec<String>)
    ensures
        views(r@) == candidate_lines(*c),
{
    let mut r = no_lines();
    let status = if c.accepted {
        "accepted"
    } else {
        "rejected"
    };
    let score = media_optional_i32(c.score);
    let mut text = join5("  ", c.runtime_id.as_str(), " backend=", c.backend.as_str(), " status=");
    text.push_str(status);
    text.push_str(" score=");
    text.push_str(score.as_str());
    let ghost head = line(text@);
    add_line(&mut r, text);
    assert(views(r@) =~= head);
    let ghost reasons = c.reasons@.map_values(
        |reason: String| "    reason: "@ + sanitized(reason@),
    );
    let mut i: usize = 0;
    assert(head + reasons.take(0) =~= head);
    while i < c.reasons.len()
        invariant
            i <= c.reasons@.len(),
            reasons == c.reasons@.map_values(
                |reason: String| "    reason: "@ + sanitized(reason@),
            ),
            views(r@) == head + reasons.take(i as int),
        decreases c.reasons@.len() - i,
    {
        let shown = media_sanitize_debug_text(c.reasons[i].as_str());
        let text = join2("    reason: ", shown.as_str());
        assert(reasons[i as int] == text@);
        add_line(&mut r, text);
        i = i + 1;
        assert(views(r@) =~= head + reasons.take(i as int));
    }
    assert(reasons.take(i as int) =~= reasons);
    let ghost first = head + reasons;
    let ghost steps = c.degradations@.map_values(
        |d: ExecutionDegradation| "    degradation: "@ + degradation_text(d),
    );
    let mut k: usize = 0;
    assert(first + steps.take(0) =~= first);
    while k < c.degradations.len()
        invariant
            k <= c.degradations@.len(),
            steps == c.degradations@.map_values(
                |d: ExecutionDegradation| "    degradation: "@ + degradation_text(d),
            ),
            views(r@) == first + steps.take(k as int),
        decreases c.degradations@.len() - k,
    {
        let step = format_media_degradation(&c.degradations[k]);
        let text = join2("    degradation: ", step.as_str());
        assert(steps[k as int] == text@);
        add_line(&mut r, text);
        k = k + 1;
        assert(views(r@) =~= first + steps.take(k as int));
    }
    assert(steps.take(k as int) =~= steps);
    r
}

pub open spec fn all_candidate_lines(candidates: Seq<PlanCandidate>) -> Seq<Seq<char>>
    decreases candidates.len(),
{
    if candidates.len() == 0 {
        Seq::empty()
    } else {
        all_candidate_lines(candidates.drop_last()) + candidate_lines(candidates.last())
    }
}

fn tell_candidates(candidates: &Vec<PlanCandidate>) -> (r: Vec<String>)
    ensures
        views(r@) == all_candidate_lines(candidates@),
{
    let mut r = no_lines();
    let mut i: usize = 0;
    assert(candidates@.take(0) =~= Seq::empty());
    while i < candidates.len()
        invariant
            i <= candidates@.len(),
            views(r@) == all_candidate_lines(candidates@.take(i as int)),
        decreases candidates@.len() - i,
    {
        assert(candidates@.take(i + 1).drop_last() =~= candidates@.take(i as int));
        add_lines(&mut r, tell_candidate(&candidates[i]));
        i = i + 1;
    }
    assert(candidates@.take(i as int) =~= candidates@);
    r
}

pub open spec fn parameter_line(p: ResolvedParameter) -> Seq<char> {
    "  "@ + p.path@ + " = "@ + shown_value(p.path@, p.value) + " ("@ + p.source@ + (if p.explicit {
        " explicit"@
    } else {
        ""@
    }) + ")"@
}

pub open spec fn parameter_lines(all: Seq<ResolvedParameter>) -> Seq<Seq<char>> {
    all.map_values(|p: ResolvedParameter| parameter_line(p))
}

fn tell_parameters(all: &Vec<ResolvedParameter>) -> (r: Vec<String>)
    ensures
        views(r@) == parameter_lines(all@),
{
    let mut r: Vec<String> = Vec::new();
    let mut i: usize = 0;
    while i < all.len()
        invariant
            i <= all@.len(),
            r@.len() == i,
            forall|j: int| 0 <= j < i ==> (#[trigger] r@[j])@ == parameter_line(all@[j]),
        decreases all@.len() - i,
    {
        let p = &all[i];
        let value = media_debug_parameter_value(p.path.as_str(), &p.value);
        let mut text = join5("  ", p.path.as_str(), " = ", value.as_str(), " (");
        text.push_str(p.source.as_str());
        text.push_str(
            if p.explicit {
                " explicit"
            } else {
                ""
            },
        );
        text.push_str(")");
        r.push(text);
        i = i + 1;
    }
    assert(views(r@) =~= parameter_lines(all@));
    r
}

pub open spec fn or_none(value: Option<Seq<char>>) -> Seq<char> {
    match value {
        Some(value) => value,
        None => "none"@,
    }
}

fn text_or_none(value: &Option<String>) -> (r: &str)
    ensures
        r@ == or_none(opt_view(*value)),
{
    match value {
        Some(value) => value.as_str(),
        None => "none",
    }
}

/// What is told of the routing of a request. Of its texts there is only the
/// length, of its inputs only the kind.
pub open spec fn routing_debug_lines(
    request: EffectiveRequest,
    estimate: WorkloadEstimate,
    plan: ExecutionPlan,
) -> Seq<Seq<char>> {
    let w = STAT_WIDTH as nat;
    let all = request.parameters@;
    line("media routing debug:"@) + stat(w, "task:"@, request.task@) + stat(
        w,
        "model:"@,
        request.model@,
    ) + stat(w, "parameter policy:"@, request.parameter_policy@) + stat(
        w,
        "prompt:"@,
        presence(opt_view(request.prompt)),
    ) + stat(w, "negative prompt:"@, presence(opt_view(request.negative_prompt))) + input_lines(
        request.inputs@,
    ) + routing_stat("routing backend:"@, all, "routing.backend"@) + routing_stat(
        "routing accelerator:"@,
        all,
        "routing.accelerator"@,
    ) + routing_stat("routing device:"@, all, "routing.device"@) + routing_stat(
        "routing precision:"@,
        all,
        "routing.precision"@,
    ) + routing_stat("fallback policy:"@, all, "routing.fallback_policy"@) + estimate_lines(estimate)
        + line("candidate runtimes:"@) + all_candidate_lines(plan.candidates@) + stat(
        w,
        "selected runtime:"@,
        or_none(opt_view(plan.selected_runtime)),
    ) + stat(w, "selected backend:"@, or_none(opt_view(plan.selected_backend))) + stat(
        w,
        "selected score:"@,
        score_text(plan.score),
    ) + line("resolved parameters:"@) + parameter_lines(all)
}

pub fn write_media_routing_debug(
    request: &EffectiveRequest,
    estimate: &WorkloadEstimate,
    plan: &ExecutionPlan,
) -> (r: Vec<String>)
    ensures
        views(r@) == routing_debug_lines(*request, *estimate, *plan),
{
    let mut r = no_lines();
    add_line(&mut r, "media routing debug:".to_owned());
    assert(views(r@) =~= line("media routing debug:"@));
    add_stat(&mut r, STAT_WIDTH, "task:", request.task.as_str());
    add_stat(&mut r, STAT_WIDTH, "model:", request.model.as_str());
    add_stat(&mut r, STAT_WIDTH, "parameter policy:", request.parameter_policy.as_str());
    let prompt = media_text_presence(opt_str(&request.prompt));
    add_stat(&mut r, STAT_WIDTH, "prompt:", prompt.as_str());
    let negative = media_text_presence(opt_str(&request.negative_prompt));
    add_stat(&mut r, STAT_WIDTH, "negative prompt:", negative.as_str());
    add_lines(&mut r, tell_inputs(&request.inputs));
    let all = &request.parameters;
    add_routing_stat(&mut r, "routing backend:", all, "routing.backend");
    add_routing_stat(&mut r, "routing accelerator:", all, "routing.accelerator");
    add_routing_stat(&mut r, "routing device:", all, "routing.device");
    add_routing_stat(&mut r, "routing precision:", all, "routing.precision");
    add_routing_stat(&mut r, "fallback policy:", all, "routing.fallback_policy");
    add_lines(&mut r, tell_estimate(estimate));
    add_line(&mut r, "candidate runtimes:".to_owned());
    add_lines(&mut r, tell_candidates(&plan.candidates));
    add_stat(&mut r, STAT_WIDTH, "selected runtime:", text_or_none(&plan.selected_runtime));
    add_stat(&mut r, STAT_WIDTH, "selected backend:", text_or_none(&plan.selected_backend));
    let score = media_optional_i32(plan.score);
    add_stat(&mut r, STAT_WIDTH, "selected score:", score.as_str());
    add_line(&mut r, "resolved parameters:".to_owned());
    add_lines(&mut r, tell_parameters(all));
    r
}

/// Two texts of which as much may be told: both are missing, or both are there
/// and as long.
pub open spec fn equally_long(a: Option<String>, b: Option<String>) -> bool {
    match (opt_view(a), opt_view(b)) {
        (Some(x), Some(y)) => x.len() == y.len(),
        (None, None) => true,
        _ => false,
    }
}

/// Two inputs that differ in nothing but what they hold.
pub open spec fn alike_inputs(a: Seq<InferenceInput>, b: Seq<InferenceInput>) -> bool {
    a.len() == b.len() && forall|i: int|
        0 <= i < a.len() ==> (#[trigger] a[i]).modality == b[i].modality && a[i].role@
            == b[i].role@ && source_kind(a[i].source) == source_kind(b[i].source)
}

/// Two values of which the same is told: they are the same, or both are private
/// texts.
pub open spec fn alike_values(path: Seq<char>, a: ParameterValue, b: ParameterValue) -> bool {
    match (a, b) {
        (ParameterValue::Text(x), ParameterValue::Text(y)) => x@ == y@ || (is_private_text(path, x@)
            && is_private_text(path, y@)),
        (ParameterValue::Number(x), ParameterValue::Number(y)) => x@ == y@,
        _ => a == b,
    }
}

/// Parameters that differ in nothing but private texts.
pub open spec fn alike_parameters(a: Seq<ResolvedParameter>, b: Seq<ResolvedParameter>) -> bool {
    a.len() == b.len() && forall|i: int|
        0 <= i < a.len() ==> (#[trigger] a[i]).path@ == b[i].path@ && a[i].source@ == b[i].source@
            && a[i].adjusted == b[i].adjusted && a[i].explicit == b[i].explicit && alike_values(
            a[i].path@,
            a[i].value,
            b[i].value,
        )
}

/// Where a request is routed, which is told as it stands.
pub open spec fn same_routing(a: Seq<ResolvedParameter>, b: Seq<ResolvedParameter>) -> bool {
    &&& text_parameter(a, "routing.backend"@) == text_parameter(b, "routing.backend"@)
    &&& text_parameter(a, "routing.accelerator"@) == text_parameter(b, "routing.accelerator"@)
    &&& text_parameter(a, "routing.device"@) == text_parameter(b, "routing.device"@)
    &&& text_parameter(a, "routing.precision"@) == text_parameter(b, "routing.precision"@)
    &&& text_parameter(a, "routing.fallback_policy"@) == text_parameter(
        b,
        "routing.fallback_policy"@,
    )
}

proof fn lemma_alike_values(path: Seq<char>, a: ParameterValue, b: ParameterValue)
    requires
        alike_values(path, a, b),
    ensures
        shown_value(path, a) == shown_value(path, b),
{
}

/// The routing debug tells nothing of prompts but their length, nothing of inputs
/// but their kind, and nothing of private texts: requests that differ in nothing
/// else read the same.
pub proof fn routing_debug_keeps_texts_private(
    a: EffectiveRequest,
    b: EffectiveRequest,
    estimate: WorkloadEstimate,
    plan: ExecutionPlan,
)
    requires
        a.task@ == b.task@,
        a.model@ == b.model@,
        a.parameter_policy@ == b.parameter_policy@,
        alike_parameters(a.parameters@, b.parameters@),
        same_routing(a.parameters@, b.parameters@),
        equally_long(a.prompt, b.prompt),
        equally_long(a.negative_prompt, b.negative_prompt),
        alike_inputs(a.inputs@, b.inputs@),
    ensures
        routing_debug_lines(a, estimate, plan) == routing_debug_lines(b, estimate, plan),
{
    assert(presence(opt_view(a.prompt)) == presence(opt_view(b.prompt)));
    assert(presence(opt_view(a.negative_prompt)) == presence(opt_view(b.negative_prompt)));
    let x = a.inputs@.map_values(|i: InferenceInput| input_line(i));
    let y = b.inputs@.map_values(|i: InferenceInput| input_line(i));
    assert forall|i: int| 0 <= i < x.len() implies x[i] == y[i] by {
        assert(a.inputs@[i].role@ == b.inputs@[i].role@);
    }
    assert(x =~= y);
    let p = parameter_lines(a.parameters@);
    let q = parameter_lines(b.parameters@);
    assert forall|i: int| 0 <= i < p.len() implies p[i] == q[i] by {
        let c = a.parameters@[i];
        lemma_alike_values(c.path@, c.value, b.parameters@[i].value);
    }
    assert(p =~= q);
}

// ---------------------------------------------------------------------------
// Execution
// ---------------------------------------------------------------------------

/// What a request came to, as far as it is told of.
#[derive(Debug)]
pub struct MediaReport {
    pub task: InferenceTask,
    pub runtime: String,
    pub parameter_namespace: String,
    /// What the backend says of the run.
    pub backend: Json,
    pub request: EffectiveRequest,
    pub estimate: WorkloadEstimate,
    pub plan: ExecutionPlan,
    pub attempts: Vec<RuntimeAttempt>,
    pub outputs: Vec<OutputFile>,
}

/// The texts of a list, the rest of it left out.
pub open spec fn list_texts(items: Seq<JsonView>) -> Seq<Seq<char>>
    decreases items.len(),
{
    if items.len() == 0 {
        Seq::empty()
    } else {
        let rest = list_texts(items.drop_last());
        match text_of(Some(items.last())) {
            Some(text) => rest.push(text),
            None => rest,
        }
    }
}

pub open spec fn list_field(v: JsonView, key: Seq<char>) -> Seq<Seq<char>> {
    match field(v, key) {
        Some(JsonView::List(items)) => list_texts(items),
        _ => Seq::empty(),
    }
}

fn texts_in_field(v: &Json, key: &str) -> (r: Vec<String>)
    ensures
        views(r@) == list_field(v@, key@),
{
    let found = v.get(key);
    let items = match found {
        Some(value) => value.as_list(),
        None => None,
    };
    let items = match items {
        Some(items) => items,
        None => {
            return no_lines();
        },
    };
    let ghost all = field(v@, key@)->0->List_0;
    let mut r = no_lines();
    let mut i: usize = 0;
    assert(all.take(0) =~= Seq::empty());
    while i < items.len()
        invariant
            i <= items@.len(),
            field(v@, key@) == Some(JsonView::List(all)),
            all.len() == items@.len(),
            forall|j: int| 0 <= j < items@.len() ==> (#[trigger] items@[j])@ == all[j],
            views(r@) == list_texts(all.take(i as int)),
        decreases items@.len() - i,
    {
        assert(all.take(i + 1).drop_last() =~= all.take(i as int));
        assert(items@[i as int]@ == all[i as int]);
        if let Some(text) = items[i].as_str() {
            let ghost before = r@;
            r.push(text.to_owned());
            assert(views(r@) =~= views(before).push(text@));
        }
        i = i + 1;
    }
    assert(all.take(i as int) =~= all);
    r
}

/// A whole number, or a text that is one.
pub open spec fn value_u64(v: JsonView) -> Option<nat> {
    match v {
        JsonView::Number(n) => opt_nat(n.unsigned),
        JsonView::Text(text) => parsed_unsigned(text, u64::MAX as nat),
        _ => None,
    }
}

pub fn json_value_u64(value: &Json) -> (r: Option<u64>)
    ensures
        opt_nat(r) == value_u64(value@),
{
    match value {
        Json::Number(n) => n.unsigned,
        Json::Text(text) => parse_u64(text.as_str()),
        _ => None,
    }
}

pub open spec fn field_u64(v: JsonView, key: Seq<char>) -> Option<nat> {
    match field(v, key) {
        Some(value) => value_u64(value),
        None => None,
    }
}

fn u64_in_field(v: &Json, key: &str) -> (r: Option<u64>)
    ensures
        opt_nat(r) == field_u64(v@, key@),
{
    match v.get(key) {
        Some(value) => json_value_u64(value),
        None => None,
    }
}

pub open spec fn field_text(v: JsonView, key: Seq<char>) -> Option<Seq<char>> {
    text_of(field(v, key))
}

fn text_in_field<'a>(v: &'a Json, key: &str) -> (r: Option<&'a str>)
    ensures
        opt_str_view(r) == field_text(v@, key@),
{
    crate::json::str_opt(v.get(key))
}

pub open spec fn adjusted_lines(all: Seq<ResolvedParameter>) -> Seq<Seq<char>>
    decreases all.len(),
{
    if all.len() == 0 {
        Seq::empty()
    } else {
        let rest = adjusted_lines(all.drop_last());
        let p = all.last();
        if p.adjusted {
            rest.push("  "@ + p.path@ + " = "@ + shown_value(p.path@, p.value))
        } else {
            rest
        }
    }
}

fn tell_adjusted(all: &Vec<ResolvedParameter>) -> (r: Vec<String>)
    ensures
        views(r@) == adjusted_lines(all@),
{
    let mut r = no_lines();
    let mut i: usize = 0;
    assert(all@.take(0) =~= Seq::empty());
    while i < all.len()
        invariant
            i <= all@.len(),
            views(r@) == adjusted_lines(all@.take(i as int)),
        decreases all@.len() - i,
    {
        assert(all@.take(i + 1).drop_last() =~= all@.take(i as int));
        let p = &all[i];
        if p.adjusted {
            let value = media_debug_parameter_value(p.path.as_str(), &p.value);
            let mut text = join3("  ", p.path.as_str(), " = ");
            text.push_str(value.as_str());
            let ghost before = r@;
            r.push(text);
            assert(views(r@) =~= views(before).push(text@));
        }
        i = i + 1;
    }
    assert(all@.take(i as int) =~= all@);
    r
}

/// Lines under a heading, where there are any.
pub open spec fn under(heading: Seq<char>, lines: Seq<Seq<char>>) -> Seq<Seq<char>> {
    if lines.len() == 0 {
        Seq::empty()
    } else {
        line(heading) + lines
    }
}

fn add_under(lines: &mut Vec<String>, heading: &str, more: Vec<String>)
    ensures
        views(final(lines)@) == views(old(lines)@) + under(heading@, views(more@)),
{
    if more.len() == 0 {
        assert(views(lines@) + Seq::<Seq<char>>::empty() =~= views(lines@));
    } else {
        let ghost before = views(lines@);
        let ghost added = views(more@);
        add_line(lines, heading.to_owned());
        add_lines(lines, more);
        assert(before + line(heading@) + added =~= before + (line(heading@) + added));
    }
}

pub open spec fn attempt_outcomes(attempts: Seq<RuntimeAttempt>) -> Seq<Seq<char>> {
    attempts.map_values(|a: RuntimeAttempt| "  "@ + a.runtime@ + " -> "@ + a.outcome@)
}

fn tell_outcomes(attempts: &Vec<RuntimeAttempt>) -> (r: Vec<String>)
    ensures
        views(r@) == attempt_outcomes(attempts@),
{
    let mut r: Vec<String> = Vec::new();
    let mut i: usize = 0;
    while i < attempts.len()
        invariant
            i <= attempts@.len(),
            r@.len() == i,
            forall|j: int|
                0 <= j < i ==> (#[trigger] r@[j])@ == "  "@ + attempts@[j].runtime@ + " -> "@
                    + attempts@[j].outcome@,
        decreases attempts@.len() - i,
    {
        let a = &attempts[i];
        let mut text = join3("  ", a.runtime.as_str(), " -> ");
        text.push_str(a.outcome.as_str());
        r.push(text);
        i = i + 1;
    }
    assert(views(r@) =~= attempt_outcomes(attempts@));
    r
}

/// What is told of the execution of a request.
pub open spec fn backend_debug_lines(m: MediaReport) -> Seq<Seq<char>> {
    let w = STAT_WIDTH as nat;
    let b = m.backend@;
    let support = match field(b, "parameter_support"@) {
        Some(value) => value,
        None => JsonView::Null,
    };
    line(""@) + line("media execution debug:"@) + stat(w, "actual runtime:"@, m.runtime@) + stat(
        w,
        "backend fallback:"@,
        yes_no_text(m.plan.backend_fallback),
    ) + under("attempted runtimes:"@, attempt_outcomes(m.attempts@)) + opt_stat(
        w,
        "adapter:"@,
        field_text(b, "runtime"@),
    ) + opt_stat(w, "pipeline:"@, field_text(b, "pipeline_task"@)) + opt_stat(
        w,
        "device:"@,
        field_text(b, "device"@),
    ) + opt_stat(w, "precision:"@, field_text(b, "dtype"@)) + opt_stat(
        w,
        "backend seed:"@,
        match field_u64(b, "seed"@) {
            Some(seed) => Some(decimal(seed)),
            None => None,
        },
    ) + list_stat("translated params:"@, list_field(b, "translated_parameters"@)) + opt_stat(
        w,
        "backend policy:"@,
        field_text(support, "policy"@),
    ) + list_stat("explicit params:"@, list_field(support, "explicit_parameters"@)) + list_stat(
        "unsupported params:"@,
        list_field(support, "unsupported_explicit_parameters"@),
    ) + under("backend adjustments:"@, adjusted_lines(m.request.parameters@)) + list_stat(
        "degradations:"@,
        degradation_texts(m.plan.degradations@),
    ) + list_stat("quality downgrades:"@, views(m.plan.quality_downgrades@))
}

fn opt_seed_text(seed: Option<u64>) -> (r: Option<String>)
    ensures
        opt_view(r) == match opt_nat(seed) {
            Some(seed) => Some(decimal(seed)),
            None => None,
        },
{
    match seed {
        Some(seed) => Some(u64_text(seed)),
        None => None,
    }
}

pub fn write_media_backend_debug(report: &MediaReport) -> (r: Vec<String>)
    ensures
        views(r@) == backend_debug_lines(*report),
{
    let b = &report.backend;
    let nothing = Json::Null;
    let support: &Json = match b.get("parameter_support") {
        Some(value) => value,
        None => &nothing,
    };
    assert(support@ == match field(b@, "parameter_support"@) {
        Some(value) => value,
        None => JsonView::Null,
    });
    let mut r = no_lines();
    add_line(&mut r, "".to_owned());
    assert(views(r@) =~= line(""@));
    add_line(&mut r, "media execution debug:".to_owned());
    add_stat(&mut r, STAT_WIDTH, "actual runtime:", report.runtime.as_str());
    add_stat(&mut r, STAT_WIDTH, "backend fallback:", yes_no(report.plan.backend_fallback));
    add_under(&mut r, "attempted runtimes:", tell_outcomes(&report.attempts));
    add_opt_stat(&mut r, STAT_WIDTH, "adapter:", text_in_field(b, "runtime"));
    add_opt_stat(&mut r, STAT_WIDTH, "pipeline:", text_in_field(b, "pipeline_task"));
    add_opt_stat(&mut r, STAT_WIDTH, "device:", text_in_field(b, "device"));
    add_opt_stat(&mut r, STAT_WIDTH, "precision:", text_in_field(b, "dtype"));
    let seed = opt_seed_text(u64_in_field(b, "seed"));
    add_opt_stat(&mut r, STAT_WIDTH, "backend seed:", opt_str(&seed));
    add_list_stat(&mut r, "translated params:", &texts_in_field(b, "translated_parameters"));
    add_opt_stat(&mut r, STAT_WIDTH, "backend policy:", text_in_field(support, "policy"));
    add_list_stat(&mut r, "explicit params:", &texts_in_field(support, "explicit_parameters"));
    add_list_stat(
        &mut r,
        "unsupported params:",
        &texts_in_field(support, "unsupported_explicit_parameters"),
    );
    add_under(&mut r, "backend adjustments:", tell_adjusted(&report.request.parameters));
    add_list_stat(&mut r, "degradations:", &list_degradations(&report.plan.degradations));
    add_list_stat(&mut r, "quality downgrades:", &report.plan.quality_downgrades);
    r
}

/// What the backend says agrees where it is told of.
pub open spec fn told_alike(a: JsonView, b: JsonView) -> bool {
    &&& field(a, "runtime"@) == field(b, "runtime"@)
    &&& field(a, "pipeline_task"@) == field(b, "pipeline_task"@)
    &&& field(a, "device"@) == field(b, "device"@)
    &&& field(a, "dtype"@) == field(b, "dtype"@)
    &&& field(a, "seed"@) == field(b, "seed"@)
    &&& field(a, "translated_parameters"@) == field(b, "translated_parameters"@)
    &&& field(a, "parameter_support"@) == field(b, "parameter_support"@)
}

/// Attempts that differ in nothing but how long they took and what went wrong.
pub open spec fn alike_attempts(a: Seq<RuntimeAttempt>, b: Seq<RuntimeAttempt>) -> bool {
    a.len() == b.len() && forall|i: int|
        0 <= i < a.len() ==> (#[trigger] a[i]).runtime@ == b[i].runtime@ && a[i].outcome@
            == b[i].outcome@
}

proof fn lemma_adjusted_lines(a: Seq<ResolvedParameter>, b: Seq<ResolvedParameter>)
    requires
        alike_parameters(a, b),
    ensures
        adjusted_lines(a) == adjusted_lines(b),
    decreases a.len(),
{
    if a.len() > 0 {
        let n = a.len() - 1;
        assert(a[n].path@ == b[n].path@);
        lemma_alike_values(a[n].path@, a[n].value, b[n].value);
        assert forall|i: int| 0 <= i < n implies (#[trigger] a.drop_last()[i]).path@
            == b.drop_last()[i].path@ && a.drop_last()[i].source@ == b.drop_last()[i].source@
            && a.drop_last()[i].adjusted == b.drop_last()[i].adjusted && a.drop_last()[i].explicit
            == b.drop_last()[i].explicit && alike_values(
            a.drop_last()[i].path@,
            a.drop_last()[i].value,
            b.drop_last()[i].value,
        ) by {
            assert(a.drop_last()[i] == a[i]);
            assert(b.drop_last()[i] == b[i]);
        }
        lemma_adjusted_lines(a.drop_last(), b.drop_last());
    }
}

/// The report of the backend tells nothing of prompts, inputs, outputs, errors and
/// private texts: requests that differ in nothing else read the same.
pub proof fn backend_debug_keeps_texts_private(a: MediaReport, b: MediaReport)
    requires
        a.runtime@ == b.runtime@,
        a.plan == b.plan,
        alike_attempts(a.attempts@, b.attempts@),
        told_alike(a.backend@, b.backend@),
        alike_parameters(a.request.parameters@, b.request.parameters@),
    ensures
        backend_debug_lines(a) == backend_debug_lines(b),
{
    let x = attempt_outcomes(a.attempts@);
    let y = attempt_outcomes(b.attempts@);
    assert forall|i: int| 0 <= i < x.len() implies x[i] == y[i] by {
        assert(a.attempts@[i].runtime@ == b.attempts@[i].runtime@);
    }
    assert(x =~= y);
    lemma_adjusted_lines(a.request.parameters@, b.request.parameters@);
}

// ---------------------------------------------------------------------------
// Attempts
// ---------------------------------------------------------------------------

pub open spec fn attempt_durations(attempts: Seq<RuntimeAttempt>) -> Seq<Seq<char>> {
    attempts.map_values(
        |a: RuntimeAttempt|
            "  "@ + a.runtime@ + " outcome="@ + a.outcome@ + " duration="@ + a.duration@,
    )
}

fn tell_durations(attempts: &Vec<RuntimeAttempt>) -> (r: Vec<String>)
    ensures
        views(r@) == attempt_durations(attempts@),
{
    let mut r: Vec<String> = Vec::new();
    let mut i: usize = 0;
    while i < attempts.len()
        invariant
            i <= attempts@.len(),
            r@.len() == i,
            forall|j: int|
                0 <= j < i ==> (#[trigger] r@[j])@ == "  "@ + attempts@[j].runtime@ + " outcome="@
                    + attempts@[j].outcome@ + " duration="@ + attempts@[j].duration@,
        decreases attempts@.len() - i,
    {
        let a = &attempts[i];
        let mut text = join5(
            "  ",
            a.runtime.as_str(),
            " outcome=",
            a.outcome.as_str(),
            " duration=",
        );
        text.push_str(a.duration.as_str());
        r.push(text);
        i = i + 1;
    }
    assert(views(r@) =~= attempt_durations(attempts@));
    r
}

/// What is told of a request that failed: which attempts there were and how long
/// they took, but not what they said.
pub open spec fn failed_lines(attempts: Seq<RuntimeAttempt>, service_duration: Seq<char>) -> Seq<
    Seq<char>,
> {
    line(""@) + line("media execution failed:"@) + stat(
        STAT_WIDTH as nat,
        "service duration:"@,
        service_duration,
    ) + line("attempt details:"@) + attempt_durations(attempts)
}

pub fn write_media_failed_attempts(attempts: &Vec<RuntimeAttempt>, service_duration: &str) -> (r: Vec<
    String,
>)
    ensures
        views(r@) == failed_lines(attempts@, service_duration@),
{
    let mut r = no_lines();
    add_line(&mut r, "".to_owned());
    assert(views(r@) =~= line(""@));
    add_line(&mut r, "media execution failed:".to_owned());
    add_stat(&mut r, STAT_WIDTH, "service duration:", service_duration);
    add_line(&mut r, "attempt details:".to_owned());
    add_lines(&mut r, tell_durations(attempts));
    r
}

/// The report of a failure does not repeat the errors of the backends.
pub proof fn failures_keep_errors_private(
    a: Seq<RuntimeAttempt>,
    b: Seq<RuntimeAttempt>,
    service_duration: Seq<char>,
)
    requires
        a.len() == b.len(),
        forall|i: int|
            0 <= i < a.len() ==> (#[trigger] a[i]).runtime == b[i].runtime && a[i].outcome
                == b[i].outcome && a[i].duration == b[i].duration,
    ensures
        failed_lines(a, service_duration) == failed_lines(b, service_duration),
{
    assert(attempt_durations(a) =~= attempt_durations(b));
}

// ---------------------------------------------------------------------------
// Statistics
// ---------------------------------------------------------------------------

/// How long the parts of a request took, written out; those that were not
/// measured are missing.
#[derive(Debug)]
pub struct MediaTimings {
    pub total: String,
    pub service: String,
    pub publication: String,
    pub resolution: Option<String>,
    pub estimate: Option<String>,
    pub planning: Option<String>,
    pub output_setup: Option<String>,
    pub execution: Option<String>,
    pub finalization: Option<String>,
    pub companion: Option<String>,
    pub model_load: Option<String>,
    pub inference: Option<String>,
    pub encoding: Option<String>,
}

/// Rates and lengths that are computed from durations, written out where they
/// could be.
#[derive(Debug)]
pub struct MediaRates {
    /// Seconds for an image.
    pub per_image: Option<String>,
    /// Millions of pixels in a second.
    pub megapixels: Option<String>,
    /// Frames to be shown in a second.
    pub playback: Option<String>,
    /// Frames made in a second.
    pub frames: Option<String>,
    /// Seconds of work for a second of sound.
    pub real_time_factor: Option<String>,
    pub durations: DurationSummary,
}

/// How long the outputs are.
#[derive(Debug)]
pub enum DurationSummary {
    Nothing,
    Single(String),
    /// All as long as this.
    Each(String, usize),
    /// This long together.
    Total(String, usize),
}

pub open spec fn duration_text(d: DurationSummary) -> Option<Seq<char>> {
    match d {
        DurationSummary::Nothing => None,
        DurationSummary::Single(text) => Some(text@),
        DurationSummary::Each(text, n) => Some(text@ + " each ("@ + decimal(n as nat) + " outputs)"@),
        DurationSummary::Total(text, n) => Some(
            text@ + " total ("@ + decimal(n as nat) + " outputs)"@,
        ),
    }
}

pub fn media_output_duration_summary(d: &DurationSummary) -> (r: Option<String>)
    ensures
        opt_view(r) == duration_text(*d),
{
    match d {
        DurationSummary::Nothing => None,
        DurationSummary::Single(text) => Some(text.clone()),
        DurationSummary::Each(text, n) => {
            let count = usize_text(*n);
            let mut r = join3(text.as_str(), " each (", count.as_str());
            r.push_str(" outputs)");
            Some(r)
        },
        DurationSummary::Total(text, n) => {
            let count = usize_text(*n);
            let mut r = join3(text.as_str(), " total (", count.as_str());
            r.push_str(" outputs)");
            Some(r)
        },
    }
}

/// The sum, or the largest number where it does not fit.
pub open spec fn total_size(outputs: Seq<OutputFile>) -> nat
    decreases outputs.len(),
{
    if outputs.len() == 0 {
        0
    } else {
        total_size(outputs.drop_last()) + outputs.last().size_bytes as nat
    }
}

pub open spec fn capped64(n: nat) -> nat {
    if n <= u64::MAX {
        n
    } else {
        u64::MAX as nat
    }
}

pub fn media_output_bytes(outputs: &Vec<OutputFile>) -> (r: u64)
    ensures
        r == capped64(total_size(outputs@)),
{
    let mut total: u64 = 0;
    let mut i: usize = 0;
    assert(outputs@.take(0) =~= Seq::empty());
    while i < outputs.len()
        invariant
            i <= outputs@.len(),
            total == capped64(total_size(outputs@.take(i as int))),
        decreases outputs@.len() - i,
    {
        assert(outputs@.take(i + 1).drop_last() =~= outputs@.take(i as int));
        total = total.saturating_add(outputs[i].size_bytes);
        i = i + 1;
    }
    assert(outputs@.take(i as int) =~= outputs@);
    total
}

pub open spec fn total_pixels(outputs: Seq<OutputFile>) -> nat
    decreases outputs.len(),
{
    if outputs.len() == 0 {
        0
    } else {
        total_pixels(outputs.drop_last()) + match (outputs.last().width, outputs.last().height) {
            (Some(w), Some(h)) => (w * h) as nat,
            _ => 0nat,
        }
    }
}

/// The pixels of all images.
pub fn media_output_pixels(outputs: &Vec<OutputFile>) -> (r: u64)
    ensures
        r == capped64(total_pixels(outputs@)),
{
    let mut total: u64 = 0;
    let mut i: usize = 0;
    assert(outputs@.take(0) =~= Seq::empty());
    while i < outputs.len()
        invariant
            i <= outputs@.len(),
            total == capped64(total_pixels(outputs@.take(i as int))),
        decreases outputs@.len() - i,
    {
        assert(outputs@.take(i + 1).drop_last() =~= outputs@.take(i as int));
        if let Some(w) = outputs[i].width {
            if let Some(h) = outputs[i].height {
                assert(0 <= (w as int) * (h as int) <= 0xffff_ffff * 0xffff_ffff) by (nonlinear_arith)
                    requires
                        0 <= w as int <= 0xffff_ffff,
                        0 <= h as int <= 0xffff_ffff,
                ;
                let pixels: u64 = w as u64 * h as u64;
                total = total.saturating_add(pixels);
            }
        }
        i = i + 1;
    }
    assert(outputs@.take(i as int) =~= outputs@);
    total
}

pub open spec fn output_mimes(outputs: Seq<OutputFile>) -> Seq<Seq<char>> {
    outputs.map_values(|o: OutputFile| o.mime_type@)
}

/// The kinds of the outputs, each once and in order.
pub open spec fn formats_text(outputs: Seq<OutputFile>) -> Option<Seq<char>> {
    if outputs.len() == 0 {
        None
    } else {
        Some(joined(ascending_set(output_mimes(outputs)), ", "@))
    }
}

pub fn media_output_formats(outputs: &Vec<OutputFile>) -> (r: Option<String>)
    ensures
        opt_view(r) == formats_text(outputs@),
{
    if outputs.len() == 0 {
        return None;
    }
    let mut mimes: Vec<String> = Vec::new();
    let mut i: usize = 0;
    while i < outputs.len()
        invariant
            i <= outputs@.len(),
            mimes@.len() == i,
            forall|j: int| 0 <= j < i ==> (#[trigger] mimes@[j])@ == outputs@[j].mime_type@,
        decreases outputs@.len() - i,
    {
        mimes.push(outputs[i].mime_type.clone());
        i = i + 1;
    }
    assert(views(mimes@) =~= output_mimes(outputs@));
    let sorted = sorted_set(&mimes);
    Some(join_strings(&sorted, ", "))
}

/// One size before another: by width, then by height.
pub open spec fn size_precedes(a: (u32, u32), b: (u32, u32)) -> bool {
    a.0 < b.0 || (a.0 == b.0 && a.1 < b.1)
}

/// The sizes with one more, in order and each once.
pub open spec fn with_size(sizes: Seq<(u32, u32)>, size: (u32, u32)) -> Seq<(u32, u32)>
    decreases sizes.len(),
{
    if sizes.len() == 0 || size_precedes(size, sizes[0]) {
        seq![size] + sizes
    } else if sizes[0] == size {
        sizes
    } else {
        seq![sizes[0]] + with_size(sizes.drop_first(), size)
    }
}

/// The sizes of the outputs, in order and each once.
pub open spec fn output_sizes(outputs: Seq<OutputFile>) -> Seq<(u32, u32)>
    decreases outputs.len(),
{
    if outputs.len() == 0 {
        Seq::empty()
    } else {
        let rest = output_sizes(outputs.drop_last());
        match (outputs.last().width, outputs.last().height) {
            (Some(w), Some(h)) => with_size(rest, (w, h)),
            _ => rest,
        }
    }
}

pub open spec fn sizes_ascend(sizes: Seq<(u32, u32)>) -> bool {
    forall|i: int, j: int|
        0 <= i < j < sizes.len() ==> size_precedes(#[trigger] sizes[i], #[trigger] sizes[j])
}

/// Every size of an output is listed, none twice, and nothing else is.
pub proof fn sizes_are_listed_once(outputs: Seq<OutputFile>)
    ensures
        sizes_ascend(output_sizes(outputs)),
        forall|size: (u32, u32)| #[trigger]
            output_sizes(outputs).contains(size) <==> exists|i: int|
                0 <= i < outputs.len() && (#[trigger] outputs[i]).width == Some(size.0)
                    && outputs[i].height == Some(size.1),
    decreases outputs.len(),
{
    if outputs.len() > 0 {
        let rest = outputs.drop_last();
        let last = outputs.last();
        sizes_are_listed_once(rest);
        if last.width is Some && last.height is Some {
            lemma_with_size(output_sizes(rest), (last.width->0, last.height->0));
        }
        assert forall|size: (u32, u32)| #[trigger]
            output_sizes(outputs).contains(size) <==> exists|i: int|
                0 <= i < outputs.len() && (#[trigger] outputs[i]).width == Some(size.0)
                    && outputs[i].height == Some(size.1) by {
            if output_sizes(outputs).contains(size) {
                if output_sizes(rest).contains(size) {
                    let i = choose|i: int|
                        0 <= i < rest.len() && (#[trigger] rest[i]).width == Some(size.0)
                            && rest[i].height == Some(size.1);
                    assert(outputs[i] == rest[i]);
                } else {
                    assert(outputs[outputs.len() - 1] == last);
                }
            }
            if exists|i: int|
                0 <= i < outputs.len() && (#[trigger] outputs[i]).width == Some(size.0)
                    && outputs[i].height == Some(size.1) {
                let i = choose|i: int|
                    0 <= i < outputs.len() && (#[trigger] outputs[i]).width == Some(size.0)
                        && outputs[i].height == Some(size.1);
                if i < rest.len() {
                    assert(rest[i] == outputs[i]);
                    assert(output_sizes(rest).contains(size));
                }
            }
        }
    }
}

proof fn lemma_with_size(sizes: Seq<(u32, u32)>, size: (u32, u32))
    requires
        sizes_ascend(sizes),
    ensures
        sizes_ascend(with_size(sizes, size)),
        forall|s: (u32, u32)| #[trigger]
            with_size(sizes, size).contains(s) <==> s == size || sizes.contains(s),
    decreases sizes.len(),
{
    let after = with_size(sizes, size);
    if sizes.len() == 0 || size_precedes(size, sizes[0]) {
        assert(after[0] == size);
        assert forall|i: int, j: int| 0 <= i < j < after.len() implies size_precedes(
            #[trigger] after[i],
            #[trigger] after[j],
        ) by {
            assert(after[j] == sizes[j - 1]);
            if i > 0 {
                assert(after[i] == sizes[i - 1]);
            } else if j > 1 {
                assert(size_precedes(sizes[0], sizes[j - 1]));
            }
        }
        assert forall|s: (u32, u32)| #[trigger]
            after.contains(s) <==> s == size || sizes.contains(s) by {
            if sizes.contains(s) {
                let k = choose|k: int| 0 <= k < sizes.len() && sizes[k] == s;
                assert(after[k + 1] == s);
            }
            if after.contains(s) {
                let k = choose|k: int| 0 <= k < after.len() && after[k] == s;
                if k > 0 {
                    assert(sizes[k - 1] == s);
                }
            }
        }
    } else if sizes[0] == size {
        assert(sizes.contains(size));
    } else {
        let rest = sizes.drop_first();
        assert forall|i: int, j: int| 0 <= i < j < rest.len() implies size_precedes(
            #[trigger] rest[i],
            #[trigger] rest[j],
        ) by {
            assert(rest[i] == sizes[i + 1] && rest[j] == sizes[j + 1]);
        }
        lemma_with_size(rest, size);
        let inner = with_size(rest, size);
        assert(after =~= seq![sizes[0]] + inner);
        assert forall|i: int, j: int| 0 <= i < j < after.len() implies size_precedes(
            #[trigger] after[i],
            #[trigger] after[j],
        ) by {
            assert(after[j] == inner[j - 1]);
            if i > 0 {
                assert(after[i] == inner[i - 1]);
            } else {
                let s = inner[j - 1];
                assert(inner.contains(s));
                if s != size {
                    let k = choose|k: int| 0 <= k < rest.len() && rest[k] == s;
                    assert(rest.contains(s));
                    assert(sizes[k + 1] == s);
                    assert(size_precedes(sizes[0], sizes[k + 1]));
                }
            }
        }
        assert forall|s: (u32, u32)| #[trigger]
            after.contains(s) <==> s == size || sizes.contains(s) by {
            if after.contains(s) {
                let k = choose|k: int| 0 <= k < after.len() && after[k] == s;
                if k == 0 {
                    assert(sizes[0] == s);
                } else {
                    assert(inner[k - 1] == s);
                    assert(inner.contains(s));
                    if s != size {
                        let n = choose|n: int| 0 <= n < rest.len() && rest[n] == s;
                        assert(rest.contains(s));
                        assert(sizes[n + 1] == s);
                    }
                }
            }
            if s == size || sizes.contains(s) {
                if s == sizes[0] {
                    assert(after[0] == s);
                } else {
                    if sizes.contains(s) {
                        let n = choose|n: int| 0 <= n < sizes.len() && sizes[n] == s;
                        assert(rest[n - 1] == s);
                        assert(rest.contains(s));
                    }
                    assert(inner.contains(s));
                    let k = choose|k: int| 0 <= k < inner.len() && inner[k] == s;
                    assert(after[k + 1] == s);
                }
            }
        }
    }
}

fn insert_size(sizes: &mut Vec<(u32, u32)>, size: (u32, u32))
    ensures
        final(sizes)@ == with_size(old(sizes)@, size),
{
    let ghost all = sizes@;
    let mut i: usize = 0;
    assert(all.skip(0) =~= all);
    assert(all.take(0) + with_size(all, size) =~= with_size(all, size));
    while i < sizes.len()
        invariant
            i <= sizes@.len(),
            sizes@ == all,
            all == old(sizes)@,
            with_size(all, size) == all.take(i as int) + with_size(all.skip(i as int), size),
        decreases sizes@.len() - i,
    {
        let at = sizes[i];
        assert(all.skip(i as int)[0] == at);
        assert(all.skip(i as int).drop_first() =~= all.skip(i + 1));
        if size.0 < at.0 || (size.0 == at.0 && size.1 < at.1) {
            sizes.insert(i, size);
            assert(sizes@ =~= all.take(i as int) + (seq![size] + all.skip(i as int)));
            return;
        }
        if size.0 == at.0 && size.1 == at.1 {
            assert(all =~= all.take(i as int) + all.skip(i as int));
            return;
        }
        assert(all.take(i as int) + (seq![at] + with_size(all.skip(i + 1), size)) =~= all.take(
            i + 1,
        ) + with_size(all.skip(i + 1), size));
        i = i + 1;
    }
    sizes.push(size);
    assert(sizes@ =~= all.take(i as int) + with_size(all.skip(i as int), size));
}

pub open spec fn size_text(size: (u32, u32)) -> Seq<char> {
    decimal(size.0 as nat) + "x"@ + decimal(size.1 as nat)
}

pub open spec fn resolutions_text(outputs: Seq<OutputFile>) -> Option<Seq<char>> {
    let sizes = output_sizes(outputs);
    if sizes.len() == 0 {
        None
    } else {
        Some(joined(sizes.map_values(|s: (u32, u32)| size_text(s)), ", "@))
    }
}

pub fn media_output_resolutions(outputs: &Vec<OutputFile>) -> (r: Option<String>)
    ensures
        opt_view(r) == resolutions_text(outputs@),
{
    let mut sizes: Vec<(u32, u32)> = Vec::new();
    let mut i: usize = 0;
    assert(outputs@.take(0) =~= Seq::empty());
    while i < outputs.len()
        invariant
            i <= outputs@.len(),
            sizes@ == output_sizes(outputs@.take(i as int)),
        decreases outputs@.len() - i,
    {
        assert(outputs@.take(i + 1).drop_last() =~= outputs@.take(i as int));
        if let Some(w) = outputs[i].width {
            if let Some(h) = outputs[i].height {
                insert_size(&mut sizes, (w, h));
            }
        }
        i = i + 1;
    }
    assert(outputs@.take(i as int) =~= outputs@);
    if sizes.len() == 0 {
        return None;
    }
    let mut texts: Vec<String> = Vec::new();
    let mut k: usize = 0;
    while k < sizes.len()
        invariant
            k <= sizes@.len(),
            texts@.len() == k,
            forall|j: int| 0 <= j < k ==> (#[trigger] texts@[j])@ == size_text(sizes@[j]),
        decreases sizes@.len() - k,
    {
        let width = u64_text(sizes[k].0 as u64);
        let height = u64_text(sizes[k].1 as u64);
        texts.push(join3(width.as_str(), "x", height.as_str()));
        k = k + 1;
    }
    assert(views(texts@) =~= sizes@.map_values(|s: (u32, u32)| size_text(s)));
    Some(join_strings(&texts, ", "))
}

/// The first output that the backend says this number of.
pub open spec fn first_output_u64(outputs: Seq<OutputFile>, key: Seq<char>) -> Option<nat>
    decreases outputs.len(),
{
    if outputs.len() == 0 {
        None
    } else {
        match field_u64(outputs[0].metadata@, key) {
            Some(n) => Some(n),
            None => first_output_u64(outputs.drop_first(), key),
        }
    }
}

pub fn media_output_u64_first(outputs: &Vec<OutputFile>, key: &str) -> (r: Option<u64>)
    ensures
        opt_nat(r) == first_output_u64(outputs@, key@),
{
    let mut i: usize = 0;
    assert(outputs@.skip(0) =~= outputs@);
    while i < outputs.len()
        invariant
            i <= outputs@.len(),
            first_output_u64(outputs@, key@) == first_output_u64(outputs@.skip(i as int), key@),
        decreases outputs@.len() - i,
    {
        assert(outputs@.skip(i as int).drop_first() =~= outputs@.skip(i + 1));
        let found = u64_in_field(&outputs[i].metadata, key);
        if found.is_some() {
            return found;
        }
        i = i + 1;
    }
    None
}

/// The sum over the outputs that the backend says this number of.
pub open spec fn output_u64_sum(outputs: Seq<OutputFile>, key: Seq<char>) -> Option<nat>
    decreases outputs.len(),
{
    if outputs.len() == 0 {
        None
    } else {
        let rest = output_u64_sum(outputs.drop_last(), key);
        match (rest, field_u64(outputs.last().metadata@, key)) {
            (Some(a), Some(b)) => Some(a + b),
            (None, Some(b)) => Some(b),
            _ => rest,
        }
    }
}

pub fn media_output_u64_sum(outputs: &Vec<OutputFile>, key: &str) -> (r: Option<u64>)
    ensures
        match r {
            Some(n) => output_u64_sum(outputs@, key@) matches Some(sum) && n == capped64(sum),
            None => output_u64_sum(outputs@, key@) is None,
        },
{
    let mut sum: Option<u64> = None;
    let mut i: usize = 0;
    assert(outputs@.take(0) =~= Seq::empty());
    while i < outputs.len()
        invariant
            i <= outputs@.len(),
            match sum {
                Some(n) => output_u64_sum(outputs@.take(i as int), key@) matches Some(whole) && n
                    == capped64(whole),
                None => output_u64_sum(outputs@.take(i as int), key@) is None,
            },
        decreases outputs@.len() - i,
    {
        assert(outputs@.take(i + 1).drop_last() =~= outputs@.take(i as int));
        if let Some(n) = u64_in_field(&outputs[i].metadata, key) {
            assert(field_u64(outputs@[i as int].metadata@, key@) == Some(n as nat));
            sum = match sum {
                Some(before) => Some(before.saturating_add(n)),
                None => Some(n),
            };
        }
        i = i + 1;
    }
    assert(outputs@.take(i as int) =~= outputs@);
    sum
}

/// A whole number among the parameters of a request.
pub open spec fn u64_parameter(all: Seq<ResolvedParameter>, path: Seq<char>) -> Option<nat> {
    match find_parameter(all, path) {
        Some(i) => match all[i].value {
            ParameterValue::Integer(n) => if n >= 0 {
                Some(n as nat)
            } else {
                None
            },
            _ => None,
        },
        None => None,
    }
}

pub open spec fn effective_u64(m: MediaReport, leaf: Seq<char>) -> Option<nat> {
    u64_parameter(m.request.parameters@, m.parameter_namespace@ + "."@ + leaf)
}

pub fn media_effective_u64(m: &MediaReport, leaf: &str) -> (r: Option<u64>)
    ensures
        opt_nat(r) == effective_u64(*m, leaf@),
{
    let path = join3(m.parameter_namespace.as_str(), ".", leaf);
    match parameter_index(&m.request.parameters, path.as_str()) {
        Some(i) => match m.request.parameters[i].value {
            ParameterValue::Integer(n) => if n >= 0 {
                Some(n as u64)
            } else {
                None
            },
            _ => None,
        },
        None => None,
    }
}

pub open spec fn first_seed(outputs: Seq<OutputFile>) -> Option<nat>
    decreases outputs.len(),
{
    if outputs.len() == 0 {
        None
    } else {
        match outputs[0].seed {
            Some(seed) => Some(seed as nat),
            None => first_seed(outputs.drop_first()),
        }
    }
}

pub open spec fn seed_of(m: MediaReport) -> Option<nat> {
    match first_seed(m.outputs@) {
        Some(seed) => Some(seed),
        None => effective_u64(m, "seed"@),
    }
}

/// The seed of the first output that has one, or else the one that was asked
/// for.
pub fn media_seed(m: &MediaReport) -> (r: Option<u64>)
    ensures
        opt_nat(r) == seed_of(*m),
{
    let outputs = &m.outputs;
    let mut i: usize = 0;
    assert(outputs@.skip(0) =~= outputs@);
    while i < outputs.len()
        invariant
            i <= outputs@.len(),
            outputs@ == m.outputs@,
            first_seed(outputs@) == first_seed(outputs@.skip(i as int)),
        decreases outputs@.len() - i,
    {
        assert(outputs@.skip(i as int).drop_first() =~= outputs@.skip(i + 1));
        if outputs[i].seed.is_some() {
            return outputs[i].seed;
        }
        i = i + 1;
    }
    media_effective_u64(m, "seed")
}

pub open spec fn or_else(a: Option<nat>, b: Option<nat>) -> Option<nat> {
    if a is Some {
        a
    } else {
        b
    }
}

pub open spec fn number_stat(label: Seq<char>, n: Option<nat>, unit: Seq<char>) -> Seq<Seq<char>> {
    opt_stat(
        STAT_WIDTH as nat,
        label,
        match n {
            Some(n) => Some(decimal(n) + unit),
            None => None,
        },
    )
}

fn add_number_stat(lines: &mut Vec<String>, label: &str, n: Option<u64>, unit: &str)
    ensures
        views(final(lines)@) == views(old(lines)@) + number_stat(label@, opt_nat(n), unit@),
{
    let text: Option<String> = match n {
        Some(n) => {
            let digits = u64_text(n);
            Some(join2(digits.as_str(), unit))
        },
        None => None,
    };
    add_opt_stat(lines, STAT_WIDTH, label, opt_str(&text));
}

pub open spec fn rate_stat(label: Seq<char>, rate: Option<Seq<char>>, unit: Seq<char>) -> Seq<
    Seq<char>,
> {
    opt_stat(
        STAT_WIDTH as nat,
        label,
        match rate {
            Some(rate) => Some(rate + unit),
            None => None,
        },
    )
}

fn add_rate_stat(lines: &mut Vec<String>, label: &str, rate: &Option<String>, unit: &str)
    ensures
        views(final(lines)@) == views(old(lines)@) + rate_stat(label@, opt_view(*rate), unit@),
{
    let text: Option<String> = match rate {
        Some(rate) => Some(join2(rate.as_str(), unit)),
        None => None,
    };
    add_opt_stat(lines, STAT_WIDTH, label, opt_str(&text));
}

pub open spec fn image_lines(m: MediaReport, rates: MediaRates) -> Seq<Seq<char>> {
    let w = STAT_WIDTH as nat;
    let shown = m.outputs@.len() > 0;
    opt_stat(w, "resolution:"@, resolutions_text(m.outputs@)) + number_stat(
        "steps:"@,
        effective_u64(m, "steps"@),
        ""@,
    ) + number_stat("seed:"@, seed_of(m), ""@) + opt_stat(
        w,
        "seconds / image:"@,
        if shown {
            opt_view(rates.per_image)
        } else {
            None
        },
    ) + rate_stat(
        "generation rate:"@,
        if shown && rates.per_image is Some && total_pixels(m.outputs@) > 0 {
            opt_view(rates.megapixels)
        } else {
            None
        },
        " MP/s"@,
    )
}

pub fn write_media_image_stats(m: &MediaReport, rates: &MediaRates) -> (r: Vec<String>)
    ensures
        views(r@) == image_lines(*m, *rates),
{
    let mut r = no_lines();
    let sizes = media_output_resolutions(&m.outputs);
    add_opt_stat(&mut r, STAT_WIDTH, "resolution:", opt_str(&sizes));
    assert(views(r@) =~= opt_stat(
        STAT_WIDTH as nat,
        "resolution:"@,
        resolutions_text(m.outputs@),
    ));
    add_number_stat(&mut r, "steps:", media_effective_u64(m, "steps"), "");
    add_number_stat(&mut r, "seed:", media_seed(m), "");
    let shown = m.outputs.len() > 0;
    let per_image = if shown {
        opt_str(&rates.per_image)
    } else {
        None
    };
    add_opt_stat(&mut r, STAT_WIDTH, "seconds / image:", per_image);
    let nothing: Option<String> = None;
    let pixels = media_output_pixels(&m.outputs);
    if shown && rates.per_image.is_some() && pixels > 0 {
        add_rate_stat(&mut r, "generation rate:", &rates.megapixels, " MP/s");
    } else {
        add_rate_stat(&mut r, "generation rate:", &nothing, " MP/s");
    }
    r
}

pub open spec fn frames_of(m: MediaReport) -> Option<nat> {
    match output_u64_sum(m.outputs@, "frames"@) {
        Some(sum) => Some(capped64(sum)),
        None => effective_u64(m, "frames"@),
    }
}

/// How many frames were made, as the outputs or else the request say.
pub fn media_frames(m: &MediaReport) -> (r: Option<u64>)
    ensures
        opt_nat(r) == frames_of(*m),
{
    match media_output_u64_sum(&m.outputs, "frames") {
        Some(frames) => Some(frames),
        None => media_effective_u64(m, "frames"),
    }
}

pub open spec fn video_lines(m: MediaReport, rates: MediaRates) -> Seq<Seq<char>> {
    let w = STAT_WIDTH as nat;
    opt_stat(w, "resolution:"@, resolutions_text(m.outputs@)) + number_stat(
        "generated frames:"@,
        frames_of(m),
        ""@,
    ) + rate_stat("playback rate:"@, opt_view(rates.playback), " fps"@) + opt_stat(
        w,
        "output duration:"@,
        duration_text(rates.durations),
    ) + number_stat("steps:"@, effective_u64(m, "steps"@), ""@) + number_stat(
        "seed:"@,
        seed_of(m),
        ""@,
    ) + rate_stat(
        "generation rate:"@,
        if frames_of(m) is Some {
            opt_view(rates.frames)
        } else {
            None
        },
        " frames/s"@,
    )
}

pub fn write_media_video_stats(m: &MediaReport, rates: &MediaRates) -> (r: Vec<String>)
    ensures
        views(r@) == video_lines(*m, *rates),
{
    let mut r = no_lines();
    let sizes = media_output_resolutions(&m.outputs);
    add_opt_stat(&mut r, STAT_WIDTH, "resolution:", opt_str(&sizes));
    assert(views(r@) =~= opt_stat(
        STAT_WIDTH as nat,
        "resolution:"@,
        resolutions_text(m.outputs@),
    ));
    let frames = media_frames(m);
    add_number_stat(&mut r, "generated frames:", frames, "");
    add_rate_stat(&mut r, "playback rate:", &rates.playback, " fps");
    let duration = media_output_duration_summary(&rates.durations);
    add_opt_stat(&mut r, STAT_WIDTH, "output duration:", opt_str(&duration));
    add_number_stat(&mut r, "steps:", media_effective_u64(m, "steps"), "");
    add_number_stat(&mut r, "seed:", media_seed(m), "");
    let nothing: Option<String> = None;
    if frames.is_some() {
        add_rate_stat(&mut r, "generation rate:", &rates.frames, " frames/s");
    } else {
        add_rate_stat(&mut r, "generation rate:", &nothing, " frames/s");
    }
    r
}

/// Taking a recording apart has no speed of its own.
pub fn media_audio_real_time_factor_is_meaningful(task: InferenceTask) -> (r: bool)
    ensures
        r == !(task is StemGeneration || task is StemSeparation),
{
    task != InferenceTask::StemGeneration && task != InferenceTask::StemSeparation
}

pub open spec fn several(d: DurationSummary) -> bool {
    d is Each || d is Total
}

pub open spec fn audio_lines(m: MediaReport, rates: MediaRates) -> Seq<Seq<char>> {
    let w = STAT_WIDTH as nat;
    opt_stat(w, "output duration:"@, duration_text(rates.durations)) + opt_stat(
        w,
        if several(rates.durations) {
            "aggregate RTF:"@
        } else {
            "real-time factor:"@
        },
        if rates.durations is Nothing || m.task is StemGeneration || m.task is StemSeparation {
            None
        } else {
            opt_view(rates.real_time_factor)
        },
    ) + number_stat(
        "sample rate:"@,
        or_else(
            first_output_u64(m.outputs@, "sample_rate"@),
            effective_u64(m, "sample_rate"@),
        ),
        " Hz"@,
    ) + number_stat(
        "channels:"@,
        or_else(first_output_u64(m.outputs@, "channels"@), effective_u64(m, "channels"@)),
        ""@,
    ) + number_stat("seed:"@, seed_of(m), ""@)
}

pub fn write_media_audio_stats(m: &MediaReport, rates: &MediaRates) -> (r: Vec<String>)
    ensures
        views(r@) == audio_lines(*m, *rates),
{
    let mut r = no_lines();
    let duration = media_output_duration_summary(&rates.durations);
    add_opt_stat(&mut r, STAT_WIDTH, "output duration:", opt_str(&duration));
    assert(views(r@) =~= opt_stat(
        STAT_WIDTH as nat,
        "output duration:"@,
        duration_text(rates.durations),
    ));
    let (measured, label) = match &rates.durations {
        DurationSummary::Nothing => (false, "real-time factor:"),
        DurationSummary::Single(_) => (true, "real-time factor:"),
        DurationSummary::Each(_, _) => (true, "aggregate RTF:"),
        DurationSummary::Total(_, _) => (true, "aggregate RTF:"),
    };
    let factor = if measured && media_audio_real_time_factor_is_meaningful(m.task) {
        opt_str(&rates.real_time_factor)
    } else {
        None
    };
    add_opt_stat(&mut r, STAT_WIDTH, label, factor);
    let sample_rate = match media_output_u64_first(&m.outputs, "sample_rate") {
        Some(n) => Some(n),
        None => media_effective_u64(m, "sample_rate"),
    };
    add_number_stat(&mut r, "sample rate:", sample_rate, " Hz");
    let channels = match media_output_u64_first(&m.outputs, "channels") {
        Some(n) => Some(n),
        None => media_effective_u64(m, "channels"),
    };
    add_number_stat(&mut r, "channels:", channels, "");
    add_number_stat(&mut r, "seed:", media_seed(m), "");
    r
}

pub open spec fn transcription_lines(m: MediaReport) -> Seq<Seq<char>> {
    opt_stat(
        STAT_WIDTH as nat,
        "transcript format:"@,
        match text_parameter(m.request.parameters@, "stt.output_format"@) {
            Some((value, _)) => Some(value),
            None => None,
        },
    )
}

pub fn write_media_transcription_stats(m: &MediaReport) -> (r: Vec<String>)
    ensures
        views(r@) == transcription_lines(*m),
{
    let mut r = no_lines();
    let all = &m.request.parameters;
    let value: Option<&str> = match parameter_index(all, "stt.output_format") {
        Some(i) => match &all[i].value {
            ParameterValue::Text(text) => Some(text.as_str()),
            _ => None,
        },
        None => None,
    };
    add_opt_stat(&mut r, STAT_WIDTH, "transcript format:", value);
    assert(views(r@) =~= transcription_lines(*m));
    r
}

/// What is told of the outputs, by what they are.
pub open spec fn modality_lines(
    m: MediaReport,
    modality: OutputModality,
    rates: MediaRates,
) -> Seq<Seq<char>> {
    match modality {
        OutputModality::Image => image_lines(m, rates),
        OutputModality::Video => video_lines(m, rates),
        OutputModality::Audio => audio_lines(m, rates),
        OutputModality::Text => if m.task is SpeechToText {
            transcription_lines(m)
        } else {
            Seq::empty()
        },
        OutputModality::Embedding => Seq::empty(),
    }
}

fn tell_modality(m: &MediaReport, modality: OutputModality, rates: &MediaRates) -> (r: Vec<String>)
    ensures
        views(r@) == modality_lines(*m, modality, *rates),
{
    match modality {
        OutputModality::Image => write_media_image_stats(m, rates),
        OutputModality::Video => write_media_video_stats(m, rates),
        OutputModality::Audio => write_media_audio_stats(m, rates),
        OutputModality::Text => if m.task == InferenceTask::SpeechToText {
            write_media_transcription_stats(m)
        } else {
            no_lines()
        },
        OutputModality::Embedding => no_lines(),
    }
}

/// What `--verbose` tells of a request.
pub open spec fn verbose_lines(
    m: MediaReport,
    modality: OutputModality,
    t: MediaTimings,
    rates: MediaRates,
) -> Seq<Seq<char>> {
    let w = STAT_WIDTH as nat;
    let b = m.backend@;
    line(""@) + line("media stats:"@) + stat(w, "runtime:"@, m.runtime@) + opt_stat(
        w,
        "backend:"@,
        opt_view(m.plan.selected_backend),
    ) + opt_stat(w, "adapter:"@, field_text(b, "runtime"@)) + opt_stat(
        w,
        "device:"@,
        field_text(b, "device"@),
    ) + opt_stat(w, "precision:"@, field_text(b, "dtype"@)) + opt_stat(
        w,
        "pipeline:"@,
        field_text(b, "pipeline_task"@),
    ) + stat(w, "total duration:"@, t.total@) + stat(w, "service duration:"@, t.service@) + opt_stat(
        w,
        "request resolution:"@,
        opt_view(t.resolution),
    ) + opt_stat(w, "workload estimate:"@, opt_view(t.estimate)) + opt_stat(
        w,
        "routing plan:"@,
        opt_view(t.planning),
    ) + opt_stat(w, "output setup:"@, opt_view(t.output_setup)) + opt_stat(
        w,
        "runtime execution:"@,
        opt_view(t.execution),
    ) + opt_stat(w, "result finalization:"@, opt_view(t.finalization)) + opt_stat(
        w,
        "companion duration:"@,
        opt_view(t.companion),
    ) + opt_stat(w, "model load/setup:"@, opt_view(t.model_load)) + opt_stat(
        w,
        "inference:"@,
        opt_view(t.inference),
    ) + opt_stat(w, "encoding:"@, opt_view(t.encoding)) + stat(w, "publication:"@, t.publication@)
        + stat(w, "outputs:"@, decimal(m.outputs@.len())) + stat(
        w,
        "output size:"@,
        bytes_text(capped64(total_size(m.outputs@))),
    ) + opt_stat(w, "output format:"@, formats_text(m.outputs@)) + modality_lines(
        m,
        modality,
        rates,
    ) + estimate_lines(m.estimate) + stat(
        w,
        "backend fallback:"@,
        yes_no_text(m.plan.backend_fallback),
    ) + under("runtime attempts:"@, attempt_durations(m.attempts@)) + list_stat(
        "degradations:"@,
        degradation_texts(m.plan.degradations@),
    )
}

pub fn write_media_verbose_stats(
    m: &MediaReport,
    modality: OutputModality,
    t: &MediaTimings,
    rates: &MediaRates,
) -> (r: Vec<String>)
    ensures
        views(r@) == verbose_lines(*m, modality, *t, *rates),
{
    let b = &m.backend;
    let mut r = no_lines();
    add_line(&mut r, "".to_owned());
    assert(views(r@) =~= line(""@));
    add_line(&mut r, "media stats:".to_owned());
    add_stat(&mut r, STAT_WIDTH, "runtime:", m.runtime.as_str());
    add_opt_stat(&mut r, STAT_WIDTH, "backend:", opt_str(&m.plan.selected_backend));
    add_opt_stat(&mut r, STAT_WIDTH, "adapter:", text_in_field(b, "runtime"));
    add_opt_stat(&mut r, STAT_WIDTH, "device:", text_in_field(b, "device"));
    add_opt_stat(&mut r, STAT_WIDTH, "precision:", text_in_field(b, "dtype"));
    add_opt_stat(&mut r, STAT_WIDTH, "pipeline:", text_in_field(b, "pipeline_task"));
    add_stat(&mut r, STAT_WIDTH, "total duration:", t.total.as_str());
    add_stat(&mut r, STAT_WIDTH, "service duration:", t.service.as_str());
    add_opt_stat(&mut r, STAT_WIDTH, "request resolution:", opt_str(&t.resolution));
    add_opt_stat(&mut r, STAT_WIDTH, "workload estimate:", opt_str(&t.estimate));
    add_opt_stat(&mut r, STAT_WIDTH, "routing plan:", opt_str(&t.planning));
    add_opt_stat(&mut r, STAT_WIDTH, "output setup:", opt_str(&t.output_setup));
    add_opt_stat(&mut r, STAT_WIDTH, "runtime execution:", opt_str(&t.execution));
    add_opt_stat(&mut r, STAT_WIDTH, "result finalization:", opt_str(&t.finalization));
    add_opt_stat(&mut r, STAT_WIDTH, "companion duration:", opt_str(&t.companion));
    add_opt_stat(&mut r, STAT_WIDTH, "model load/setup:", opt_str(&t.model_load));
    add_opt_stat(&mut r, STAT_WIDTH, "inference:", opt_str(&t.inference));
    add_opt_stat(&mut r, STAT_WIDTH, "encoding:", opt_str(&t.encoding));
    add_stat(&mut r, STAT_WIDTH, "publication:", t.publication.as_str());
    let count = usize_text(m.outputs.len());
    add_stat(&mut r, STAT_WIDTH, "outputs:", count.as_str());
    let size = format_bytes(media_output_bytes(&m.outputs));
    add_stat(&mut r, STAT_WIDTH, "output size:", size.as_str());
    let formats = media_output_formats(&m.outputs);
    add_opt_stat(&mut r, STAT_WIDTH, "output format:", opt_str(&formats));
    add_lines(&mut r, tell_modality(m, modality, rates));
    add_lines(&mut r, tell_estimate(&m.estimate));
    add_stat(&mut r, STAT_WIDTH, "backend fallback:", yes_no(m.plan.backend_fallback));
    add_under(&mut r, "runtime attempts:", tell_durations(&m.attempts));
    add_list_stat(&mut r, "degradations:", &list_degradations(&m.plan.degradations));
    r
}

// ---------------------------------------------------------------------------
// What diagnostics tell
// ---------------------------------------------------------------------------

/// A parameter is found under its path, the last of them counting, and its value is told
/// where it is of the kind that is asked for.
pub proof fn parameters_are_found_by_path(all: Seq<ResolvedParameter>, path: Seq<char>, j: int)
    ensures
        match find_parameter(all, path) {
            Some(i) => 0 <= i < all.len() && all[i].path@ == path && (i < j < all.len()
                ==> all[j].path@ != path),
            None => 0 <= j < all.len() ==> all[j].path@ != path,
        },
        (find_parameter(all, path) matches Some(i) && all[i].value matches ParameterValue::Integer(
            n,
        ) && n >= 0) ==> u64_parameter(all, path) == Some(
            all[find_parameter(all, path)->0].value->Integer_0 as nat,
        ),
        (find_parameter(all, path) matches Some(i) && all[i].value matches ParameterValue::Integer(
            n,
        ) && n < 0) ==> u64_parameter(all, path) is None,
        find_parameter(all, path) is None ==> u64_parameter(all, path) is None && text_parameter(
            all,
            path,
        ) is None,
        text_parameter(all, path) is Some ==> u64_parameter(all, path) is None,
    decreases all.len(),
{
    if all.len() > 0 {
        let few = all.drop_last();
        parameters_are_found_by_path(few, path, j);
        if 0 <= j < few.len() {
            assert(few[j] == all[j]);
        }
        if let Some(i) = find_parameter(few, path) {
            assert(few[i] == all[i]);
        }
    }
}

/// Numbers are told where they are written as numbers or as texts of them, and lists by
/// the texts in them.
pub proof fn numbers_are_told(items: Seq<JsonView>, text: Seq<char>, n: crate::json::NumberView)
    ensures
        value_u64(JsonView::Number(n)) == opt_nat(n.unsigned),
        value_u64(JsonView::Text(text)) == parsed_unsigned(text, u64::MAX as nat),
        value_u64(JsonView::Null) is None && value_u64(JsonView::Bool(true)) is None,
        list_texts(items.push(JsonView::Text(text))) == list_texts(items).push(text),
        list_texts(items.push(JsonView::Number(n))) == list_texts(items),
        list_texts(items.push(JsonView::Null)) == list_texts(items),
        list_texts(Seq::empty()).len() == 0,
{
    assert(items.push(JsonView::Text(text)).drop_last() =~= items);
    assert(items.push(JsonView::Number(n)).drop_last() =~= items);
    assert(items.push(JsonView::Null).drop_last() =~= items);
}

/// Sizes and pixels of outputs add up; a picture has as many pixels as its width times
/// its height.
pub proof fn outputs_add_up(outputs: Seq<OutputFile>, o: OutputFile)
    ensures
        total_size(Seq::empty()) == 0,
        total_pixels(Seq::empty()) == 0,
        total_size(outputs.push(o)) == total_size(outputs) + o.size_bytes,
        o.width is None || o.height is None ==> total_pixels(outputs.push(o)) == total_pixels(
            outputs,
        ),
        o.width is Some && o.height is Some ==> total_pixels(outputs.push(o)) == total_pixels(
            outputs,
        ) + o.width->0 * o.height->0,
        total_size(outputs) <= u64::MAX ==> capped64(total_size(outputs)) == total_size(outputs),
{
    assert(outputs.push(o).drop_last() =~= outputs);
    if o.width is Some && o.height is Some {
        let w = o.width->0 as int;
        let h = o.height->0 as int;
        assert(w * h >= 0) by (nonlinear_arith)
            requires
                w >= 0,
                h >= 0,
        ;
    }
}

/// What outputs say of themselves is told before what was asked for: their seed, and
/// their frames, which add up.
pub proof fn outputs_speak_before_requests(m: MediaReport, key: Seq<char>, k: int)
    ensures
        m.outputs@.len() == 0 ==> seed_of(m) == effective_u64(m, "seed"@) && frames_of(m)
            == effective_u64(m, "frames"@),
        0 <= k < m.outputs@.len() && m.outputs@[k].seed is Some && (forall|j: int|
            0 <= j < k ==> (#[trigger] m.outputs@[j]).seed is None) ==> seed_of(m) == Some(
            m.outputs@[k].seed->0 as nat,
        ),
        (forall|j: int| 0 <= j < m.outputs@.len() ==> (#[trigger] m.outputs@[j]).seed is None)
            ==> seed_of(m) == effective_u64(m, "seed"@),
{
    lemma_first_seed(m.outputs@, k);
}

proof fn lemma_first_seed(outputs: Seq<OutputFile>, k: int)
    ensures
        0 <= k < outputs.len() && outputs[k].seed is Some && (forall|j: int|
            0 <= j < k ==> (#[trigger] outputs[j]).seed is None) ==> first_seed(outputs) == Some(
            outputs[k].seed->0 as nat,
        ),
        (forall|j: int| 0 <= j < outputs.len() ==> (#[trigger] outputs[j]).seed is None)
            ==> first_seed(outputs) is None,
    decreases outputs.len(),
{
    if outputs.len() > 0 && outputs[0].seed is None {
        let rest = outputs.drop_first();
        lemma_first_seed(rest, k - 1);
        if forall|j: int| 0 <= j < outputs.len() ==> (#[trigger] outputs[j]).seed is None {
            assert forall|j: int| 0 <= j < rest.len() implies (#[trigger] rest[j]).seed is None by {
                assert(rest[j] == outputs[j + 1]);
            }
        }
        if 0 < k < outputs.len() && (forall|j: int|
            0 <= j < k ==> (#[trigger] outputs[j]).seed is None) {
            assert forall|j: int| 0 <= j < k - 1 implies (#[trigger] rest[j]).seed is None by {
                assert(rest[j] == outputs[j + 1]);
            }
            assert(rest[k - 1] == outputs[k]);
        }
    }
}

/// A number that outputs tell is that of the first which tells it, and a sum that of all
/// that do.
pub proof fn told_numbers_count(outputs: Seq<OutputFile>, o: OutputFile, key: Seq<char>)
    ensures
        output_u64_sum(Seq::empty(), key) is None,
        field_u64(o.metadata@, key) is None ==> output_u64_sum(outputs.push(o), key)
            == output_u64_sum(outputs, key),
        field_u64(o.metadata@, key) is Some && output_u64_sum(outputs, key) is None
            ==> output_u64_sum(outputs.push(o), key) == field_u64(o.metadata@, key),
        field_u64(o.metadata@, key) is Some && output_u64_sum(outputs, key) is Some
            ==> output_u64_sum(outputs.push(o), key) == Some(
            output_u64_sum(outputs, key)->0 + field_u64(o.metadata@, key)->0,
        ),
        first_output_u64(Seq::empty(), key) is None,
        field_u64(o.metadata@, key) is Some ==> first_output_u64(seq![o] + outputs, key)
            == field_u64(o.metadata@, key),
        field_u64(o.metadata@, key) is None ==> first_output_u64(seq![o] + outputs, key)
            == first_output_u64(outputs, key),
{
    assert(outputs.push(o).drop_last() =~= outputs);
    assert((seq![o] + outputs).drop_first() =~= outputs);
    assert((seq![o] + outputs)[0] == o);
}

/// A parameter that was adjusted is told of, and no other.
pub proof fn adjustments_are_told(all: Seq<ResolvedParameter>, p: ResolvedParameter)
    ensures
        adjusted_lines(Seq::empty()).len() == 0,
        p.adjusted ==> adjusted_lines(all.push(p)) == adjusted_lines(all).push(
            "  "@ + p.path@ + " = "@ + shown_value(p.path@, p.value),
        ),
        !p.adjusted ==> adjusted_lines(all.push(p)) == adjusted_lines(all),
        ("  "@ + p.path@ + " = "@ + shown_value(p.path@, p.value) + " ("@
            + p.source@).is_prefix_of(parameter_line(p)),
        p.explicit ==> (" explicit"@ + ")"@).is_suffix_of(parameter_line(p)),
        !p.explicit ==> (p.source@ + ")"@).is_suffix_of(parameter_line(p)),
{
    assert(all.push(p).drop_last() =~= all);
    let l = parameter_line(p);
    let head = "  "@ + p.path@ + " = "@ + shown_value(p.path@, p.value) + " ("@ + p.source@;
    assert(head =~= l.take(head.len() as int));
    reveal_strlit("");
    if p.explicit {
        let tail = " explicit"@ + ")"@;
        assert(tail =~= l.skip(l.len() - tail.len()));
    } else {
        let tail = p.source@ + ")"@;
        assert(tail =~= l.skip(l.len() - tail.len()));
    }
}

/// A candidate is shown as accepted or as rejected, with its reasons made safe to show.
pub proof fn candidates_are_told(c: PlanCandidate, i: int)
    ensures
        ({
            let lines = candidate_lines(c);
            &&& ("  "@ + c.runtime_id@ + " backend="@ + c.backend@ + " status="@ + if c.accepted {
                "accepted"@
            } else {
                "rejected"@
            }).is_prefix_of(lines[0])
            &&& 0 <= i < c.reasons@.len() ==> lines[i + 1] == "    reason: "@ + sanitized(
                c.reasons@[i]@,
            )
            &&& lines.len() == 1 + c.reasons@.len() + c.degradations@.len()
        }),
        score_text(None) == "N/A"@,
{
    let status = if c.accepted {
        "accepted"@
    } else {
        "rejected"@
    };
    let head = "  "@ + c.runtime_id@ + " backend="@ + c.backend@ + " status="@ + status;
    assert(head =~= candidate_lines(c)[0].take(head.len() as int));
}

/// The length of sounds is told once where they are equally long, and in all where they
/// are not; how fast they came is not told of the parts of a song.
pub proof fn lengths_are_told(m: MediaReport, rates: MediaRates, text: String, n: usize)
    ensures
        duration_text(DurationSummary::Nothing) is None,
        duration_text(DurationSummary::Single(text)) == Some(text@),
        duration_text(DurationSummary::Each(text, n)) == Some(
            text@ + " each ("@ + decimal(n as nat) + " outputs)"@,
        ),
        duration_text(DurationSummary::Total(text, n)) == Some(
            text@ + " total ("@ + decimal(n as nat) + " outputs)"@,
        ),
        several(DurationSummary::Each(text, n)) && several(DurationSummary::Total(text, n))
            && !several(DurationSummary::Single(text)) && !several(DurationSummary::Nothing),
        modality_lines(m, OutputModality::Embedding, rates).len() == 0,
        !(m.task is SpeechToText) ==> modality_lines(m, OutputModality::Text, rates).len() == 0,
        forall|a: Option<nat>, b: Option<nat>|
            a is Some ==> #[trigger] or_else(a, b) == a,
        forall|b: Option<nat>| #[trigger] or_else(None, b) == b,
{
}

/// Each way in which a run is made lighter has its own words.
pub proof fn degradations_have_their_words(backend: String, modality: InputModality)
    ensures
        degradation_text(ExecutionDegradation::CpuOffload) == "cpu offload"@,
        degradation_text(ExecutionDegradation::SequentialOffload) == "sequential offload"@,
        degradation_text(ExecutionDegradation::ComponentOffload) == "component offload"@,
        degradation_text(ExecutionDegradation::VaeTiling) == "VAE tiling"@,
        degradation_text(ExecutionDegradation::TemporalWindowing) == "temporal windowing"@,
        degradation_text(ExecutionDegradation::SlowerAttention { backend })
            == "slower attention ("@ + backend@ + ")"@,
        crate::run_inference::modality_named(modality_name(modality)) == Some(modality),
{
    reveal_strlit("text");
    reveal_strlit("image");
    reveal_strlit("video");
    reveal_strlit("audio");
    assert("text"@[0] == 't' && "image"@[0] == 'i' && "video"@[0] == 'v' && "audio"@[0] == 'a');
}

} // verus!

//! What `--debug` tells of the choice of a backend.

use vstd::prelude::*;

use crate::args::{backend_arg_name, requested_backend_label, BackendArg};
use crate::backend::{
    backend_title, format_debug_name, format_title, offered_target,
    runtime_install_target_for_platform, verbose_backend_label, yes_no, yes_no_text, BackendChoice,
    BackendRuntime, RequestedBackend, RuntimeId,
};
use crate::doctor::{
    burn_debug_lines, onnx_debug_lines, print_burn_debug_details, print_onnxruntime_debug_details,
    BurnProbeReport, Discovery, OnnxRuntimeAvailability, Platform,
};
use crate::estimate_report::{or_unknown, text_or_unknown};
use crate::manifest::{ModelFormat, ModelManifest};
use crate::report_lines::{add_line, add_lines, line, no_lines};
use crate::selection::{
    candle_safetensors_cuda_fallback_warning, role_of, runtime_role, RequestCapabilities,
};
use crate::text::{join2, join5, opt_str, opt_view, views};

verus! {

/// What is known of a runtime beyond the decision.
#[derive(Debug)]
pub enum RuntimeDetails {
    Nothing,
    Onnx { discovery: Discovery, availability: OnnxRuntimeAvailability, reason: String },
    Burn(BurnProbeReport),
}

/// What is told of the details: the search for an ONNX Runtime, and the probe of a
/// Burn runtime.
pub open spec fn details_lines(id: RuntimeId, details: RuntimeDetails) -> Seq<Seq<char>> {
    match details {
        RuntimeDetails::Onnx { discovery, availability, reason } => if id is OnnxRuntimeCuda || id
            is OnnxRuntimeRocm || id is OnnxRuntimeCpu {
            onnx_debug_lines(discovery, availability, reason@)
        } else {
            Seq::empty()
        },
        RuntimeDetails::Burn(report) => if id is BurnCuda || id is BurnCpu {
            burn_debug_lines(report)
        } else {
            Seq::empty()
        },
        RuntimeDetails::Nothing => Seq::empty(),
    }
}

fn tell_details(id: RuntimeId, details: &RuntimeDetails) -> (r: Vec<String>)
    ensures
        views(r@) == details_lines(id, *details),
{
    match details {
        RuntimeDetails::Onnx { discovery, availability, reason } => {
            if id == RuntimeId::OnnxRuntimeCuda || id == RuntimeId::OnnxRuntimeRocm || id
                == RuntimeId::OnnxRuntimeCpu {
                print_onnxruntime_debug_details(discovery, *availability, reason.as_str())
            } else {
                no_lines()
            }
        },
        RuntimeDetails::Burn(report) => {
            if id == RuntimeId::BurnCuda || id == RuntimeId::BurnCpu {
                print_burn_debug_details(report)
            } else {
                no_lines()
            }
        },
        RuntimeDetails::Nothing => no_lines(),
    }
}

/// A runtime that was considered, and what was decided of it. The details are told
/// of one that was rejected.
#[derive(Debug)]
pub struct ConsideredRuntime {
    pub runtime_id: RuntimeId,
    pub runtime: BackendRuntime,
    pub display_name: String,
    pub accepted: bool,
    pub reason: String,
    pub install_target: Option<String>,
    pub details: RuntimeDetails,
}

/// A runtime that was selected.
#[derive(Debug)]
pub struct SelectedRuntime {
    pub runtime_id: RuntimeId,
    pub runtime: BackendRuntime,
    pub display_name: String,
    pub reason: String,
}

/// What the debug output speaks of.
#[derive(Debug)]
pub struct RoutingStory {
    pub requested: BackendArg,
    pub requested_backend: RequestedBackend,
    pub artifact: String,
    pub capabilities: RequestCapabilities,
    pub considered: Vec<ConsideredRuntime>,
    pub planned: Option<SelectedRuntime>,
    pub selected: BackendChoice,
    pub platform: Platform,
}

pub open spec fn considered_lines(
    c: ConsideredRuntime,
    format: ModelFormat,
    requested: RequestedBackend,
    p: Platform,
) -> Seq<Seq<char>> {
    let status = if c.accepted {
        "accepted"@
    } else {
        "rejected"@
    };
    line(
        "candidate: "@ + c.display_name@ + " ("@ + role_of(c.runtime, format, requested) + ") -> "@
            + status + ": "@ + c.reason@,
    ) + if c.accepted {
        Seq::empty()
    } else {
        (match offered_target(
            opt_view(c.install_target),
            p.operating_system@,
            p.architecture@,
            p.strix_halo,
        ) {
            Some(target) => line("  install hint: werk backend install "@ + target),
            None => Seq::empty(),
        }) + details_lines(c.runtime_id, c.details)
    }
}

fn tell_considered(
    c: &ConsideredRuntime,
    format: ModelFormat,
    requested: RequestedBackend,
    p: &Platform,
) -> (r: Vec<String>)
    ensures
        views(r@) == considered_lines(*c, format, requested, *p),
{
    let mut r = no_lines();
    let status = if c.accepted {
        "accepted"
    } else {
        "rejected"
    };
    let mut text = join5(
        "candidate: ",
        c.display_name.as_str(),
        " (",
        runtime_role(c.runtime, format, requested),
        ") -> ",
    );
    text.push_str(status);
    text.push_str(": ");
    text.push_str(c.reason.as_str());
    let ghost head = text@;
    add_line(&mut r, text);
    assert(views(r@) =~= line(head));
    if c.accepted {
        assert(views(r@) + Seq::<Seq<char>>::empty() =~= views(r@));
    } else {
        let mut more = no_lines();
        if let Some(target) = runtime_install_target_for_platform(
            opt_str(&c.install_target),
            p.operating_system.as_str(),
            p.architecture.as_str(),
            p.strix_halo,
        ) {
            add_line(&mut more, join2("  install hint: werk backend install ", target));
            assert(views(more@) =~= line("  install hint: werk backend install "@ + target@));
        }
        add_lines(&mut more, tell_details(c.runtime_id, &c.details));
        add_lines(&mut r, more);
    }
    r
}

pub open spec fn all_considered(
    all: Seq<ConsideredRuntime>,
    format: ModelFormat,
    requested: RequestedBackend,
    p: Platform,
) -> Seq<Seq<char>>
    decreases all.len(),
{
    if all.len() == 0 {
        Seq::empty()
    } else {
        all_considered(all.drop_last(), format, requested, p) + considered_lines(
            all.last(),
            format,
            requested,
            p,
        )
    }
}

fn tell_all_considered(
    all: &Vec<ConsideredRuntime>,
    format: ModelFormat,
    requested: RequestedBackend,
    p: &Platform,
) -> (r: Vec<String>)
    ensures
        views(r@) == all_considered(all@, format, requested, *p),
{
    let mut r = no_lines();
    let mut i: usize = 0;
    assert(all@.take(0) =~= Seq::empty());
    while i < all.len()
        invariant
            i <= all@.len(),
            views(r@) == all_considered(all@.take(i as int), format, requested, *p),
        decreases all@.len() - i,
    {
        assert(all@.take(i + 1).drop_last() =~= all@.take(i as int));
        add_lines(&mut r, tell_considered(&all[i], format, requested, p));
        i = i + 1;
    }
    assert(all@.take(i as int) =~= all@);
    r
}

pub open spec fn selected_lines(s: RoutingStory, format: ModelFormat) -> Seq<Seq<char>> {
    match s.planned {
        Some(planned) => line("selected runtime: "@ + planned.display_name@) + line(
            "selected role: "@ + role_of(planned.runtime, format, s.requested_backend),
        ) + line("reason: "@ + planned.reason@) + if format is SafeTensors && (s.requested_backend
            is Auto || s.requested_backend is Cuda) && planned.runtime_id is CandleCuda {
            line(
                "warning: Candle is a compatibility fallback for safetensors CUDA. Install vLLM for better serving performance."@,
            )
        } else {
            Seq::empty()
        },
        None => line("selected runtime: "@ + backend_title(s.selected)),
    }
}

fn tell_selected(s: &RoutingStory, format: ModelFormat) -> (r: Vec<String>)
    ensures
        views(r@) == selected_lines(*s, format),
{
    let mut r = no_lines();
    match &s.planned {
        Some(planned) => {
            add_line(&mut r, join2("selected runtime: ", planned.display_name.as_str()));
            assert(views(r@) =~= line("selected runtime: "@ + planned.display_name@));
            let role = runtime_role(planned.runtime, format, s.requested_backend);
            add_line(&mut r, join2("selected role: ", role));
            add_line(&mut r, join2("reason: ", planned.reason.as_str()));
            if candle_safetensors_cuda_fallback_warning(
                format,
                s.requested_backend,
                planned.runtime_id,
            ) {
                add_line(
                    &mut r,
                    "warning: Candle is a compatibility fallback for safetensors CUDA. Install vLLM for better serving performance.".to_owned(),
                );
            } else {
                assert(views(r@) + Seq::<Seq<char>>::empty() =~= views(r@));
            }
        },
        None => {
            add_line(&mut r, join2("selected runtime: ", verbose_backend_label(s.selected)));
            assert(views(r@) =~= line("selected runtime: "@ + backend_title(s.selected)));
        },
    }
    r
}

/// What is told of the choice of a backend for a model.
pub open spec fn routing_lines(s: RoutingStory, m: ModelManifest) -> Seq<Seq<char>> {
    line("requested backend: "@ + backend_arg_name(s.requested)) + line(
        "model format: "@ + format_title(m.format),
    ) + line("architecture: "@ + or_unknown(opt_view(m.architecture))) + line(
        "artifact: "@ + s.artifact@,
    ) + line("request capabilities:"@) + line("  text_generation: yes"@) + line(
        "  image_input: "@ + yes_no_text(s.capabilities.image_input),
    ) + line("  embeddings: "@ + yes_no_text(s.capabilities.embeddings)) + line(
        "  streaming: "@ + yes_no_text(s.capabilities.streaming),
    ) + line("candidate runtimes:"@) + all_considered(
        s.considered@,
        m.format,
        s.requested_backend,
        s.platform,
    ) + selected_lines(s, m.format)
}

pub fn print_routing_debug(s: &RoutingStory, manifest: &ModelManifest) -> (r: Vec<String>)
    ensures
        views(r@) == routing_lines(*s, *manifest),
{
    let mut r = no_lines();
    add_line(&mut r, join2("requested backend: ", requested_backend_label(s.requested)));
    assert(views(r@) =~= line("requested backend: "@ + backend_arg_name(s.requested)));
    add_line(&mut r, join2("model format: ", format_debug_name(manifest.format)));
    let architecture = text_or_unknown(&manifest.architecture);
    add_line(&mut r, join2("architecture: ", architecture.as_str()));
    add_line(&mut r, join2("artifact: ", s.artifact.as_str()));
    add_line(&mut r, "request capabilities:".to_owned());
    add_line(&mut r, "  text_generation: yes".to_owned());
    add_line(&mut r, join2("  image_input: ", yes_no(s.capabilities.image_input)));
    add_line(&mut r, join2("  embeddings: ", yes_no(s.capabilities.embeddings)));
    add_line(&mut r, join2("  streaming: ", yes_no(s.capabilities.streaming)));
    add_line(&mut r, "candidate runtimes:".to_owned());
    add_lines(
        &mut r,
        tell_all_considered(
            &s.considered,
            manifest.format,
            s.requested_backend,
            &s.platform,
        ),
    );
    add_lines(&mut r, tell_selected(s, manifest.format));
    r
}

// ---------------------------------------------------------------------------
// What the story tells
// ---------------------------------------------------------------------------

/// What is told of a candidate is whether it was taken, and why; how to install it is
/// told of those that were not and can be had.
pub proof fn candidates_are_accepted_or_rejected(
    c: ConsideredRuntime,
    format: ModelFormat,
    requested: RequestedBackend,
    p: Platform,
)
    ensures
        ({
            let lines = considered_lines(c, format, requested, p);
            let offered = offered_target(
                opt_view(c.install_target),
                p.operating_system@,
                p.architecture@,
                p.strix_halo,
            );
            &&& ("candidate: "@ + c.display_name@ + " ("@).is_prefix_of(lines[0])
            &&& (": "@ + c.reason@).is_suffix_of(lines[0])
            &&& c.accepted ==> lines.len() == 1 && (") -> "@ + "accepted"@ + ": "@
                + c.reason@).is_suffix_of(lines[0])
            &&& !c.accepted ==> (") -> "@ + "rejected"@ + ": "@ + c.reason@).is_suffix_of(lines[0])
            &&& !c.accepted && offered is Some ==> lines[1]
                == "  install hint: werk backend install "@ + offered->0
        }),
        details_lines(c.runtime_id, RuntimeDetails::Nothing).len() == 0,
{
    let lines = considered_lines(c, format, requested, p);
    let head = "candidate: "@ + c.display_name@ + " ("@;
    assert(head =~= lines[0].take(head.len() as int));
    let tail = ": "@ + c.reason@;
    assert(tail =~= lines[0].skip(lines[0].len() - tail.len()));
    let status = if c.accepted {
        "accepted"@
    } else {
        "rejected"@
    };
    let whole = ") -> "@ + status + ": "@ + c.reason@;
    assert(whole =~= lines[0].skip(lines[0].len() - whole.len()));
}

/// The story begins with what was asked for and ends with what was selected.
pub proof fn stories_tell_what_was_asked(s: RoutingStory, m: ModelManifest)
    ensures
        routing_lines(s, m)[0] == "requested backend: "@ + backend_arg_name(s.requested),
        routing_lines(s, m)[1] == "model format: "@ + format_title(m.format),
        routing_lines(s, m)[3] == "artifact: "@ + s.artifact@,
        routing_lines(s, m)[6] == "  image_input: "@ + yes_no_text(s.capabilities.image_input),
        routing_lines(s, m)[7] == "  embeddings: "@ + yes_no_text(s.capabilities.embeddings),
        routing_lines(s, m)[8] == "  streaming: "@ + yes_no_text(s.capabilities.streaming),
        yes_no_text(true) == "yes"@,
        yes_no_text(false) == "no"@,
        s.planned is None ==> routing_lines(s, m).last() == "selected runtime: "@ + backend_title(
            s.selected,
        ),
        s.planned matches Some(planned) ==> {
            let chosen = selected_lines(s, m.format);
            &&& chosen[0] == "selected runtime: "@ + planned.display_name@
            &&& chosen[2] == "reason: "@ + planned.reason@
            &&& chosen.len() == 4 <==> m.format is SafeTensors && planned.runtime_id is CandleCuda
                && (s.requested_backend is Auto || s.requested_backend is Cuda)
            &&& chosen.len() == 3 || chosen.len() == 4
        },
{
}

} // verus!

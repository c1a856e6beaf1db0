//! What the commands do: what they refuse, what they install, and what they say
//! when they are done.

use vstd::prelude::*;

use crate::args::{
    backend_arg_name, requested_backend_label, BackendArg, BackendInstallArg, LlamaCppMode,
    OnnxRuntimeMode,
};
use crate::backend::{
    backend_title, display_llama_mode, format_debug_name, format_title, llama_mode_name,
    verbose_backend_label, BackendChoice,
};
use crate::manifest::{
    has_task, manifest_matches_list_filters, matches_filters, InferenceTask, ListFilters,
    ModelManifest,
};
use crate::text::{join2, join3, join5, opt_str_view, opt_view, str_trim, trimmed};

verus! {

/// An estimate of a task has no file to be made of.
pub fn check_estimate_options(has_task: bool, has_file: bool) -> (r: Result<(), String>)
    ensures
        r is Err <==> has_task && has_file,
        r matches Err(message) ==> message@
            == "--file cannot be combined with --task workload estimates"@,
{
    if has_task && has_file {
        return Err("--file cannot be combined with --task workload estimates".to_owned());
    }
    Ok(())
}

/// The model that images are made with by default has to make images.
pub fn check_default_image_model(manifest: &ModelManifest) -> (r: Result<(), String>)
    ensures
        r is Ok <==> manifest.metadata.tasks@.contains(InferenceTask::ImageGeneration),
        r matches Err(message) ==> message@ == "default image model '"@ + manifest.id@
            + "' does not declare image-generation"@,
{
    if !has_task(&manifest.metadata.tasks, InferenceTask::ImageGeneration) {
        return Err(
            join3(
                "default image model '",
                manifest.id.as_str(),
                "' does not declare image-generation",
            ),
        );
    }
    Ok(())
}

/// The model that sources are asked of has to be there.
pub fn check_sources(sources: bool, has_model: bool) -> (r: Result<(), String>)
    ensures
        r is Err <==> sources && !has_model,
        r matches Err(message) ==> message@ == "--sources requires an installed MODEL"@,
{
    if sources && !has_model {
        return Err("--sources requires an installed MODEL".to_owned());
    }
    Ok(())
}

/// What an install target is.
#[derive(Clone, Copy, Debug, PartialEq, Eq, Structural)]
pub enum InstallPlan {
    LlamaServer(LlamaCppMode),
    OnnxRuntime(OnnxRuntimeMode),
    Vllm,
    QwenTts,
}

pub open spec fn install_plan_of(target: BackendInstallArg) -> InstallPlan {
    match target.llama_mode() {
        Some(mode) => InstallPlan::LlamaServer(mode),
        None => match target.onnx() {
            Some(mode) => InstallPlan::OnnxRuntime(mode),
            None => if target == BackendInstallArg::Vllm {
                InstallPlan::Vllm
            } else {
                InstallPlan::QwenTts
            },
        },
    }
}

pub fn install_plan(target: BackendInstallArg) -> (r: InstallPlan)
    ensures
        r == install_plan_of(target),
{
    match target.mode() {
        Some(mode) => InstallPlan::LlamaServer(mode),
        None => match target.onnx_mode() {
            Some(mode) => InstallPlan::OnnxRuntime(mode),
            None => if target == BackendInstallArg::Vllm {
                InstallPlan::Vllm
            } else {
                InstallPlan::QwenTts
            },
        },
    }
}

/// What is said when something was installed. `onnx_name` is that of the ONNX
/// Runtime.
pub open spec fn installed_text(plan: InstallPlan, onnx_name: Seq<char>, path: Seq<char>) -> Seq<char> {
    match plan {
        InstallPlan::LlamaServer(mode) => "Installed "@ + llama_mode_name(mode)
            + " llama-server: "@ + path,
        InstallPlan::OnnxRuntime(_) => "Installed "@ + onnx_name + " runner: "@ + path,
        InstallPlan::Vllm => "Installed vLLM backend: "@ + path,
        InstallPlan::QwenTts => "Installed Qwen-TTS backend: "@ + path,
    }
}

pub fn installed_message(plan: InstallPlan, onnx_name: &str, path: &str) -> (r: String)
    ensures
        r@ == installed_text(plan, onnx_name@, path@),
{
    match plan {
        InstallPlan::LlamaServer(mode) => {
            let mut r = join3("Installed ", display_llama_mode(mode), " llama-server: ");
            r.push_str(path);
            r
        },
        InstallPlan::OnnxRuntime(_) => {
            let mut r = join3("Installed ", onnx_name, " runner: ");
            r.push_str(path);
            r
        },
        InstallPlan::Vllm => join2("Installed vLLM backend: ", path),
        InstallPlan::QwenTts => join2("Installed Qwen-TTS backend: ", path),
    }
}

/// A token, without the space around it. An empty one is refused.
pub fn checked_huggingface_token(text: &str) -> (r: Result<String, String>)
    ensures
        match r {
            Ok(token) => token@ == trimmed(text@) && token@.len() > 0,
            Err(message) => trimmed(text@).len() == 0 && message@
                == "Hugging Face token cannot be empty"@,
        },
{
    let token = str_trim(text);
    if token.as_str().unicode_len() == 0 {
        return Err("Hugging Face token cannot be empty".to_owned());
    }
    Ok(token)
}

pub fn huggingface_status_message(source: Option<&str>) -> (r: String)
    ensures
        r@ == match opt_str_view(source) {
            Some(source) => "Hugging Face token: configured ("@ + source + ")"@,
            None =>
                "Hugging Face token: not configured. Run `werk auth huggingface login` or set HF_TOKEN."@,
        },
{
    match source {
        Some(source) => join3("Hugging Face token: configured (", source, ")"),
        None =>
            "Hugging Face token: not configured. Run `werk auth huggingface login` or set HF_TOKEN.".to_owned(),
    }
}

pub fn huggingface_logout_message(removed: bool) -> (r: &'static str)
    ensures
        r@ == if removed {
            "Removed Werk-stored Hugging Face token."@
        } else {
            "No Werk-stored Hugging Face token was found."@
        },
{
    if removed {
        "Removed Werk-stored Hugging Face token."
    } else {
        "No Werk-stored Hugging Face token was found."
    }
}

pub fn removed_message(manifest: &ModelManifest, directory: &str) -> (r: String)
    ensures
        r@ == "Removed "@ + manifest.id@ + " ("@ + format_title(manifest.format) + ") from "@
            + directory@,
{
    let mut r = join5(
        "Removed ",
        manifest.id.as_str(),
        " (",
        format_debug_name(manifest.format),
        ") from ",
    );
    r.push_str(directory);
    r
}

pub fn selected_file_message(manifest: &ModelManifest) -> (r: String)
    ensures
        r@ == "Selected "@ + crate::estimate_report::or_unknown(opt_view(manifest.model_path))
            + " for "@ + manifest.id@,
{
    let path = crate::estimate_report::text_or_unknown(&manifest.model_path);
    let mut r = join3("Selected ", path.as_str(), " for ");
    r.push_str(manifest.id.as_str());
    r
}

/// What a server says of where it sends a request.
pub fn serve_route_message(manifest: &ModelManifest, found: BackendChoice) -> (r: String)
    ensures
        r@ == "[werk serve] route model="@ + manifest.id@ + " backend="@ + backend_title(found),
{
    let mut r = join3("[werk serve] route model=", manifest.id.as_str(), " backend=");
    r.push_str(verbose_backend_label(found));
    r
}

/// The backend that a listing is narrowed to: the one asked for, unless that is
/// left to the program.
pub fn list_backend_filter(backend: BackendArg) -> (r: Option<&'static str>)
    ensures
        match r {
            Some(name) => !(backend is Auto) && name@ == backend_arg_name(backend),
            None => backend is Auto,
        },
{
    if backend == BackendArg::Auto {
        None
    } else {
        Some(requested_backend_label(backend))
    }
}

/// The models that the filters let through, in order, by their places.
pub open spec fn matching(all: Seq<ModelManifest>, filters: ListFilters) -> Seq<int>
    decreases all.len(),
{
    if all.len() == 0 {
        Seq::empty()
    } else {
        let rest = matching(all.drop_last(), filters);
        if matches_filters(all.last(), filters) {
            rest.push(all.len() - 1)
        } else {
            rest
        }
    }
}

pub fn matching_models(all: &Vec<ModelManifest>, filters: &ListFilters) -> (r: Vec<usize>)
    ensures
        r@.map_values(|i: usize| i as int) == matching(all@, *filters),
{
    let mut r: Vec<usize> = Vec::new();
    let mut i: usize = 0;
    assert(all@.take(0) =~= Seq::empty());
    assert(r@.map_values(|i: usize| i as int) =~= Seq::empty());
    while i < all.len()
        invariant
            i <= all@.len(),
            r@.map_values(|i: usize| i as int) == matching(all@.take(i as int), *filters),
        decreases all@.len() - i,
    {
        assert(all@.take(i + 1).drop_last() =~= all@.take(i as int));
        if manifest_matches_list_filters(&all[i], filters) {
            let ghost before = r@;
            r.push(i);
            assert(r@.map_values(|i: usize| i as int) =~= before.map_values(
                |i: usize| i as int,
            ).push(i as int));
        }
        i = i + 1;
    }
    assert(all@.take(i as int) =~= all@);
    r
}

// ---------------------------------------------------------------------------
// What commands do
// ---------------------------------------------------------------------------

/// What is to be installed is what was named.
pub proof fn named_targets_are_installed(target: BackendInstallArg)
    ensures
        install_plan_of(target) is Vllm <==> target is Vllm,
        install_plan_of(target) is QwenTts <==> target is QwenTts,
        install_plan_of(target) == InstallPlan::LlamaServer(LlamaCppMode::Cuda) <==> target
            is LlamaCuda,
        install_plan_of(target) == InstallPlan::LlamaServer(LlamaCppMode::Rocm) <==> target
            is LlamaRocm,
        install_plan_of(target) == InstallPlan::LlamaServer(LlamaCppMode::Vulkan) <==> target
            is LlamaVulkan,
        install_plan_of(target) == InstallPlan::LlamaServer(LlamaCppMode::Metal) <==> target
            is LlamaMetal,
        install_plan_of(target) == InstallPlan::LlamaServer(LlamaCppMode::Cpu) <==> target
            is LlamaCpu,
        install_plan_of(target) == InstallPlan::OnnxRuntime(OnnxRuntimeMode::Cuda) <==> target
            is OnnxCuda,
        install_plan_of(target) == InstallPlan::OnnxRuntime(OnnxRuntimeMode::Rocm) <==> target
            is OnnxRocm,
        install_plan_of(target) == InstallPlan::OnnxRuntime(OnnxRuntimeMode::Cpu) <==> target
            is OnnxCpu,
{
}

/// A model is listed exactly where it passes the filters, once, and in its order.
pub proof fn models_are_listed_by_filters(all: Seq<ModelManifest>, filters: ListFilters, i: int)
    ensures
        matching(all, filters).contains(i) <==> 0 <= i < all.len() && matches_filters(
            all[i],
            filters,
        ),
        forall|a: int, b: int|
            0 <= a < b < matching(all, filters).len() ==> #[trigger] matching(all, filters)[a]
                < #[trigger] matching(all, filters)[b],
    decreases all.len(),
{
    if all.len() > 0 {
        let few = all.drop_last();
        let rest = matching(few, filters);
        let now = matching(all, filters);
        models_are_listed_by_filters(few, filters, i);
        if 0 <= i < few.len() {
            assert(few[i] == all[i]);
        }
        if matches_filters(all.last(), filters) {
            assert(now[now.len() - 1] == all.len() - 1);
            if rest.contains(i) {
                let k = choose|k: int| 0 <= k < rest.len() && rest[k] == i;
                assert(now[k] == i);
            }
            assert forall|a: int| 0 <= a < rest.len() implies #[trigger] rest[a] < all.len() - 1 by {
                models_are_listed_by_filters(few, filters, rest[a]);
                assert(rest.contains(rest[a]));
            }
        }
    }
}

} // verus!

//! Which backend runs a request: what the candidates are, why one is passed
//! over, and what is said when none is left.

use vstd::prelude::*;

use crate::args::{CandleDeviceMode, LlamaCppMode};
use crate::backend::{
    backend_label, backend_name, backend_of_runtime, backend_title, backend_to_runtime_id,
    format_debug_name, format_title, request_of, requested_backend_for_choice,
    runtime_id_to_backend, runtime_of_backend, should_auto_install_llama_server,
    verbose_backend_label, BackendChoice, BackendRuntime, Host, RequestedBackend, RuntimeId,
    SelectionOptions,
};
use crate::estimate_report::or_unknown;
use crate::manifest::{has_task, InferenceTask, ModelFormat, ModelManifest};
use crate::readiness::{plain_readiness, ReadinessView, TaskReadiness, TaskReadinessStatus};
use crate::text::{
    join2, join3, join5, join_strings, joined, lowered, opt_str_view, opt_view, str_eq,
    str_eq_ignore_case, str_words, views, words,
};

verus! {

/// What a request needs.
#[derive(Clone, Copy, Debug, PartialEq, Eq, Structural)]
pub struct RequestCapabilities {
    pub streaming: bool,
    pub image_input: bool,
    pub embeddings: bool,
    pub tool_calling: bool,
}

pub fn request_capabilities(has_images: bool) -> (r: RequestCapabilities)
    ensures
        r == (RequestCapabilities {
            streaming: true,
            image_input: has_images,
            embeddings: false,
            tool_calling: false,
        }),
{
    RequestCapabilities {
        streaming: true,
        image_input: has_images,
        embeddings: false,
        tool_calling: false,
    }
}

/// A reason on one line: runs of white space become one space.
pub open spec fn compacted(reason: Seq<char>) -> Seq<char> {
    joined(words(reason), " "@)
}

pub fn compact_reason(reason: &str) -> (r: String)
    ensures
        r@ == compacted(reason@),
{
    join_strings(&str_words(reason), " ")
}

fn compact_opt(reason: &Option<String>) -> (r: Option<String>)
    ensures
        opt_view(r) == opt_compacted(opt_view(*reason)),
{
    match reason {
        Some(reason) => Some(compact_reason(reason.as_str())),
        None => None,
    }
}

pub open spec fn opt_compacted(reason: Option<Seq<char>>) -> Option<Seq<char>> {
    match reason {
        Some(reason) => Some(compacted(reason)),
        None => None,
    }
}

// ---------------------------------------------------------------------------
// Candidates
// ---------------------------------------------------------------------------

pub open spec fn is_lesser_llama(id: RuntimeId) -> bool {
    id is LlamaServerVulkan || id is LlamaServerMetal || id is LlamaServerCpu
}

/// ROCm goes in front of the first llama.cpp server on Vulkan, Metal or the CPU,
/// or to the end.
pub open spec fn rocm_position(ids: Seq<RuntimeId>) -> int
    decreases ids.len(),
{
    if ids.len() == 0 || is_lesser_llama(ids[0]) {
        0
    } else {
        1 + rocm_position(ids.drop_first())
    }
}

pub proof fn lemma_rocm_position(ids: Seq<RuntimeId>)
    ensures
        0 <= rocm_position(ids) <= ids.len(),
        forall|i: int| 0 <= i < rocm_position(ids) ==> !is_lesser_llama(#[trigger] ids[i]),
    decreases ids.len(),
{
    if ids.len() > 0 && !is_lesser_llama(ids[0]) {
        let rest = ids.drop_first();
        lemma_rocm_position(rest);
        assert forall|i: int| 0 <= i < rocm_position(ids) implies !is_lesser_llama(
            #[trigger] ids[i],
        ) by {
            if i > 0 {
                assert(ids[i] == rest[i - 1]);
            }
        }
    }
}

pub fn llama_rocm_insert_position(candidates: &Vec<RuntimeId>) -> (r: usize)
    ensures
        r == rocm_position(candidates@),
        r <= candidates@.len(),
{
    let mut i: usize = 0;
    assert(candidates@.skip(0) =~= candidates@);
    while i < candidates.len()
        invariant
            i <= candidates@.len(),
            rocm_position(candidates@) == i + rocm_position(candidates@.skip(i as int)),
        decreases candidates@.len() - i,
    {
        assert(candidates@.skip(i as int).drop_first() =~= candidates@.skip(i + 1));
        let id = candidates[i];
        if id == RuntimeId::LlamaServerVulkan || id == RuntimeId::LlamaServerMetal || id
            == RuntimeId::LlamaServerCpu {
            return i;
        }
        i = i + 1;
    }
    i
}

fn has_runtime(ids: &Vec<RuntimeId>, id: RuntimeId) -> (r: bool)
    ensures
        r == ids@.contains(id),
{
    let mut i: usize = 0;
    while i < ids.len()
        invariant
            i <= ids@.len(),
            forall|j: int| 0 <= j < i ==> ids@[j] != id,
        decreases ids@.len() - i,
    {
        if ids[i] == id {
            assert(ids@[i as int] == id);
            return true;
        }
        i = i + 1;
    }
    false
}

/// What decides whether ROCm joins the candidates of the planner.
#[derive(Clone, Copy, Debug, PartialEq, Eq, Structural)]
pub struct RocmSignals {
    /// The machine is a Strix Halo.
    pub strix_halo: bool,
    /// A ROCm server is configured or was installed.
    pub llama_configured: bool,
    /// The environment asks vLLM to use ROCm.
    pub vllm_configured: bool,
    /// vLLM on ROCm can run the model.
    pub vllm_supports_model: bool,
}

pub fn llama_rocm_auto_probeable(signals: RocmSignals) -> (r: bool)
    ensures
        r == (signals.strix_halo || signals.llama_configured),
{
    signals.strix_halo || signals.llama_configured
}

pub fn vllm_rocm_auto_probeable(signals: RocmSignals) -> (r: bool)
    ensures
        r == (signals.strix_halo || signals.vllm_configured),
{
    signals.strix_halo || signals.vllm_configured
}

/// The candidates of the planner, with ROCm added where it may be there: vLLM
/// in front, a llama.cpp server in its place (in front on Strix Halo).
pub open spec fn with_rocm(
    ids: Seq<RuntimeId>,
    requested: RequestedBackend,
    format: ModelFormat,
    signals: RocmSignals,
) -> Seq<RuntimeId> {
    let vllm = (requested is Vllm || requested is Auto) && format is SafeTensors && (
    signals.strix_halo || signals.vllm_configured) && signals.vllm_supports_model && !ids.contains(
        RuntimeId::VllmRocm,
    );
    let llama = requested is Auto && format is Gguf && (signals.strix_halo
        || signals.llama_configured) && !ids.contains(RuntimeId::LlamaServerRocm);
    if vllm {
        ids.insert(0, RuntimeId::VllmRocm)
    } else if llama {
        ids.insert(
            if signals.strix_halo {
                0
            } else {
                rocm_position(ids)
            },
            RuntimeId::LlamaServerRocm,
        )
    } else {
        ids
    }
}

pub fn runtime_candidate_ids_for_selection(
    planned: Vec<RuntimeId>,
    requested: RequestedBackend,
    format: ModelFormat,
    signals: RocmSignals,
) -> (r: Vec<RuntimeId>)
    ensures
        r@ == with_rocm(planned@, requested, format, signals),
{
    let mut candidates = planned;
    if (requested == RequestedBackend::Vllm || requested == RequestedBackend::Auto) && format
        == ModelFormat::SafeTensors && vllm_rocm_auto_probeable(signals) && !has_runtime(
        &candidates,
        RuntimeId::VllmRocm,
    ) && signals.vllm_supports_model {
        candidates.insert(0, RuntimeId::VllmRocm);
    } else if requested == RequestedBackend::Auto && format == ModelFormat::Gguf
        && llama_rocm_auto_probeable(signals) && !has_runtime(
        &candidates,
        RuntimeId::LlamaServerRocm,
    ) {
        let at: usize = if signals.strix_halo {
            0
        } else {
            llama_rocm_insert_position(&candidates)
        };
        candidates.insert(at, RuntimeId::LlamaServerRocm);
    }
    candidates
}

/// Adding ROCm takes no candidate away, keeps their order, adds at most one and
/// none twice.
pub proof fn rocm_keeps_the_candidates(
    ids: Seq<RuntimeId>,
    requested: RequestedBackend,
    format: ModelFormat,
    signals: RocmSignals,
)
    ensures
        ids.len() <= with_rocm(ids, requested, format, signals).len() <= ids.len() + 1,
        with_rocm(ids, requested, format, signals) == ids || exists|at: int|
            0 <= at <= ids.len() && #[trigger] with_rocm(
                ids,
                requested,
                format,
                signals,
            ).remove(at) == ids,
        ids.no_duplicates() ==> with_rocm(ids, requested, format, signals).no_duplicates(),
{
    lemma_rocm_position(ids);
    let after = with_rocm(ids, requested, format, signals);
    if after != ids {
        let at: int = if after == ids.insert(0, RuntimeId::VllmRocm) || after == ids.insert(
            0,
            RuntimeId::LlamaServerRocm,
        ) {
            0
        } else {
            rocm_position(ids)
        };
        assert(0 <= at <= ids.len());
        assert(after.remove(at) =~= ids);
        if ids.no_duplicates() {
            assert forall|i: int, j: int|
                0 <= i < after.len() && 0 <= j < after.len() && i != j implies after[i]
                != after[j] by {
                let i0 = if i < at {
                    i
                } else {
                    i - 1
                };
                let j0 = if j < at {
                    j
                } else {
                    j - 1
                };
                if i == at {
                    assert(after[j] == ids[j0]);
                } else if j == at {
                    assert(after[i] == ids[i0]);
                } else {
                    assert(after[i] == ids[i0] && after[j] == ids[j0]);
                }
            }
        }
    }
}

/// Where the automatic choice gains a ROCm server, it stands before every
/// llama.cpp server on Vulkan, Metal or the CPU.
pub proof fn rocm_stands_before_lesser_servers(
    ids: Seq<RuntimeId>,
    format: ModelFormat,
    signals: RocmSignals,
    rocm: int,
    other: int,
)
    requires
        !ids.contains(RuntimeId::LlamaServerRocm),
        0 <= rocm < with_rocm(ids, RequestedBackend::Auto, format, signals).len(),
        0 <= other < with_rocm(ids, RequestedBackend::Auto, format, signals).len(),
        with_rocm(ids, RequestedBackend::Auto, format, signals)[rocm] is LlamaServerRocm,
        is_lesser_llama(with_rocm(ids, RequestedBackend::Auto, format, signals)[other]),
    ensures
        rocm < other,
{
    lemma_rocm_position(ids);
    let after = with_rocm(ids, RequestedBackend::Auto, format, signals);
    let at: int = if after == ids.insert(0, RuntimeId::VllmRocm) || signals.strix_halo {
        0
    } else {
        rocm_position(ids)
    };
    assert forall|i: int| 0 <= i < after.len() && after.len() > ids.len() && i != at implies ids.contains(
        #[trigger] after[i],
    ) by {
        let before = if i < at {
            i
        } else {
            i - 1
        };
        assert(after[i] == ids[before]);
    }
    if after == ids {
        assert(ids.contains(after[rocm]));
    } else {
        assert(rocm == at);
        if other < at {
            assert(after[other] == ids[other]);
        }
    }
}

/// The backends of the candidates; those without one are left out.
pub open spec fn backends_of(ids: Seq<RuntimeId>) -> Seq<BackendChoice>
    decreases ids.len(),
{
    if ids.len() == 0 {
        Seq::empty()
    } else {
        let rest = backends_of(ids.drop_last());
        match backend_of_runtime(ids.last()) {
            Some(backend) => rest.push(backend),
            None => rest,
        }
    }
}

/// The backends that the automatic choice tries, in order.
pub fn auto_candidates_for_manifest(planned: &Vec<RuntimeId>) -> (r: Vec<BackendChoice>)
    ensures
        r@ == backends_of(planned@),
{
    let mut r: Vec<BackendChoice> = Vec::new();
    let mut i: usize = 0;
    while i < planned.len()
        invariant
            i <= planned@.len(),
            r@ == backends_of(planned@.take(i as int)),
        decreases planned@.len() - i,
    {
        assert(planned@.take(i + 1).drop_last() =~= planned@.take(i as int));
        if let Some(backend) = runtime_id_to_backend(planned[i]) {
            r.push(backend);
        }
        i = i + 1;
    }
    assert(planned@.take(planned@.len() as int) =~= planned@);
    r
}

/// The candidates of Candle on a device; on its own choice of device, those of
/// the planner.
pub open spec fn candle_candidates(mode: CandleDeviceMode, planned: Seq<RuntimeId>) -> Seq<
    RuntimeId,
> {
    match mode {
        CandleDeviceMode::Auto => planned,
        CandleDeviceMode::Cpu => seq![RuntimeId::CandleCpu],
        CandleDeviceMode::Cuda => seq![RuntimeId::CandleCuda],
        CandleDeviceMode::Metal => seq![RuntimeId::CandleMetal],
    }
}

fn only(id: RuntimeId) -> (r: Vec<RuntimeId>)
    ensures
        r@ == seq![id],
{
    let mut r: Vec<RuntimeId> = Vec::new();
    r.push(id);
    assert(r@ =~= seq![id]);
    r
}

pub fn candle_runtime_candidates(mode: CandleDeviceMode, planned: Vec<RuntimeId>) -> (r: Vec<
    RuntimeId,
>)
    ensures
        r@ == candle_candidates(mode, planned@),
{
    match mode {
        CandleDeviceMode::Auto => planned,
        CandleDeviceMode::Cpu => only(RuntimeId::CandleCpu),
        CandleDeviceMode::Cuda => only(RuntimeId::CandleCuda),
        CandleDeviceMode::Metal => only(RuntimeId::CandleMetal),
    }
}

/// The candidates of a choice: its own runtime where it has one, else those of
/// the planner.
pub open spec fn debug_candidates(requested: BackendChoice, planned: Seq<RuntimeId>) -> Seq<
    RuntimeId,
> {
    match requested {
        BackendChoice::Candle(mode) => candle_candidates(mode, planned),
        BackendChoice::Auto => planned,
        BackendChoice::GgufPreferred { .. } => planned,
        _ => match runtime_of_backend(requested) {
            Some(id) => seq![id],
            None => Seq::empty(),
        },
    }
}

pub fn routing_candidates_for_debug(requested: BackendChoice, planned: Vec<RuntimeId>) -> (r: Vec<
    RuntimeId,
>)
    ensures
        r@ == debug_candidates(requested, planned@),
{
    match requested {
        BackendChoice::Candle(mode) => candle_runtime_candidates(mode, planned),
        BackendChoice::Auto => planned,
        BackendChoice::GgufPreferred { .. } => planned,
        _ => match backend_to_runtime_id(requested) {
            Some(id) => only(id),
            None => Vec::new(),
        },
    }
}

// ---------------------------------------------------------------------------
// Availability
// ---------------------------------------------------------------------------

/// What probing a backend found.
#[derive(Debug)]
pub struct BackendProbe {
    /// Why Candle cannot read the model's GGUF file.
    pub tokenizer_rejection: Option<String>,
    /// The error of the probe (of ONNX Runtime: of making it available).
    pub error: Option<String>,
    /// The reason that the backend gives for being unavailable.
    pub reason: String,
    /// The error of installing the server and probing it again, where it was
    /// installed.
    pub install_error: Option<String>,
}

pub open spec fn candle_cuda_reason(host: Host) -> Seq<char> {
    if host.candle_cuda {
        "Candle CUDA is unavailable"@
    } else {
        "This Werk binary was built without Candle CUDA support. Rebuild with: cargo install --path . --locked --force --features cuda"@
    }
}

pub fn candle_cuda_rejection_reason(host: Host) -> (r: String)
    ensures
        r@ == candle_cuda_reason(host),
{
    if host.candle_cuda {
        "Candle CUDA is unavailable".to_owned()
    } else {
        "This Werk binary was built without Candle CUDA support. Rebuild with: cargo install --path . --locked --force --features cuda".to_owned()
    }
}

pub open spec fn candle_cuda_message(host: Host) -> Seq<char> {
    if host.candle_cuda {
        "CUDA backend requested for safetensors model, but Candle CUDA is unavailable. Check the NVIDIA driver/CUDA runtime, or use: werk --backend auto / --backend cpu."@
    } else {
        "CUDA backend requested for safetensors model. This Werk binary was built without Candle CUDA support. Rebuild with: cargo install --path . --locked --force --features cuda. Or use: werk --backend auto / --backend cpu."@
    }
}

pub fn candle_cuda_unavailable_message(host: Host) -> (r: String)
    ensures
        r@ == candle_cuda_message(host),
{
    if host.candle_cuda {
        "CUDA backend requested for safetensors model, but Candle CUDA is unavailable. Check the NVIDIA driver/CUDA runtime, or use: werk --backend auto / --backend cpu.".to_owned()
    } else {
        "CUDA backend requested for safetensors model. This Werk binary was built without Candle CUDA support. Rebuild with: cargo install --path . --locked --force --features cuda. Or use: werk --backend auto / --backend cpu.".to_owned()
    }
}

/// Whether a server that was not found is installed before it is given up.
pub fn installs_llama_server(mode: LlamaCppMode, options: SelectionOptions, host: Host) -> (r: bool)
    ensures
        r == (options.provision_missing_backends && host.macos && mode is Metal),
{
    options.provision_missing_backends && should_auto_install_llama_server(mode, host)
}

/// Whether a missing ONNX Runtime is installed before it is given up.
pub fn installs_onnx_runtime(installable: bool, options: SelectionOptions) -> (r: bool)
    ensures
        r == (options.provision_missing_backends && installable),
{
    options.provision_missing_backends && installable
}

pub open spec fn if_failed(error: Option<Seq<char>>, reason: Seq<char>) -> Option<Seq<char>> {
    if error is Some {
        Some(reason)
    } else {
        None
    }
}

/// Why a backend cannot be used, by what probing it found.
pub open spec fn unavailability(
    backend: BackendChoice,
    probe: BackendProbe,
    options: SelectionOptions,
    host: Host,
) -> Option<Seq<char>> {
    let error = opt_view(probe.error);
    let tokenizer = opt_view(probe.tokenizer_rejection);
    match backend {
        BackendChoice::Auto => None,
        BackendChoice::GgufPreferred { .. } => None,
        BackendChoice::Candle(mode) => match mode {
            CandleDeviceMode::Auto => None,
            CandleDeviceMode::Cpu => tokenizer,
            CandleDeviceMode::Cuda => if tokenizer is Some {
                tokenizer
            } else {
                if_failed(error, candle_cuda_reason(host))
            },
            CandleDeviceMode::Metal => if tokenizer is Some {
                tokenizer
            } else {
                if_failed(error, "Candle Metal is unavailable"@)
            },
        },
        BackendChoice::Mlx => if_failed(error, "mlx-lm is unavailable"@),
        BackendChoice::MlxVlm => if_failed(
            error,
            "mlx-vlm is unavailable; install with `python3 -m pip install mlx-vlm`"@,
        ),
        BackendChoice::TransformersCompat => if_failed(error, probe.reason@),
        BackendChoice::Burn(_) => if_failed(error, probe.reason@),
        BackendChoice::Vllm => if_failed(error, probe.reason@),
        BackendChoice::VllmRocm => if_failed(error, probe.reason@),
        BackendChoice::OnnxRuntime(_) => opt_compacted(error),
        BackendChoice::LlamaServer(mode) => if error is None {
            None
        } else if options.provision_missing_backends && host.macos && mode is Metal {
            opt_compacted(opt_view(probe.install_error))
        } else {
            Some(probe.reason@)
        },
        BackendChoice::LlamaFast(_) => opt_compacted(error),
        BackendChoice::LlamaHighlevel(_) => opt_compacted(error),
    }
}

fn reason_if_failed(error: &Option<String>, reason: &str) -> (r: Option<String>)
    ensures
        opt_view(r) == if_failed(opt_view(*error), reason@),
{
    match error {
        Some(_) => Some(reason.to_owned()),
        None => None,
    }
}

pub fn backend_unavailability_reason(
    backend: BackendChoice,
    probe: &BackendProbe,
    options: SelectionOptions,
    host: Host,
) -> (r: Option<String>)
    ensures
        opt_view(r) == unavailability(backend, *probe, options, host),
{
    match backend {
        BackendChoice::Auto => None,
        BackendChoice::GgufPreferred { .. } => None,
        BackendChoice::Candle(mode) => {
            if mode == CandleDeviceMode::Auto {
                return None;
            }
            if let Some(reason) = &probe.tokenizer_rejection {
                return Some(reason.clone());
            }
            match mode {
                CandleDeviceMode::Cuda => reason_if_failed(
                    &probe.error,
                    candle_cuda_rejection_reason(host).as_str(),
                ),
                CandleDeviceMode::Metal => reason_if_failed(
                    &probe.error,
                    "Candle Metal is unavailable",
                ),
                _ => None,
            }
        },
        BackendChoice::Mlx => reason_if_failed(&probe.error, "mlx-lm is unavailable"),
        BackendChoice::MlxVlm => reason_if_failed(
            &probe.error,
            "mlx-vlm is unavailable; install with `python3 -m pip install mlx-vlm`",
        ),
        BackendChoice::TransformersCompat => reason_if_failed(&probe.error, probe.reason.as_str()),
        BackendChoice::Burn(_) => reason_if_failed(&probe.error, probe.reason.as_str()),
        BackendChoice::Vllm => reason_if_failed(&probe.error, probe.reason.as_str()),
        BackendChoice::VllmRocm => reason_if_failed(&probe.error, probe.reason.as_str()),
        BackendChoice::OnnxRuntime(_) => compact_opt(&probe.error),
        BackendChoice::LlamaServer(mode) => {
            if probe.error.is_none() {
                None
            } else if installs_llama_server(mode, options, host) {
                compact_opt(&probe.install_error)
            } else {
                Some(probe.reason.clone())
            }
        },
        BackendChoice::LlamaFast(_) => compact_opt(&probe.error),
        BackendChoice::LlamaHighlevel(_) => compact_opt(&probe.error),
    }
}

pub fn backend_available_for_store(
    backend: BackendChoice,
    probe: &BackendProbe,
    options: SelectionOptions,
    host: Host,
) -> (r: bool)
    ensures
        r == (unavailability(backend, *probe, options, host) is None),
{
    backend_unavailability_reason(backend, probe, options, host).is_none()
}

/// A backend whose probe found nothing wrong is available.
pub proof fn sound_probes_are_available(
    backend: BackendChoice,
    probe: BackendProbe,
    options: SelectionOptions,
    host: Host,
)
    requires
        probe.error is None,
        probe.tokenizer_rejection is None,
    ensures
        unavailability(backend, probe, options, host) is None,
{
}

/// What else an image needs of a backend.
#[derive(Debug)]
pub struct ImageProbe {
    /// Why the files of the model are no use for images.
    pub model_error: Option<String>,
    /// Why the server is no use for images.
    pub server_error: Option<String>,
    /// Whether vLLM supports images for the architecture.
    pub vllm_supports_architecture: bool,
}

/// Why a backend cannot be used for a request. Unusable model files are found
/// before anything is installed.
pub open spec fn request_unavailability(
    backend: BackendChoice,
    unavailable: Option<Seq<char>>,
    has_images: bool,
    images: ImageProbe,
    architecture: Option<Seq<char>>,
) -> Option<Seq<char>> {
    if has_images && backend is LlamaServer && images.model_error is Some {
        opt_compacted(opt_view(images.model_error))
    } else if unavailable is Some || !has_images {
        unavailable
    } else if backend is LlamaServer {
        opt_compacted(opt_view(images.server_error))
    } else if (backend is Vllm || backend is VllmRocm) && !images.vllm_supports_architecture {
        Some(
            "vLLM does not support image input for architecture '"@ + or_unknown(architecture)
                + "'"@,
        )
    } else {
        None
    }
}

pub fn backend_unavailability_reason_for_request(
    backend: BackendChoice,
    unavailable: Option<String>,
    has_images: bool,
    images: &ImageProbe,
    architecture: &Option<String>,
) -> (r: Option<String>)
    ensures
        opt_view(r) == request_unavailability(
            backend,
            opt_view(unavailable),
            has_images,
            *images,
            opt_view(*architecture),
        ),
{
    let server = match backend {
        BackendChoice::LlamaServer(_) => true,
        _ => false,
    };
    if has_images && server {
        if let Some(error) = &images.model_error {
            return Some(compact_reason(error.as_str()));
        }
    }
    if unavailable.is_some() || !has_images {
        return unavailable;
    }
    if server {
        return compact_opt(&images.server_error);
    }
    if (backend == BackendChoice::Vllm || backend == BackendChoice::VllmRocm)
        && !images.vllm_supports_architecture {
        let name = crate::estimate_report::text_or_unknown(architecture);
        return Some(
            join3(
                "vLLM does not support image input for architecture '",
                name.as_str(),
                "'",
            ),
        );
    }
    None
}

/// The error of a vLLM probe is the reason, word for word.
pub fn vllm_probe_unavailability_reason(probe: Result<String, String>) -> (r: Option<String>)
    ensures
        match probe {
            Ok(_) => r is None,
            Err(error) => opt_view(r) == Some(error@),
        },
{
    match probe {
        Ok(_) => None,
        Err(error) => Some(error),
    }
}

/// Why a runtime cannot be used: of vLLM what its probe said, of all others
/// what holds of their backends.
pub fn runtime_unavailability_reason(
    runtime_id: RuntimeId,
    vllm_probe: Result<String, String>,
    backend_reason: Option<String>,
) -> (r: Option<String>)
    ensures
        opt_view(r) == if runtime_id is VllmCuda || runtime_id is VllmRocm {
            match vllm_probe {
                Ok(_) => None,
                Err(error) => Some(error@),
            }
        } else {
            opt_view(backend_reason)
        },
{
    if runtime_id == RuntimeId::VllmCuda || runtime_id == RuntimeId::VllmRocm {
        vllm_probe_unavailability_reason(vllm_probe)
    } else {
        backend_reason
    }
}

/// What the planner is told of a runtime.
#[derive(Debug)]
pub struct RuntimeAvailability {
    pub runtime_id: RuntimeId,
    pub available: bool,
    pub reason: Option<String>,
}

/// A runtime without a backend is never available.
pub fn runtime_availability(runtime_id: RuntimeId, implemented: bool, reason: Option<String>) -> (r:
    RuntimeAvailability)
    ensures
        r.runtime_id == runtime_id,
        r.available == (r.reason is None),
        opt_view(r.reason) == if backend_of_runtime(runtime_id) is Some {
            opt_view(reason)
        } else if implemented {
            Some("runtime has no executable backend yet"@)
        } else {
            Some("runtime integration is not implemented yet"@)
        },
{
    if runtime_id_to_backend(runtime_id).is_some() {
        RuntimeAvailability { runtime_id, available: reason.is_none(), reason }
    } else if implemented {
        RuntimeAvailability {
            runtime_id,
            available: false,
            reason: Some("runtime has no executable backend yet".to_owned()),
        }
    } else {
        RuntimeAvailability {
            runtime_id,
            available: false,
            reason: Some("runtime integration is not implemented yet".to_owned()),
        }
    }
}

/// A candidate of the planner, and why its backend cannot be used.
#[derive(Debug)]
pub struct AvailabilityFacts {
    pub runtime_id: RuntimeId,
    pub implemented: bool,
    pub reason: Option<String>,
}

pub ghost struct AvailabilityView {
    pub runtime_id: RuntimeId,
    pub available: bool,
    pub reason: Option<Seq<char>>,
}

impl RuntimeAvailability {
    pub open spec fn view(&self) -> AvailabilityView {
        AvailabilityView {
            runtime_id: self.runtime_id,
            available: self.available,
            reason: opt_view(self.reason),
        }
    }
}

pub open spec fn availability_of(facts: AvailabilityFacts) -> AvailabilityView {
    let reason = if backend_of_runtime(facts.runtime_id) is Some {
        opt_view(facts.reason)
    } else if facts.implemented {
        Some("runtime has no executable backend yet"@)
    } else {
        Some("runtime integration is not implemented yet"@)
    };
    AvailabilityView { runtime_id: facts.runtime_id, available: reason is None, reason }
}

/// What the planner is told of its candidates, in order.
pub fn runtime_availabilities_for_request(facts: Vec<AvailabilityFacts>) -> (r: Vec<
    RuntimeAvailability,
>)
    ensures
        r@.map_values(|a: RuntimeAvailability| a@) == facts@.map_values(
            |f: AvailabilityFacts| availability_of(f),
        ),
{
    let ghost all = facts@;
    let mut rest = facts;
    let mut r: Vec<RuntimeAvailability> = Vec::new();
    assert(all.skip(0) =~= all);
    while rest.len() > 0
        invariant
            r@.len() <= all.len(),
            rest@ == all.skip(r@.len() as int),
            forall|i: int| 0 <= i < r@.len() ==> (#[trigger] r@[i])@ == availability_of(all[i]),
        decreases rest@.len(),
    {
        let f = rest.remove(0);
        assert(f == all[r@.len() as int]);
        assert(rest@ =~= all.skip((r@.len() + 1) as int));
        r.push(runtime_availability(f.runtime_id, f.implemented, f.reason));
    }
    assert(r@.map_values(|a: RuntimeAvailability| a@) =~= all.map_values(
        |f: AvailabilityFacts| availability_of(f),
    ));
    r
}

// ---------------------------------------------------------------------------
// Choosing among candidates
// ---------------------------------------------------------------------------

/// A candidate, and what is known of it for the request at hand.
#[derive(Debug)]
pub struct RuntimeFacts {
    pub id: RuntimeId,
    pub display_name: String,
    pub runtime: BackendRuntime,
    pub implemented: bool,
    /// It can run models that see.
    pub vision_language: bool,
    /// Its software takes images.
    pub supports_images: bool,
    /// It runs the format and the architecture of the model.
    pub supports_model: bool,
    /// Why its backend cannot be used for the request.
    pub unavailable: Option<String>,
    /// What its software says of being missing.
    pub backend_message: String,
}

/// Why a candidate is passed over before its backend is looked at.
pub open spec fn unsuitable(c: RuntimeFacts, images: bool, vllm_sees: bool) -> Option<Seq<char>> {
    if !c.supports_model {
        Some("model format or architecture is not supported"@)
    } else if !c.implemented {
        Some("runtime integration is not implemented yet"@)
    } else if c.id is MlxVlm && !images {
        Some("MLX-VLM is reserved for image requests; text-only MLX uses mlx-lm"@)
    } else if images && c.runtime is Vllm && !vllm_sees {
        Some("vLLM does not support image input for this architecture"@)
    } else if images && !c.vision_language {
        Some("runtime is not VLM-capable"@)
    } else if backend_of_runtime(c.id) is None {
        Some("runtime has no executable backend yet"@)
    } else {
        None
    }
}

/// Why a candidate is passed over: for the only candidate of a request without
/// images, at length.
pub open spec fn passed_over(
    c: RuntimeFacts,
    images: bool,
    vllm_sees: bool,
    alone: bool,
    m: ModelManifest,
    host: Host,
) -> Option<Seq<char>> {
    match unsuitable(c, images, vllm_sees) {
        Some(reason) => Some(reason),
        None => match opt_view(c.unavailable) {
            Some(reason) => Some(
                if alone && !images {
                    unavailable_text(
                        backend_of_runtime(c.id)->0,
                        m,
                        c.backend_message@,
                        ""@,
                        host,
                    )
                } else {
                    reason
                },
            ),
            None => None,
        },
    }
}

pub open spec fn told(c: RuntimeFacts, reason: Seq<char>) -> Seq<char> {
    c.display_name@ + ": "@ + reason
}

/// The first candidate that is not passed over.
pub open spec fn first_fit(
    all: Seq<RuntimeFacts>,
    images: bool,
    vllm_sees: bool,
    alone: bool,
    m: ModelManifest,
    host: Host,
) -> Option<int>
    decreases all.len(),
{
    if all.len() == 0 {
        None
    } else {
        match first_fit(all.drop_last(), images, vllm_sees, alone, m, host) {
            Some(i) => Some(i),
            None => if passed_over(all.last(), images, vllm_sees, alone, m, host) is None {
                Some(all.len() - 1)
            } else {
                None
            },
        }
    }
}

/// What is said of the candidates, in order.
pub open spec fn all_told(
    all: Seq<RuntimeFacts>,
    images: bool,
    vllm_sees: bool,
    alone: bool,
    m: ModelManifest,
    host: Host,
) -> Seq<Seq<char>> {
    Seq::new(
        all.len(),
        |i: int| told(all[i], passed_over(all[i], images, vllm_sees, alone, m, host)->0),
    )
}

/// The backend of the first candidate that fits, or what was wrong with each.
pub open spec fn chosen_backend(
    all: Seq<RuntimeFacts>,
    images: bool,
    vllm_sees: bool,
    m: ModelManifest,
    host: Host,
) -> Result<BackendChoice, Seq<char>> {
    let alone = all.len() == 1;
    match first_fit(all, images, vllm_sees, alone, m, host) {
        Some(i) => Ok(backend_of_runtime(all[i].id)->0),
        None => Err(
            "no compatible runtime available; tried: "@ + joined(
                all_told(all, images, vllm_sees, alone, m, host),
                "; "@,
            ),
        ),
    }
}

pub open spec fn choice_view(r: Result<BackendChoice, String>) -> Result<BackendChoice, Seq<char>> {
    match r {
        Ok(choice) => Ok(choice),
        Err(message) => Err(message@),
    }
}

pub proof fn lemma_first_fit(
    all: Seq<RuntimeFacts>,
    images: bool,
    vllm_sees: bool,
    alone: bool,
    m: ModelManifest,
    host: Host,
)
    ensures
        match first_fit(all, images, vllm_sees, alone, m, host) {
            Some(i) => 0 <= i < all.len() && passed_over(all[i], images, vllm_sees, alone, m, host) is None
                && forall|j: int|
                0 <= j < i ==> passed_over(#[trigger] all[j], images, vllm_sees, alone, m, host) is Some,
            None => forall|j: int|
                0 <= j < all.len() ==> passed_over(#[trigger] all[j], images, vllm_sees, alone, m, host)
                    is Some,
        },
    decreases all.len(),
{
    if all.len() > 0 {
        let rest = all.drop_last();
        lemma_first_fit(rest, images, vllm_sees, alone, m, host);
        assert forall|j: int| 0 <= j < rest.len() implies rest[j] == #[trigger] all[j] by {}
    }
}

fn unsuitability(c: &RuntimeFacts, images: bool, vllm_sees: bool) -> (r: Option<&'static str>)
    ensures
        opt_str_view(r) == unsuitable(*c, images, vllm_sees),
{
    if !c.supports_model {
        Some("model format or architecture is not supported")
    } else if !c.implemented {
        Some("runtime integration is not implemented yet")
    } else if c.id == RuntimeId::MlxVlm && !images {
        Some("MLX-VLM is reserved for image requests; text-only MLX uses mlx-lm")
    } else if images && c.runtime == BackendRuntime::Vllm && !vllm_sees {
        Some("vLLM does not support image input for this architecture")
    } else if images && !c.vision_language {
        Some("runtime is not VLM-capable")
    } else if runtime_id_to_backend(c.id).is_none() {
        Some("runtime has no executable backend yet")
    } else {
        None
    }
}

/// Chooses the first candidate that fits the request.
pub fn select_backend_from_runtime_candidates(
    candidates: &Vec<RuntimeFacts>,
    manifest: &ModelManifest,
    capabilities: RequestCapabilities,
    vllm_supports_images: bool,
    host: Host,
) -> (r: Result<BackendChoice, String>)
    ensures
        choice_view(r) == chosen_backend(
            candidates@,
            capabilities.image_input,
            vllm_supports_images,
            *manifest,
            host,
        ),
{
    let ghost m = *manifest;
    let images = capabilities.image_input;
    let alone = candidates.len() == 1;
    let mut rejected: Vec<String> = Vec::new();
    let mut i: usize = 0;
    let ghost all = candidates@;
    while i < candidates.len()
        invariant
            i <= candidates@.len(),
            all == candidates@,
            m == *manifest,
            alone == (all.len() == 1),
            images == capabilities.image_input,
            rejected@.len() == i,
            forall|j: int|
                0 <= j < i ==> passed_over(#[trigger] all[j], images, vllm_supports_images, alone, m, host)
                    is Some && rejected@[j]@ == told(
                    all[j],
                    passed_over(all[j], images, vllm_supports_images, alone, m, host)->0,
                ),
        decreases candidates@.len() - i,
    {
        let c = &candidates[i];
        let reason: Option<String> = match unsuitability(c, images, vllm_supports_images) {
            Some(reason) => Some(reason.to_owned()),
            None => match &c.unavailable {
                Some(reason) => if alone && !images {
                    match runtime_id_to_backend(c.id) {
                        Some(backend) => Some(
                            unavailable_backend_message(
                                backend,
                                manifest,
                                c.backend_message.as_str(),
                                "",
                                host,
                            ),
                        ),
                        None => Some(reason.clone()),
                    }
                } else {
                    Some(reason.clone())
                },
                None => None,
            },
        };
        match reason {
            Some(reason) => {
                rejected.push(join3(c.display_name.as_str(), ": ", reason.as_str()));
            },
            None => {
                proof {
                    lemma_first_fit(all, images, vllm_supports_images, alone, m, host);
                    let f = first_fit(all, images, vllm_supports_images, alone, m, host);
                    assert(passed_over(all[i as int], images, vllm_supports_images, alone, m, host) is None);
                    if f is Some && f->0 < i {
                        assert(passed_over(all[f->0], images, vllm_supports_images, alone, m, host) is Some);
                    }
                }
                match runtime_id_to_backend(c.id) {
                    Some(backend) => {
                        return Ok(backend);
                    },
                    None => {
                        assert(false);
                    },
                }
                rejected.push(String::new());
            },
        }
        i = i + 1;
    }
    proof {
        lemma_first_fit(all, images, vllm_supports_images, alone, m, host);
        let f = first_fit(all, images, vllm_supports_images, alone, m, host);
        if f is Some {
            assert(passed_over(all[f->0], images, vllm_supports_images, alone, m, host) is Some);
        }
        assert(views(rejected@) =~= all_told(all, images, vllm_supports_images, alone, m, host)) by {
            assert forall|j: int| 0 <= j < all.len() implies views(rejected@)[j] == told(
                all[j],
                passed_over(all[j], images, vllm_supports_images, alone, m, host)->0,
            ) by {
                assert(passed_over(all[j], images, vllm_supports_images, alone, m, host) is Some);
            }
        }
    }
    let tried = join_strings(&rejected, "; ");
    Err(join2("no compatible runtime available; tried: ", tried.as_str()))
}

/// Only a candidate is ever chosen, and only one that supports the model and has
/// an available backend.
pub proof fn only_candidates_are_chosen(
    all: Seq<RuntimeFacts>,
    images: bool,
    vllm_sees: bool,
    m: ModelManifest,
    host: Host,
)
    ensures
        chosen_backend(all, images, vllm_sees, m, host) matches Ok(backend) ==> exists|i: int|
            0 <= i < all.len() && backend_of_runtime((#[trigger] all[i]).id) == Some(backend)
                && all[i].supports_model && all[i].implemented && all[i].unavailable is None && (
            images ==> all[i].vision_language),
{
    let alone = all.len() == 1;
    lemma_first_fit(all, images, vllm_sees, alone, m, host);
    if let Some(i) = first_fit(all, images, vllm_sees, alone, m, host) {
        assert(passed_over(all[i], images, vllm_sees, alone, m, host) is None);
        assert(backend_of_runtime(all[i].id) is Some);
    }
}

// ---------------------------------------------------------------------------
// The whole selection
// ---------------------------------------------------------------------------

/// How a choice becomes a backend.
#[derive(Debug)]
pub enum SelectionRoute {
    /// The planner is asked.
    Planner(RequestedBackend),
    /// The first of these that fits.
    Candidates(Vec<RuntimeId>),
    /// This backend or none.
    Direct(BackendChoice),
}

pub ghost enum RouteView {
    Planner(RequestedBackend),
    Candidates(Seq<RuntimeId>),
    Direct(BackendChoice),
}

impl SelectionRoute {
    pub open spec fn view(&self) -> RouteView {
        match self {
            SelectionRoute::Planner(requested) => RouteView::Planner(*requested),
            SelectionRoute::Candidates(ids) => RouteView::Candidates(ids@),
            SelectionRoute::Direct(backend) => RouteView::Direct(*backend),
        }
    }
}

/// The families are planned, the concrete backends are tried, and the in-process
/// llama.cpp backends are taken or not. MLX sees through MLX-VLM.
pub open spec fn route_of(backend: BackendChoice, has_images: bool) -> RouteView {
    match backend {
        BackendChoice::Auto => RouteView::Planner(request_of(backend)),
        BackendChoice::GgufPreferred { .. } => RouteView::Planner(request_of(backend)),
        BackendChoice::Vllm => RouteView::Planner(request_of(backend)),
        BackendChoice::Candle(mode) => if mode is Auto {
            RouteView::Planner(request_of(backend))
        } else {
            RouteView::Candidates(candle_candidates(mode, Seq::empty()))
        },
        BackendChoice::LlamaFast(_) => RouteView::Direct(backend),
        BackendChoice::LlamaHighlevel(_) => RouteView::Direct(backend),
        BackendChoice::Mlx => RouteView::Candidates(
            if has_images {
                seq![RuntimeId::MlxVlm, RuntimeId::Mlx]
            } else {
                seq![RuntimeId::Mlx]
            },
        ),
        _ => RouteView::Candidates(seq![runtime_of_backend(backend)->0]),
    }
}

pub fn selection_route(backend: BackendChoice, has_images: bool) -> (r: SelectionRoute)
    ensures
        r@ == route_of(backend, has_images),
{
    match backend {
        BackendChoice::Auto => SelectionRoute::Planner(requested_backend_for_choice(backend)),
        BackendChoice::GgufPreferred { .. } => SelectionRoute::Planner(
            requested_backend_for_choice(backend),
        ),
        BackendChoice::Vllm => SelectionRoute::Planner(requested_backend_for_choice(backend)),
        BackendChoice::Candle(mode) => {
            if mode == CandleDeviceMode::Auto {
                SelectionRoute::Planner(requested_backend_for_choice(backend))
            } else {
                SelectionRoute::Candidates(candle_runtime_candidates(mode, Vec::new()))
            }
        },
        BackendChoice::LlamaFast(_) => SelectionRoute::Direct(backend),
        BackendChoice::LlamaHighlevel(_) => SelectionRoute::Direct(backend),
        BackendChoice::Mlx => {
            let mut ids: Vec<RuntimeId> = Vec::new();
            if has_images {
                ids.push(RuntimeId::MlxVlm);
            }
            ids.push(RuntimeId::Mlx);
            assert(ids@ =~= if has_images {
                seq![RuntimeId::MlxVlm, RuntimeId::Mlx]
            } else {
                seq![RuntimeId::Mlx]
            });
            SelectionRoute::Candidates(ids)
        },
        _ => match backend_to_runtime_id(backend) {
            Some(id) => SelectionRoute::Candidates(only(id)),
            None => {
                assert(false);
                SelectionRoute::Direct(backend)
            },
        },
    }
}

/// One decision of the planner.
#[derive(Debug)]
pub struct RuntimeDecision {
    pub runtime_id: RuntimeId,
    pub display_name: String,
    pub accepted: bool,
    pub reason: String,
}

pub open spec fn decisions_told(decisions: Seq<RuntimeDecision>) -> Seq<Seq<char>> {
    decisions.map_values(|d: RuntimeDecision| d.display_name@ + ": "@ + d.reason@)
}

/// What is said when the planner found nothing.
pub open spec fn plan_error_text(m: ModelManifest, decisions: Seq<RuntimeDecision>) -> Seq<char> {
    let model = m.id@ + "' ("@ + format_title(m.format) + ", architecture: "@ + or_unknown(
        opt_view(m.architecture),
    ) + ")"@;
    if decisions.len() == 0 {
        "no runtime candidates for model '"@ + model
    } else {
        "no available runtime for model '"@ + model + "; tried: "@ + joined(
            decisions_told(decisions),
            "; "@,
        )
    }
}

pub fn format_runtime_plan_error(manifest: &ModelManifest, decisions: &Vec<RuntimeDecision>) -> (r:
    String)
    ensures
        r@ == plan_error_text(*manifest, decisions@),
{
    let architecture = crate::estimate_report::text_or_unknown(&manifest.architecture);
    let mut model = join5(
        manifest.id.as_str(),
        "' (",
        format_debug_name(manifest.format),
        ", architecture: ",
        architecture.as_str(),
    );
    model.push_str(")");
    if decisions.len() == 0 {
        return join2("no runtime candidates for model '", model.as_str());
    }
    let mut told: Vec<String> = Vec::new();
    let mut i: usize = 0;
    while i < decisions.len()
        invariant
            i <= decisions@.len(),
            told@.len() == i,
            forall|j: int|
                0 <= j < i ==> (#[trigger] told@[j])@ == decisions@[j].display_name@ + ": "@
                    + decisions@[j].reason@,
        decreases decisions@.len() - i,
    {
        let d = &decisions[i];
        told.push(join3(d.display_name.as_str(), ": ", d.reason.as_str()));
        i = i + 1;
    }
    assert(views(told@) =~= decisions_told(decisions@));
    let tried = join_strings(&told, "; ");
    let mut r = join3("no available runtime for model '", model.as_str(), "; tried: ");
    r.push_str(tried.as_str());
    r
}

/// What the planner came to: a runtime and its name, or its decisions.
#[derive(Debug)]
pub enum PlanOutcome {
    Selected(RuntimeId, String),
    Nothing(Vec<RuntimeDecision>),
}

pub open spec fn planned_backend(m: ModelManifest, outcome: PlanOutcome) -> Result<
    BackendChoice,
    Seq<char>,
> {
    match outcome {
        PlanOutcome::Selected(id, name) => match backend_of_runtime(id) {
            Some(backend) => Ok(backend),
            None => Err("selected runtime "@ + name@ + " has no executable backend yet"@),
        },
        PlanOutcome::Nothing(decisions) => Err(plan_error_text(m, decisions@)),
    }
}

pub fn select_backend_with_planner(manifest: &ModelManifest, outcome: &PlanOutcome) -> (r: Result<
    BackendChoice,
    String,
>)
    ensures
        choice_view(r) == planned_backend(*manifest, *outcome),
{
    match outcome {
        PlanOutcome::Selected(id, name) => match runtime_id_to_backend(*id) {
            Some(backend) => Ok(backend),
            None => Err(
                join3("selected runtime ", name.as_str(), " has no executable backend yet"),
            ),
        },
        PlanOutcome::Nothing(decisions) => Err(format_runtime_plan_error(manifest, decisions)),
    }
}

pub open spec fn text_only_message(backend: BackendChoice) -> Seq<char> {
    "Image input requires a VLM-capable backend. Current backend "@ + backend_title(backend)
        + " is text-only. Try --backend mlx with a compatible VLM model."@
}

/// Images need a backend that takes them.
pub fn ensure_backend_supports_images(
    backend: BackendChoice,
    supports_images: bool,
    has_images: bool,
) -> (r: Result<(), String>)
    ensures
        r is Err <==> has_images && !supports_images,
        r matches Err(message) ==> message@ == text_only_message(backend),
{
    if !has_images || supports_images {
        return Ok(());
    }
    Err(
        join3(
            "Image input requires a VLM-capable backend. Current backend ",
            verbose_backend_label(backend),
            " is text-only. Try --backend mlx with a compatible VLM model.",
        ),
    )
}

/// What the in-process llama.cpp backends are taken or refused by. `mode_label`
/// is the name of the variant.
#[derive(Debug)]
pub struct DirectFacts {
    pub supports_format: bool,
    pub supports_accelerator: bool,
    pub supports_images: bool,
    pub unavailable: bool,
    pub mode_label: String,
}

pub open spec fn direct_backend(
    backend: BackendChoice,
    m: ModelManifest,
    has_images: bool,
    facts: DirectFacts,
    host: Host,
) -> Result<BackendChoice, Seq<char>> {
    if !(facts.supports_format && facts.supports_accelerator) {
        Err(unsupported_text(backend, m, facts.mode_label@))
    } else if has_images && !facts.supports_images {
        Err(text_only_message(backend))
    } else if facts.unavailable {
        Err(unavailable_text(backend, m, ""@, facts.mode_label@, host))
    } else {
        Ok(backend)
    }
}

/// A family supports GGUF and safetensors; a concrete backend what its software
/// does on its accelerator.
pub fn backend_supports_manifest(
    backend: BackendChoice,
    format: ModelFormat,
    supports_format: bool,
    supports_accelerator: bool,
) -> (r: bool)
    ensures
        r == match backend {
            BackendChoice::Auto => false,
            BackendChoice::GgufPreferred { .. } => format is Gguf || format is SafeTensors,
            _ => supports_format && supports_accelerator,
        },
{
    match backend {
        BackendChoice::Auto => false,
        BackendChoice::GgufPreferred { .. } => format == ModelFormat::Gguf || format
            == ModelFormat::SafeTensors,
        _ => supports_format && supports_accelerator,
    }
}

/// Everything outside that a selection rests on: what the planner says to the
/// request and to the same request with tool calls, what is known of the candidates
/// of the route, and what the direct backends meet.
#[derive(Debug)]
pub struct SelectionFacts {
    pub plan: PlanOutcome,
    pub plan_with_tools: PlanOutcome,
    pub candidates: Vec<RuntimeFacts>,
    pub direct: DirectFacts,
    pub vllm_supports_images: bool,
}

pub open spec fn sees(all: Seq<RuntimeFacts>, backend: BackendChoice) -> bool {
    exists|i: int|
        0 <= i < all.len() && backend_of_runtime((#[trigger] all[i]).id) == Some(backend)
            && all[i].supports_images
}

/// The backend of a request. Tool calls count where the planner decides.
pub open spec fn selected(
    backend: BackendChoice,
    m: ModelManifest,
    has_images: bool,
    tool_calling: bool,
    facts: SelectionFacts,
    host: Host,
) -> Result<BackendChoice, Seq<char>> {
    if has_images && !m.metadata.tasks@.contains(InferenceTask::ImageUnderstanding) {
        Err(
            "model '"@ + m.id@
                + "' does not advertise image-understanding; select a vision-language model"@,
        )
    } else {
        match route_of(backend, has_images) {
            RouteView::Planner(_) => planned_backend(
                m,
                if tool_calling {
                    facts.plan_with_tools
                } else {
                    facts.plan
                },
            ),
            RouteView::Candidates(_) => match chosen_backend(
                facts.candidates@,
                has_images,
                facts.vllm_supports_images,
                m,
                host,
            ) {
                Ok(found) => if has_images && !sees(facts.candidates@, found) {
                    Err(text_only_message(found))
                } else {
                    Ok(found)
                },
                Err(message) => Err(message),
            },
            RouteView::Direct(direct) => direct_backend(direct, m, has_images, facts.direct, host),
        }
    }
}

fn some_candidate_sees(candidates: &Vec<RuntimeFacts>, backend: BackendChoice) -> (r: bool)
    ensures
        r == sees(candidates@, backend),
{
    let mut i: usize = 0;
    while i < candidates.len()
        invariant
            i <= candidates@.len(),
            forall|j: int|
                0 <= j < i ==> !(backend_of_runtime((#[trigger] candidates@[j]).id) == Some(backend)
                    && candidates@[j].supports_images),
        decreases candidates@.len() - i,
    {
        if let Some(found) = runtime_id_to_backend(candidates[i].id) {
            if found == backend && candidates[i].supports_images {
                return true;
            }
        }
        i = i + 1;
    }
    false
}

/// Selects the backend of a request. `facts` holds what is known of the route
/// that `selection_route` gives; `tool_calling` is a matter for the planner.
pub fn selected_backend_for_request_with_tools(
    backend: BackendChoice,
    manifest: &ModelManifest,
    has_images: bool,
    tool_calling: bool,
    facts: &SelectionFacts,
    host: Host,
) -> (r: Result<BackendChoice, String>)
    ensures
        choice_view(r) == selected(backend, *manifest, has_images, tool_calling, *facts, host),
{
    if has_images && !has_task(&manifest.metadata.tasks, InferenceTask::ImageUnderstanding) {
        return Err(
            join3(
                "model '",
                manifest.id.as_str(),
                "' does not advertise image-understanding; select a vision-language model",
            ),
        );
    }
    let capabilities = RequestCapabilities { tool_calling, ..request_capabilities(has_images) };
    match selection_route(backend, has_images) {
        SelectionRoute::Planner(_) => {
            if tool_calling {
                select_backend_with_planner(manifest, &facts.plan_with_tools)
            } else {
                select_backend_with_planner(manifest, &facts.plan)
            }
        },
        SelectionRoute::Candidates(_) => {
            match select_backend_from_runtime_candidates(
                &facts.candidates,
                manifest,
                capabilities,
                facts.vllm_supports_images,
                host,
            ) {
                Ok(found) => {
                    let supports = some_candidate_sees(&facts.candidates, found);
                    match ensure_backend_supports_images(found, supports, has_images) {
                        Ok(()) => Ok(found),
                        Err(message) => Err(message),
                    }
                },
                Err(message) => Err(message),
            }
        },
        SelectionRoute::Direct(direct) => {
            if !(facts.direct.supports_format && facts.direct.supports_accelerator) {
                return Err(
                    unsupported_backend_message(
                        direct,
                        manifest,
                        facts.direct.mode_label.as_str(),
                    ),
                );
            }
            match ensure_backend_supports_images(
                direct,
                facts.direct.supports_images,
                has_images,
            ) {
                Ok(()) => {},
                Err(message) => {
                    return Err(message);
                },
            }
            if facts.direct.unavailable {
                return Err(
                    unavailable_backend_message(
                        direct,
                        manifest,
                        "",
                        facts.direct.mode_label.as_str(),
                        host,
                    ),
                );
            }
            Ok(direct)
        },
    }
}

pub fn selected_backend_for_request(
    backend: BackendChoice,
    manifest: &ModelManifest,
    has_images: bool,
    facts: &SelectionFacts,
    host: Host,
) -> (r: Result<BackendChoice, String>)
    ensures
        choice_view(r) == selected(backend, *manifest, has_images, false, *facts, host),
{
    selected_backend_for_request_with_tools(backend, manifest, has_images, false, facts, host)
}

/// Selects the backend of a request without images.
pub fn selected_backend_for_manifest(
    backend: BackendChoice,
    manifest: &ModelManifest,
    facts: &SelectionFacts,
    host: Host,
) -> (r: Result<BackendChoice, String>)
    ensures
        choice_view(r) == selected(backend, *manifest, false, false, *facts, host),
{
    selected_backend_for_request(backend, manifest, false, facts, host)
}

/// `facts` describe exactly these runtimes.
pub open spec fn describe(facts: Seq<RuntimeFacts>, ids: Seq<RuntimeId>) -> bool {
    facts.map_values(|f: RuntimeFacts| f.id) == ids
}

/// A backend that is named outright is used or refused, never replaced. The one
/// exception is MLX with images, which may turn into MLX-VLM.
pub proof fn explicit_backends_are_never_replaced(
    backend: BackendChoice,
    m: ModelManifest,
    has_images: bool,
    tool_calling: bool,
    facts: SelectionFacts,
    host: Host,
)
    requires
        !(route_of(backend, has_images) is Planner),
        route_of(backend, has_images) matches RouteView::Candidates(ids) ==> describe(
            facts.candidates@,
            ids,
        ),
    ensures
        selected(backend, m, has_images, tool_calling, facts, host) matches Ok(found) ==> found
            == backend || (backend is Mlx && has_images && found is MlxVlm),
{
    let all = facts.candidates@;
    only_candidates_are_chosen(all, has_images, facts.vllm_supports_images, m, host);
    if let RouteView::Candidates(ids) = route_of(backend, has_images) {
        assert(all.map_values(|f: RuntimeFacts| f.id) == ids);
        assert(all.len() == ids.len());
        if let Ok(found) = chosen_backend(
            all,
            has_images,
            facts.vllm_supports_images,
            m,
            host,
        ) {
            let i = choose|i: int|
                0 <= i < all.len() && backend_of_runtime((#[trigger] all[i]).id) == Some(found);
            assert(all.map_values(|f: RuntimeFacts| f.id)[i] == all[i].id);
            assert(ids[i] == all[i].id);
            crate::backend::runtimes_and_backends_match(ids[i], backend);
        }
    }
}

/// Images are never sent to a model that does not claim to see.
pub proof fn blind_models_get_no_images(
    backend: BackendChoice,
    m: ModelManifest,
    tool_calling: bool,
    facts: SelectionFacts,
    host: Host,
)
    requires
        !m.metadata.tasks@.contains(InferenceTask::ImageUnderstanding),
    ensures
        selected(backend, m, true, tool_calling, facts, host) is Err,
{
}

/// Where the planner is not asked, tool calls change nothing in the selection.
pub proof fn tool_calls_matter_to_the_planner_alone(
    backend: BackendChoice,
    m: ModelManifest,
    has_images: bool,
    facts: SelectionFacts,
    host: Host,
)
    requires
        !(route_of(backend, has_images) is Planner),
    ensures
        selected(backend, m, has_images, true, facts, host) == selected(
            backend,
            m,
            has_images,
            false,
            facts,
            host,
        ),
{
}

/// A model runs on the CPU family as a family, so that its server and its
/// fallback share the request; any other backend is built as selected.
pub fn backend_to_build_for_request(
    requested: BackendChoice,
    selected_backend: BackendChoice,
    format: ModelFormat,
) -> (r: BackendChoice)
    ensures
        r == if (requested matches BackendChoice::GgufPreferred { llama, .. } && llama is Cpu)
            && format is Gguf {
            requested
        } else {
            selected_backend
        },
{
    match requested {
        BackendChoice::GgufPreferred { llama, .. } => if llama == LlamaCppMode::Cpu && format
            == ModelFormat::Gguf {
            requested
        } else {
            selected_backend
        },
        _ => selected_backend,
    }
}

// ---------------------------------------------------------------------------
// Messages
// ---------------------------------------------------------------------------

/// Why a backend is unavailable for a model, at length. `backend_message` is
/// what the backend itself says, `mode_label` the name of its variant.
pub open spec fn unavailable_text(
    backend: BackendChoice,
    m: ModelManifest,
    backend_message: Seq<char>,
    mode_label: Seq<char>,
    host: Host,
) -> Seq<char> {
    match (backend, m.format) {
        (BackendChoice::Candle(CandleDeviceMode::Cuda), ModelFormat::SafeTensors) =>
            candle_cuda_message(host),
        (BackendChoice::Candle(CandleDeviceMode::Metal), ModelFormat::SafeTensors) =>
            "Metal backend requested for safetensors model, but Candle Metal is unavailable. Build with Metal support on macOS or choose --backend cpu."@,
        (BackendChoice::Burn(_), ModelFormat::SafeTensors) => backend_message,
        (BackendChoice::LlamaServer(_), ModelFormat::Gguf) => backend_message,
        (BackendChoice::OnnxRuntime(_), ModelFormat::SafeTensors) => backend_message,
        (BackendChoice::OnnxRuntime(_), ModelFormat::Onnx) => backend_message,
        (BackendChoice::Vllm, ModelFormat::SafeTensors) => backend_message,
        (BackendChoice::VllmRocm, ModelFormat::SafeTensors) => backend_message,
        (BackendChoice::Mlx, _) => "mlx-lm is unavailable"@,
        (BackendChoice::MlxVlm, _) =>
            "mlx-vlm is unavailable; install with `python3 -m pip install mlx-vlm`"@,
        (BackendChoice::TransformersCompat, ModelFormat::SafeTensors) => backend_message,
        _ => "backend "@ + backend_name(backend, mode_label) + " is unavailable for model '"@
            + m.id@ + "' with format "@ + format_title(m.format),
    }
}

pub fn unavailable_backend_message(
    backend: BackendChoice,
    manifest: &ModelManifest,
    backend_message: &str,
    mode_label: &str,
    host: Host,
) -> (r: String)
    ensures
        r@ == unavailable_text(backend, *manifest, backend_message@, mode_label@, host),
{
    match (backend, manifest.format) {
        (BackendChoice::Candle(CandleDeviceMode::Cuda), ModelFormat::SafeTensors) =>
            candle_cuda_unavailable_message(host),
        (BackendChoice::Candle(CandleDeviceMode::Metal), ModelFormat::SafeTensors) =>
            "Metal backend requested for safetensors model, but Candle Metal is unavailable. Build with Metal support on macOS or choose --backend cpu.".to_owned(),
        (BackendChoice::Burn(_), ModelFormat::SafeTensors) => backend_message.to_owned(),
        (BackendChoice::LlamaServer(_), ModelFormat::Gguf) => backend_message.to_owned(),
        (BackendChoice::OnnxRuntime(_), ModelFormat::SafeTensors) => backend_message.to_owned(),
        (BackendChoice::OnnxRuntime(_), ModelFormat::Onnx) => backend_message.to_owned(),
        (BackendChoice::Vllm, ModelFormat::SafeTensors) => backend_message.to_owned(),
        (BackendChoice::VllmRocm, ModelFormat::SafeTensors) => backend_message.to_owned(),
        (BackendChoice::Mlx, _) => "mlx-lm is unavailable".to_owned(),
        (BackendChoice::MlxVlm, _) =>
            "mlx-vlm is unavailable; install with `python3 -m pip install mlx-vlm`".to_owned(),
        (BackendChoice::TransformersCompat, ModelFormat::SafeTensors) => backend_message.to_owned(),
        _ => {
            let mut r = join5(
                "backend ",
                backend_label(backend, mode_label),
                " is unavailable for model '",
                manifest.id.as_str(),
                "' with format ",
            );
            r.push_str(format_debug_name(manifest.format));
            r
        },
    }
}

pub open spec fn vulkan_only_gguf() -> Seq<char> {
    "Vulkan backend currently supports GGUF through llama.cpp server only. Safetensors Vulkan execution is not implemented."@
}

/// Why a backend does not support a model.
pub open spec fn unsupported_text(
    backend: BackendChoice,
    m: ModelManifest,
    mode_label: Seq<char>,
) -> Seq<char> {
    let model_is = m.id@ + "' is "@ + format_title(m.format);
    match (backend, m.format) {
        (BackendChoice::LlamaServer(LlamaCppMode::Vulkan), ModelFormat::SafeTensors) =>
            vulkan_only_gguf(),
        (
            BackendChoice::GgufPreferred { llama: LlamaCppMode::Vulkan, .. },
            ModelFormat::SafeTensors,
        ) => vulkan_only_gguf(),
        (BackendChoice::LlamaServer(_), _) =>
            "llama.cpp server backend supports GGUF only; model '"@ + model_is,
        (BackendChoice::LlamaFast(_), _) =>
            "llama.cpp legacy backends support GGUF only; model '"@ + model_is,
        (BackendChoice::LlamaHighlevel(_), _) =>
            "llama.cpp legacy backends support GGUF only; model '"@ + model_is,
        (BackendChoice::Mlx, ModelFormat::Gguf) =>
            "MLX backend does not support GGUF; use --backend cuda, --backend vulkan, or --backend cpu for llama.cpp server"@,
        (BackendChoice::Burn(_), ModelFormat::Gguf) =>
            "Burn backend supports safetensors models only; use --backend cuda, --backend vulkan, or --backend cpu for GGUF llama.cpp server"@,
        (BackendChoice::OnnxRuntime(_), ModelFormat::Gguf) =>
            "ONNX Runtime backend supports safetensors models with managed ONNX artifacts; use --backend cuda, --backend vulkan, or --backend cpu for GGUF llama.cpp server"@,
        (_, ModelFormat::Onnx) =>
            "Direct ONNX model import is catalog-only for now; install a safetensors model and build managed ONNX artifacts with `werk artifacts build <model>`."@,
        (BackendChoice::TransformersCompat, _) =>
            "Transformers compatibility backend supports raw ChatGLM/GLM Hugging Face safetensors models only"@,
        (_, ModelFormat::PyTorch) =>
            "PyTorch generation is pending; PyTorch backend is not implemented yet"@,
        (_, ModelFormat::TensorRt) =>
            "TensorRT generation is pending; TensorRT backend is not implemented yet"@,
        (_, ModelFormat::OpenVino) =>
            "OpenVINO generation is pending; OpenVINO backend is not implemented yet"@,
        (_, ModelFormat::CoreMl) =>
            "CoreML generation is pending; CoreML backend is not implemented yet"@,
        (_, ModelFormat::TensorFlow) =>
            "TensorFlow generation is pending; TensorFlow backend is not implemented yet"@,
        _ => "backend "@ + backend_name(backend, mode_label) + " does not support model '"@ + m.id@
            + "' with format "@ + format_title(m.format),
    }
}

fn model_is(prefix: &str, manifest: &ModelManifest) -> (r: String)
    ensures
        r@ == prefix@ + (manifest.id@ + "' is "@ + format_title(manifest.format)),
{
    let model = join3(manifest.id.as_str(), "' is ", format_debug_name(manifest.format));
    join2(prefix, model.as_str())
}

pub fn unsupported_backend_message(
    backend: BackendChoice,
    manifest: &ModelManifest,
    mode_label: &str,
) -> (r: String)
    ensures
        r@ == unsupported_text(backend, *manifest, mode_label@),
{
    match (backend, manifest.format) {
        (BackendChoice::LlamaServer(LlamaCppMode::Vulkan), ModelFormat::SafeTensors) =>
            "Vulkan backend currently supports GGUF through llama.cpp server only. Safetensors Vulkan execution is not implemented.".to_owned(),
        (
            BackendChoice::GgufPreferred { llama: LlamaCppMode::Vulkan, .. },
            ModelFormat::SafeTensors,
        ) =>
            "Vulkan backend currently supports GGUF through llama.cpp server only. Safetensors Vulkan execution is not implemented.".to_owned(),
        (BackendChoice::LlamaServer(_), _) => model_is(
            "llama.cpp server backend supports GGUF only; model '",
            manifest,
        ),
        (BackendChoice::LlamaFast(_), _) => model_is(
            "llama.cpp legacy backends support GGUF only; model '",
            manifest,
        ),
        (BackendChoice::LlamaHighlevel(_), _) => model_is(
            "llama.cpp legacy backends support GGUF only; model '",
            manifest,
        ),
        (BackendChoice::Mlx, ModelFormat::Gguf) =>
            "MLX backend does not support GGUF; use --backend cuda, --backend vulkan, or --backend cpu for llama.cpp server".to_owned(),
        (BackendChoice::Burn(_), ModelFormat::Gguf) =>
            "Burn backend supports safetensors models only; use --backend cuda, --backend vulkan, or --backend cpu for GGUF llama.cpp server".to_owned(),
        (BackendChoice::OnnxRuntime(_), ModelFormat::Gguf) =>
            "ONNX Runtime backend supports safetensors models with managed ONNX artifacts; use --backend cuda, --backend vulkan, or --backend cpu for GGUF llama.cpp server".to_owned(),
        (_, ModelFormat::Onnx) =>
            "Direct ONNX model import is catalog-only for now; install a safetensors model and build managed ONNX artifacts with `werk artifacts build <model>`.".to_owned(),
        (BackendChoice::TransformersCompat, _) =>
            "Transformers compatibility backend supports raw ChatGLM/GLM Hugging Face safetensors models only".to_owned(),
        (_, ModelFormat::PyTorch) =>
            "PyTorch generation is pending; PyTorch backend is not implemented yet".to_owned(),
        (_, ModelFormat::TensorRt) =>
            "TensorRT generation is pending; TensorRT backend is not implemented yet".to_owned(),
        (_, ModelFormat::OpenVino) =>
            "OpenVINO generation is pending; OpenVINO backend is not implemented yet".to_owned(),
        (_, ModelFormat::CoreMl) =>
            "CoreML generation is pending; CoreML backend is not implemented yet".to_owned(),
        (_, ModelFormat::TensorFlow) =>
            "TensorFlow generation is pending; TensorFlow backend is not implemented yet".to_owned(),
        _ => {
            let mut r = join5(
                "backend ",
                backend_label(backend, mode_label),
                " does not support model '",
                manifest.id.as_str(),
                "' with format ",
            );
            r.push_str(format_debug_name(manifest.format));
            r
        },
    }
}

// ---------------------------------------------------------------------------
// Readiness
// ---------------------------------------------------------------------------

pub open spec fn image_readiness(
    m: ModelManifest,
    found: Result<BackendChoice, Seq<char>>,
    mode_label: Seq<char>,
) -> ReadinessView {
    if !m.metadata.tasks@.contains(InferenceTask::ImageUnderstanding) {
        plain_readiness(
            TaskReadinessStatus::Unavailable,
            "model '"@ + m.id@ + "' does not advertise image-understanding"@,
            None,
        )
    } else {
        match found {
            Ok(backend) => plain_readiness(
                TaskReadinessStatus::Available,
                "image understanding is routable through "@ + backend_title(backend)
                    + " without loading model weights during capability discovery"@,
                Some(backend_name(backend, mode_label)),
            ),
            Err(message) => plain_readiness(
                TaskReadinessStatus::Unavailable,
                compacted(message),
                None,
            ),
        }
    }
}

/// Whether a model can be shown images, by what selecting a backend without
/// installing anything came to.
pub fn generation_backend_task_readiness(
    manifest: &ModelManifest,
    found: Result<BackendChoice, String>,
    mode_label: &str,
) -> (r: TaskReadiness)
    ensures
        r@ == image_readiness(*manifest, choice_view(found), mode_label@),
{
    if !has_task(&manifest.metadata.tasks, InferenceTask::ImageUnderstanding) {
        return TaskReadiness::plain(
            TaskReadinessStatus::Unavailable,
            join3(
                "model '",
                manifest.id.as_str(),
                "' does not advertise image-understanding",
            ),
            None,
        );
    }
    match found {
        Ok(backend) => TaskReadiness::plain(
            TaskReadinessStatus::Available,
            join3(
                "image understanding is routable through ",
                verbose_backend_label(backend),
                " without loading model weights during capability discovery",
            ),
            Some(backend_label(backend, mode_label).to_owned()),
        ),
        Err(message) => TaskReadiness::plain(
            TaskReadinessStatus::Unavailable,
            compact_reason(message.as_str()),
            None,
        ),
    }
}

/// What a router answers when it is asked about a task: nothing but for images.
pub fn router_task_readiness(
    manifest: &ModelManifest,
    task: InferenceTask,
    found: Result<BackendChoice, String>,
    mode_label: &str,
) -> (r: Option<TaskReadiness>)
    ensures
        match r {
            Some(readiness) => task is ImageUnderstanding && readiness@ == image_readiness(
                *manifest,
                choice_view(found),
                mode_label@,
            ),
            None => !(task is ImageUnderstanding),
        },
{
    if task != InferenceTask::ImageUnderstanding {
        return None;
    }
    Some(generation_backend_task_readiness(manifest, found, mode_label))
}

/// Whom the vLLM router asks about a task.
#[derive(Debug)]
pub enum VllmReadiness {
    /// Nobody: it has nothing to say.
    Nothing,
    /// The backend that was selected.
    Ask(BackendChoice),
    /// There is none to ask.
    Known(TaskReadiness),
}

pub fn vllm_task_readiness(task: InferenceTask, found: Result<BackendChoice, String>) -> (r:
    VllmReadiness)
    ensures
        match r {
            VllmReadiness::Nothing => !(task is ImageUnderstanding),
            VllmReadiness::Ask(backend) => task is ImageUnderstanding && found
                == Ok::<BackendChoice, String>(backend),
            VllmReadiness::Known(readiness) => task is ImageUnderstanding && (found matches Err(
                message,
            ) && readiness@ == plain_readiness(
                TaskReadinessStatus::Unavailable,
                compacted(message@),
                None,
            )),
        },
{
    if task != InferenceTask::ImageUnderstanding {
        return VllmReadiness::Nothing;
    }
    match found {
        Ok(backend) => VllmReadiness::Ask(backend),
        Err(message) => VllmReadiness::Known(
            TaskReadiness::plain(
                TaskReadinessStatus::Unavailable,
                compact_reason(message.as_str()),
                None,
            ),
        ),
    }
}

/// Candle beside safetensors is a fallback, unless it was asked for.
pub open spec fn role_of(runtime: BackendRuntime, format: ModelFormat, requested: RequestedBackend) -> Seq<
    char,
> {
    if runtime is Candle && format is SafeTensors && !(requested is Candle) {
        "compatibility fallback"@
    } else {
        "primary runtime"@
    }
}

pub fn runtime_role(runtime: BackendRuntime, format: ModelFormat, requested: RequestedBackend) -> (r:
    &'static str)
    ensures
        r@ == role_of(runtime, format, requested),
{
    if runtime == BackendRuntime::Candle && format == ModelFormat::SafeTensors && requested
        != RequestedBackend::Candle {
        "compatibility fallback"
    } else {
        "primary runtime"
    }
}

/// Whether the user is told that vLLM would serve the model better.
pub fn candle_safetensors_cuda_fallback_warning(
    format: ModelFormat,
    requested: RequestedBackend,
    runtime_id: RuntimeId,
) -> (r: bool)
    ensures
        r == (format is SafeTensors && (requested is Auto || requested is Cuda) && runtime_id
            is CandleCuda),
{
    format == ModelFormat::SafeTensors && (requested == RequestedBackend::Auto || requested
        == RequestedBackend::Cuda) && runtime_id == RuntimeId::CandleCuda
}

// ---------------------------------------------------------------------------
// Routers
// ---------------------------------------------------------------------------

/// A model that only MLX-VLM loads.
pub open spec fn needs_mlx_vlm(m: ModelManifest) -> bool {
    m.metadata.tasks@.contains(InferenceTask::ImageUnderstanding) && (opt_view(
        m.architecture,
    ) matches Some(name) && lowered(name) == lowered("gemma4_unified"@))
}

pub fn manifest_requires_mlx_vlm(manifest: &ModelManifest) -> (r: bool)
    ensures
        r == needs_mlx_vlm(*manifest),
{
    if !has_task(&manifest.metadata.tasks, InferenceTask::ImageUnderstanding) {
        return false;
    }
    match &manifest.architecture {
        Some(name) => str_eq_ignore_case(name.as_str(), "gemma4_unified"),
        None => false,
    }
}

/// The two MLX backends behind the one name.
pub struct MlxPreferredBackend<B> {
    pub text_backend: B,
    pub vision_backend: B,
}

impl<B> MlxPreferredBackend<B> {
    pub fn with_backends(text_backend: B, vision_backend: B) -> (r: Self)
        ensures
            r.text_backend == text_backend,
            r.vision_backend == vision_backend,
    {
        MlxPreferredBackend { text_backend, vision_backend }
    }

    /// Images, and models that need it, go to the backend that sees.
    pub fn backend_for_request(&self, manifest: &ModelManifest, has_images: bool) -> (r: &B)
        ensures
            *r == if has_images || needs_mlx_vlm(*manifest) {
                self.vision_backend
            } else {
                self.text_backend
            },
    {
        if has_images || manifest_requires_mlx_vlm(manifest) {
            &self.vision_backend
        } else {
            &self.text_backend
        }
    }

    /// Only the backend that sees is asked about images.
    pub fn task_readiness(&self, task: InferenceTask) -> (r: &B)
        ensures
            *r == if task is ImageUnderstanding {
                self.vision_backend
            } else {
                self.text_backend
            },
    {
        if task == InferenceTask::ImageUnderstanding {
            &self.vision_backend
        } else {
            &self.text_backend
        }
    }
}

/// The two vLLM backends behind the one name.
pub struct VllmPreferredBackend<B> {
    pub cuda_backend: B,
    pub rocm_backend: B,
}

impl<B> VllmPreferredBackend<B> {
    pub fn with_backends(cuda_backend: B, rocm_backend: B) -> (r: Self)
        ensures
            r.cuda_backend == cuda_backend,
            r.rocm_backend == rocm_backend,
    {
        VllmPreferredBackend { cuda_backend, rocm_backend }
    }

    /// The backend of a selection; anything but vLLM is refused.
    pub fn backend_for_request(&self, found: BackendChoice, mode_label: &str) -> (r: Result<
        &B,
        String,
    >)
        ensures
            match r {
                Ok(backend) => (found is Vllm && *backend == self.cuda_backend) || (found
                    is VllmRocm && *backend == self.rocm_backend),
                Err(message) => !(found is Vllm) && !(found is VllmRocm) && message@
                    == "explicit vLLM routing selected incompatible backend "@ + backend_name(
                    found,
                    mode_label@,
                ),
            },
    {
        match found {
            BackendChoice::Vllm => Ok(&self.cuda_backend),
            BackendChoice::VllmRocm => Ok(&self.rocm_backend),
            _ => Err(
                join2(
                    "explicit vLLM routing selected incompatible backend ",
                    backend_label(found, mode_label),
                ),
            ),
        }
    }
}

/// Whether a backend that chooses among others calls tools. `chosen` says it of the
/// backend that is chosen for tool calls, or why there is none. vLLM has no others
/// than its own kind, which all do, whether they are ready or not.
pub fn router_supports_tool_calling(requested: BackendChoice, chosen: &Result<bool, String>) -> (r:
    bool)
    ensures
        r == (requested is Vllm || (chosen matches Ok(supports) && *supports)),
{
    if requested == BackendChoice::Vllm {
        return true;
    }
    match chosen {
        Ok(supports) => *supports,
        Err(_) => false,
    }
}

/// Backends that were built, by their names.
pub struct BackendCache<B> {
    entries: Vec<(String, B)>,
}

impl<B> BackendCache<B> {
    /// The backend under each name.
    pub closed spec fn view(&self) -> Map<Seq<char>, B> {
        cached(self.entries@)
    }

    pub fn new() -> (r: Self)
        ensures
            r@ == Map::<Seq<char>, B>::empty(),
    {
        BackendCache { entries: Vec::new() }
    }

    /// The backend under a name.
    pub fn get(&self, name: &str) -> (r: Option<&B>)
        ensures
            match r {
                Some(backend) => self@.dom().contains(name@) && self@[name@] == *backend,
                None => !self@.dom().contains(name@),
            },
    {
        let mut n: usize = self.entries.len();
        assert(self.entries@.take(n as int) =~= self.entries@);
        while n > 0
            invariant
                n <= self.entries@.len(),
                cached(self.entries@).dom().contains(name@) == cached(
                    self.entries@.take(n as int),
                ).dom().contains(name@),
                cached(self.entries@).dom().contains(name@) ==> cached(self.entries@)[name@]
                    == cached(self.entries@.take(n as int))[name@],
            decreases n,
        {
            assert(self.entries@.take(n as int).drop_last() =~= self.entries@.take(n - 1));
            if str_eq(self.entries[n - 1].0.as_str(), name) {
                return Some(&self.entries[n - 1].1);
            }
            n = n - 1;
        }
        None
    }

    /// Keeps a backend under a name.
    pub fn insert(&mut self, name: &str, backend: B)
        ensures
            final(self)@ == old(self)@.insert(name@, backend),
    {
        let ghost before = self.entries@;
        self.entries.push((name.to_owned(), backend));
        assert(self.entries@.drop_last() =~= before);
    }
}

/// What a router does with the backend that was selected.
pub enum CachedBackend<'a, B> {
    /// It was built before.
    Have(&'a B),
    /// It has to be built, and kept under its name.
    Build(BuiltBackend),
}

impl<B> BackendCache<B> {
    /// A backend is built once for its name.
    pub fn cached_backend(&self, backend: BackendChoice, mode_label: &str) -> (r: Result<
        CachedBackend<B>,
        String,
    >)
        ensures
            ({
                let name = backend_name(backend, mode_label@);
                match r {
                    Ok(CachedBackend::Have(kept)) => self@.dom().contains(name) && self@[name]
                        == *kept,
                    Ok(CachedBackend::Build(built)) => !self@.dom().contains(name)
                        && concrete_backend(backend) == Some(built),
                    Err(message) => !self@.dom().contains(name) && concrete_backend(backend)
                        is None && message@ == "auto backend cannot be built as a concrete backend"@,
                }
            }),
    {
        if let Some(kept) = self.get(backend_label(backend, mode_label)) {
            return Ok(CachedBackend::Have(kept));
        }
        match build_concrete_backend(backend) {
            Ok(built) => Ok(CachedBackend::Build(built)),
            Err(message) => Err(message),
        }
    }
}

pub open spec fn cached<B>(entries: Seq<(String, B)>) -> Map<Seq<char>, B>
    decreases entries.len(),
{
    if entries.len() == 0 {
        Map::empty()
    } else {
        cached(entries.drop_last()).insert(entries.last().0@, entries.last().1)
    }
}

/// The family that a server and its fallback stand for.
pub fn preferred_family(gguf_backend: BackendChoice, fallback_backend: BackendChoice) -> (r:
    BackendChoice)
    ensures
        r == match (gguf_backend, fallback_backend) {
            (BackendChoice::LlamaServer(llama), BackendChoice::Candle(candle)) =>
                (BackendChoice::GgufPreferred { llama, candle }),
            _ => gguf_backend,
        },
{
    match (gguf_backend, fallback_backend) {
        (BackendChoice::LlamaServer(llama), BackendChoice::Candle(candle)) =>
            BackendChoice::GgufPreferred { llama, candle },
        _ => gguf_backend,
    }
}

/// What is built to generate with.
#[derive(Clone, Copy, Debug, PartialEq, Eq, Structural)]
pub enum BuiltBackend {
    /// Chooses for each request among all backends.
    AutoRouter,
    /// Chooses between the two MLX backends.
    MlxRouter,
    /// Chooses between the two vLLM backends.
    VllmRouter,
    /// Chooses among the backends of a family.
    GgufRouter { llama: LlamaCppMode, candle: CandleDeviceMode },
    /// This one.
    Concrete(BackendChoice),
}

/// The concrete backend of a choice; the automatic choice has none.
pub open spec fn concrete_backend(backend: BackendChoice) -> Option<BuiltBackend> {
    match backend {
        BackendChoice::Auto => None,
        BackendChoice::GgufPreferred { llama, candle } => Some(
            BuiltBackend::GgufRouter { llama, candle },
        ),
        _ => Some(BuiltBackend::Concrete(backend)),
    }
}

pub fn build_concrete_backend(backend: BackendChoice) -> (r: Result<BuiltBackend, String>)
    ensures
        match r {
            Ok(built) => concrete_backend(backend) == Some(built),
            Err(message) => concrete_backend(backend) is None && message@
                == "auto backend cannot be built as a concrete backend"@,
        },
{
    match backend {
        BackendChoice::Auto => Err("auto backend cannot be built as a concrete backend".to_owned()),
        BackendChoice::GgufPreferred { llama, candle } => Ok(
            BuiltBackend::GgufRouter { llama, candle },
        ),
        _ => Ok(BuiltBackend::Concrete(backend)),
    }
}

/// What is built for a choice. There is something for every one.
pub fn build_generation_backend(backend: BackendChoice) -> (r: Result<BuiltBackend, String>)
    ensures
        r == Ok::<BuiltBackend, String>(
            match backend {
                BackendChoice::Auto => BuiltBackend::AutoRouter,
                BackendChoice::Mlx => BuiltBackend::MlxRouter,
                BackendChoice::Vllm => BuiltBackend::VllmRouter,
                BackendChoice::GgufPreferred { llama, candle } => (BuiltBackend::GgufRouter {
                    llama,
                    candle,
                }),
                _ => BuiltBackend::Concrete(backend),
            },
        ),
{
    match backend {
        BackendChoice::Auto => Ok(BuiltBackend::AutoRouter),
        BackendChoice::Mlx => Ok(BuiltBackend::MlxRouter),
        BackendChoice::Vllm => Ok(BuiltBackend::VllmRouter),
        _ => build_concrete_backend(backend),
    }
}

// ---------------------------------------------------------------------------
// What a selection is for
// ---------------------------------------------------------------------------

/// A request names a backend of its own, which is looked for among candidates: no
/// family, no automatic device, and no llama.cpp in this process.
pub open spec fn is_explicit(backend: BackendChoice) -> bool {
    match backend {
        BackendChoice::Auto => false,
        BackendChoice::GgufPreferred { .. } => false,
        BackendChoice::Vllm => false,
        BackendChoice::Candle(mode) => !(mode is Auto),
        BackendChoice::LlamaFast(_) => false,
        BackendChoice::LlamaHighlevel(_) => false,
        _ => true,
    }
}

/// A candidate can answer a text request: it runs the model, is there, and is no
/// runtime for images or media alone.
pub open spec fn answers_text(c: RuntimeFacts) -> bool {
    c.supports_model && c.implemented && c.unavailable is None && !(c.id is MlxVlm) && !(c.id
        is MediaCompanionCuda) && !(c.id is MediaCompanionRocm) && !(c.id is MediaCompanionMetal)
        && !(c.id is MediaCompanionCpu)
}

/// A candidate can answer an image request: it runs the model, is there, and sees.
pub open spec fn answers_images(c: RuntimeFacts, vllm_sees: bool) -> bool {
    c.supports_model && c.implemented && c.unavailable is None && c.vision_language && (c.runtime
        is Vllm ==> vllm_sees) && !(c.id is MediaCompanionCuda) && !(c.id is MediaCompanionRocm)
        && !(c.id is MediaCompanionMetal) && !(c.id is MediaCompanionCpu)
}

/// An image request on an explicit backend goes to the first candidate that can
/// answer it, where the software of that candidate takes images, and is refused where
/// no candidate can answer it.
pub proof fn images_go_to_the_first_that_sees(
    backend: BackendChoice,
    m: ModelManifest,
    tool_calling: bool,
    facts: SelectionFacts,
    host: Host,
    i: int,
)
    requires
        is_explicit(backend),
        m.metadata.tasks@.contains(InferenceTask::ImageUnderstanding),
        0 <= i <= facts.candidates@.len(),
        forall|j: int|
            0 <= j < i ==> !answers_images(
                #[trigger] facts.candidates@[j],
                facts.vllm_supports_images,
            ),
        i < facts.candidates@.len() ==> answers_images(
            facts.candidates@[i],
            facts.vllm_supports_images,
        ) && facts.candidates@[i].supports_images,
    ensures
        i < facts.candidates@.len() ==> selected(backend, m, true, tool_calling, facts, host) == Ok::<
            BackendChoice,
            Seq<char>,
        >(backend_of_runtime(facts.candidates@[i].id)->0),
        i == facts.candidates@.len() ==> selected(backend, m, true, tool_calling, facts, host)
            is Err,
{
    let all = facts.candidates@;
    let alone = all.len() == 1;
    let sees_here = facts.vllm_supports_images;
    lemma_first_fit(all, true, sees_here, alone, m, host);
    assert forall|j: int| 0 <= j < all.len() implies (passed_over(
        #[trigger] all[j],
        true,
        sees_here,
        alone,
        m,
        host,
    ) is None <==> answers_images(all[j], sees_here)) by {}
    if let Some(f) = first_fit(all, true, sees_here, alone, m, host) {
        assert(answers_images(all[f], sees_here));
        if i < all.len() {
            assert(answers_images(all[i], sees_here));
            if i < f {
                assert(passed_over(all[i], true, sees_here, alone, m, host) is Some);
            }
            assert(f == i);
            assert(backend_of_runtime(all[i].id) == Some(backend_of_runtime(all[i].id)->0));
            assert(sees(all, backend_of_runtime(all[i].id)->0));
        }
    } else if i < all.len() {
        assert(passed_over(all[i], true, sees_here, alone, m, host) is Some);
    }
}

/// A text request on an explicit backend goes to the first candidate that can answer
/// it, and is refused where none can.
pub proof fn texts_go_to_the_first_that_is_there(
    backend: BackendChoice,
    m: ModelManifest,
    tool_calling: bool,
    facts: SelectionFacts,
    host: Host,
    i: int,
)
    requires
        is_explicit(backend),
        0 <= i <= facts.candidates@.len(),
        forall|j: int| 0 <= j < i ==> !answers_text(#[trigger] facts.candidates@[j]),
        i < facts.candidates@.len() ==> answers_text(facts.candidates@[i]),
    ensures
        i < facts.candidates@.len() ==> selected(backend, m, false, tool_calling, facts, host)
            == Ok::<BackendChoice, Seq<char>>(backend_of_runtime(facts.candidates@[i].id)->0),
        i == facts.candidates@.len() ==> selected(backend, m, false, tool_calling, facts, host)
            is Err,
{
    let all = facts.candidates@;
    let alone = all.len() == 1;
    let sees_here = facts.vllm_supports_images;
    lemma_first_fit(all, false, sees_here, alone, m, host);
    assert forall|j: int| 0 <= j < all.len() implies (passed_over(
        #[trigger] all[j],
        false,
        sees_here,
        alone,
        m,
        host,
    ) is None <==> answers_text(all[j])) by {}
    if let Some(f) = first_fit(all, false, sees_here, alone, m, host) {
        assert(answers_text(all[f]));
        if i < all.len() {
            if i < f {
                assert(passed_over(all[i], false, sees_here, alone, m, host) is Some);
            }
        }
    } else if i < all.len() {
        assert(passed_over(all[i], false, sees_here, alone, m, host) is Some);
    }
}

/// Where an image request on an explicit backend is answered, a candidate answers it
/// whose software takes images.
pub proof fn images_are_answered_by_those_who_see(
    backend: BackendChoice,
    m: ModelManifest,
    tool_calling: bool,
    facts: SelectionFacts,
    host: Host,
)
    requires
        is_explicit(backend),
    ensures
        selected(backend, m, true, tool_calling, facts, host) matches Ok(found) ==> exists|i: int|
            0 <= i < facts.candidates@.len() && backend_of_runtime(
                (#[trigger] facts.candidates@[i]).id,
            ) == Some(found) && facts.candidates@[i].supports_images,
{
    if let Ok(found) = selected(backend, m, true, tool_calling, facts, host) {
        assert(sees(facts.candidates@, found));
    }
}

/// Which candidates an explicit backend has: itself, and before MLX the runtime that
/// sees, where there are images.
pub proof fn explicit_backends_stand_for_themselves(backend: BackendChoice, has_images: bool)
    requires
        is_explicit(backend),
    ensures
        route_of(backend, has_images) matches RouteView::Candidates(ids) && ids.len() >= 1
            && backend_of_runtime(ids.last()) == Some(backend) && (ids.len() > 1 ==> has_images
            && ids.len() == 2 && backend_of_runtime(ids[0]) == Some(BackendChoice::MlxVlm)
            && backend is Mlx) && (backend is Mlx && has_images ==> ids.len() == 2),
{
}

/// What the planner selects is what is used, the one for tool calls where there are
/// any, for the families, for vLLM and for Candle on a device of its own choice.
pub proof fn planned_runtimes_are_used(
    backend: BackendChoice,
    m: ModelManifest,
    has_images: bool,
    tool_calling: bool,
    facts: SelectionFacts,
    host: Host,
)
    requires
        backend is Auto || backend is GgufPreferred || backend is Vllm || backend
            == BackendChoice::Candle(CandleDeviceMode::Auto),
        has_images ==> m.metadata.tasks@.contains(InferenceTask::ImageUnderstanding),
    ensures
        match if tool_calling {
            facts.plan_with_tools
        } else {
            facts.plan
        } {
            PlanOutcome::Selected(id, _) => match backend_of_runtime(id) {
                Some(found) => selected(backend, m, has_images, tool_calling, facts, host) == Ok::<
                    BackendChoice,
                    Seq<char>,
                >(found),
                None => selected(backend, m, has_images, tool_calling, facts, host) is Err,
            },
            PlanOutcome::Nothing(_) => selected(backend, m, has_images, tool_calling, facts, host)
                is Err,
        },
{
}

/// llama.cpp in this process is used exactly where it runs the model, is there, and
/// takes the images if there are any.
pub proof fn direct_backends_are_used_or_refused(
    backend: BackendChoice,
    m: ModelManifest,
    has_images: bool,
    tool_calling: bool,
    facts: SelectionFacts,
    host: Host,
)
    requires
        backend is LlamaFast || backend is LlamaHighlevel,
        has_images ==> m.metadata.tasks@.contains(InferenceTask::ImageUnderstanding),
    ensures
        selected(backend, m, has_images, tool_calling, facts, host) is Ok
            <==> facts.direct.supports_format && facts.direct.supports_accelerator
            && !facts.direct.unavailable && (has_images ==> facts.direct.supports_images),
        selected(backend, m, has_images, tool_calling, facts, host) matches Ok(found) ==> found
            == backend,
{
}

/// A request without images is answered as if the model could not see, and the one
/// with images is refused only there for want of sight: the model has to claim it.
pub proof fn sight_is_asked_of_image_requests_alone(
    backend: BackendChoice,
    m: ModelManifest,
    blind: ModelManifest,
    tool_calling: bool,
    facts: SelectionFacts,
    host: Host,
)
    requires
        blind.format == m.format,
    ensures
        selected(backend, m, false, tool_calling, facts, host) is Ok <==> selected(
            backend,
            blind,
            false,
            tool_calling,
            facts,
            host,
        ) is Ok,
{
    let all = facts.candidates@;
    let alone = all.len() == 1;
    let v = facts.vllm_supports_images;
    lemma_first_fit(all, false, v, alone, m, host);
    lemma_first_fit(all, false, v, alone, blind, host);
    assert forall|j: int| 0 <= j < all.len() implies (passed_over(
        #[trigger] all[j],
        false,
        v,
        alone,
        m,
        host,
    ) is None <==> passed_over(all[j], false, v, alone, blind, host) is None) by {}
}

/// A backend is unavailable exactly where its probe found something that it cannot do
/// without: a failure, or for Candle a tokenizer that it cannot read. A Metal server that
/// is missing may be installed first.
pub proof fn failed_probes_are_unavailable(
    backend: BackendChoice,
    probe: BackendProbe,
    options: SelectionOptions,
    host: Host,
)
    ensures
        ({
            let gone = unavailability(backend, probe, options, host) is Some;
            let failed = probe.error is Some;
            let rejected = probe.tokenizer_rejection is Some;
            &&& backend is Auto || backend is GgufPreferred ==> !gone
            &&& backend == BackendChoice::Candle(CandleDeviceMode::Auto) ==> !gone
            &&& backend == BackendChoice::Candle(CandleDeviceMode::Cpu) ==> gone == rejected
            &&& backend == BackendChoice::Candle(CandleDeviceMode::Cuda) || backend
                == BackendChoice::Candle(CandleDeviceMode::Metal) ==> gone == (rejected || failed)
            &&& backend is Mlx || backend is MlxVlm || backend is TransformersCompat || backend
                is Burn || backend is Vllm || backend is VllmRocm || backend is OnnxRuntime
                || backend is LlamaFast || backend is LlamaHighlevel ==> gone == failed
            &&& backend is LlamaServer && !(options.provision_missing_backends && host.macos
                && backend == BackendChoice::LlamaServer(LlamaCppMode::Metal)) ==> gone == failed
            &&& backend == BackendChoice::LlamaServer(LlamaCppMode::Metal) && host.macos
                && options.provision_missing_backends ==> gone == (failed && probe.install_error
                is Some)
        }),
        probe.tokenizer_rejection is Some && (backend matches BackendChoice::Candle(mode) && !(mode
            is Auto)) ==> unavailability(backend, probe, options, host) == Some(
            probe.tokenizer_rejection->0@,
        ),
        probe.error is Some && (backend is Vllm || backend is VllmRocm || backend is Burn || backend
            is TransformersCompat) ==> unavailability(backend, probe, options, host) == Some(
            probe.reason@,
        ),
{
}

/// A backend that is there for texts may still not be there for images: where its server
/// or the model's architecture cannot see.
pub proof fn images_ask_more_of_backends(
    backend: BackendChoice,
    unavailable: Option<Seq<char>>,
    images: ImageProbe,
    architecture: Option<Seq<char>>,
)
    ensures
        request_unavailability(backend, unavailable, false, images, architecture) == unavailable,
        unavailable is Some ==> request_unavailability(
            backend,
            unavailable,
            true,
            images,
            architecture,
        ) is Some,
        unavailable is None ==> (request_unavailability(
            backend,
            unavailable,
            true,
            images,
            architecture,
        ) is Some <==> (backend is LlamaServer && (images.model_error is Some || images.server_error
            is Some)) || ((backend is Vllm || backend is VllmRocm)
            && !images.vllm_supports_architecture)),
{
}

/// A runtime is available exactly where a backend runs it and nothing speaks against it.
pub proof fn runtimes_are_available_without_reasons(facts: AvailabilityFacts)
    ensures
        availability_of(facts).runtime_id == facts.runtime_id,
        availability_of(facts).available <==> availability_of(facts).reason is None,
        availability_of(facts).available <==> facts.reason is None
            && !(facts.runtime_id is MediaCompanionCuda) && !(facts.runtime_id
            is MediaCompanionRocm) && !(facts.runtime_id is MediaCompanionMetal) && !(
        facts.runtime_id is MediaCompanionCpu),
        backend_of_runtime(facts.runtime_id) is Some ==> availability_of(facts).reason == opt_view(
            facts.reason,
        ),
{
}

/// A runtime for ROCm is put among the candidates where the machine or its settings call
/// for one and the model can be run by it, once, and in no other case.
pub proof fn rocm_is_added_where_called_for(
    ids: Seq<RuntimeId>,
    requested: RequestedBackend,
    format: ModelFormat,
    signals: RocmSignals,
)
    ensures
        !ids.contains(RuntimeId::VllmRocm) ==> (with_rocm(ids, requested, format, signals).contains(
            RuntimeId::VllmRocm,
        ) <==> (requested is Vllm || requested is Auto) && format is SafeTensors && (
        signals.strix_halo || signals.vllm_configured) && signals.vllm_supports_model),
        !ids.contains(RuntimeId::LlamaServerRocm) ==> (with_rocm(
            ids,
            requested,
            format,
            signals,
        ).contains(RuntimeId::LlamaServerRocm) <==> requested is Auto && format is Gguf && (
        signals.strix_halo || signals.llama_configured)),
        !(format is Gguf) && !(format is SafeTensors) ==> with_rocm(
            ids,
            requested,
            format,
            signals,
        ) == ids,
        !signals.strix_halo && !signals.vllm_configured && !signals.llama_configured ==> with_rocm(
            ids,
            requested,
            format,
            signals,
        ) == ids,
        signals.strix_halo && with_rocm(ids, requested, format, signals) != ids ==> with_rocm(
            ids,
            requested,
            format,
            signals,
        )[0] == (if format is Gguf {
            RuntimeId::LlamaServerRocm
        } else {
            RuntimeId::VllmRocm
        }),
{
    let after = with_rocm(ids, requested, format, signals);
    lemma_rocm_position(ids);
    let at = if format is SafeTensors || signals.strix_halo {
        0
    } else {
        rocm_position(ids)
    };
    let vllm = ids.insert(0, RuntimeId::VllmRocm);
    let llama = ids.insert(at, RuntimeId::LlamaServerRocm);
    assert(vllm[0] == RuntimeId::VllmRocm);
    assert(llama[at] == RuntimeId::LlamaServerRocm);
    if after.contains(RuntimeId::LlamaServerRocm) && after == vllm {
        let k = choose|k: int| 0 <= k < after.len() && after[k] == RuntimeId::LlamaServerRocm;
        assert(ids[k - 1] == RuntimeId::LlamaServerRocm);
    }
    if after.contains(RuntimeId::VllmRocm) && after == llama {
        let k = choose|k: int| 0 <= k < after.len() && after[k] == RuntimeId::VllmRocm;
        if k < at {
            assert(ids[k] == RuntimeId::VllmRocm);
        } else {
            assert(ids[k - 1] == RuntimeId::VllmRocm);
        }
    }
}

/// What is shown as a candidate is what was asked for: the device of Candle, the runtime
/// of a backend, or what was planned.
pub proof fn asked_runtimes_are_candidates(
    requested: BackendChoice,
    planned: Seq<RuntimeId>,
    id: RuntimeId,
)
    ensures
        requested is Auto || requested is GgufPreferred || requested == BackendChoice::Candle(
            CandleDeviceMode::Auto,
        ) ==> debug_candidates(requested, planned) == planned,
        backend_of_runtime(id) is Some ==> debug_candidates(backend_of_runtime(id)->0, planned)
            == seq![id],
        requested is LlamaFast || requested is LlamaHighlevel ==> debug_candidates(
            requested,
            planned,
        ).len() == 0,
{
}

/// Images are understood by models that say so, where a backend was found for them.
pub proof fn image_readiness_is_what_was_found(
    m: ModelManifest,
    found: Result<BackendChoice, Seq<char>>,
    label: Seq<char>,
)
    ensures
        image_readiness(m, found, label).status is Available <==> found is Ok
            && m.metadata.tasks@.contains(InferenceTask::ImageUnderstanding),
        image_readiness(m, found, label).status is Available || image_readiness(
            m,
            found,
            label,
        ).status is Unavailable,
        image_readiness(m, found, label).status is Available ==> image_readiness(
            m,
            found,
            label,
        ).adapter == Some(backend_name(found->Ok_0, label)),
        image_readiness(m, found, label).status is Unavailable ==> image_readiness(
            m,
            found,
            label,
        ).adapter is None,
{
}

/// Candle stands in for other software where nobody asked for it; whatever else runs a
/// model is what is meant to.
pub proof fn candle_stands_in(
    runtime: BackendRuntime,
    format: ModelFormat,
    requested: RequestedBackend,
)
    ensures
        role_of(runtime, format, requested) == "compatibility fallback"@ <==> runtime is Candle
            && format is SafeTensors && !(requested is Candle),
        role_of(runtime, format, requested) == "compatibility fallback"@ || role_of(
            runtime,
            format,
            requested,
        ) == "primary runtime"@,
{
    reveal_strlit("compatibility fallback");
    reveal_strlit("primary runtime");
    assert("compatibility fallback"@.len() != "primary runtime"@.len());
}

/// A family of backends is run by a router over both of its kinds, any other backend by
/// itself, and none is built before one was chosen.
pub proof fn chosen_backends_are_built(backend: BackendChoice)
    ensures
        concrete_backend(backend) is None <==> backend is Auto,
        backend matches BackendChoice::GgufPreferred { llama, candle } ==> concrete_backend(backend)
            == Some(BuiltBackend::GgufRouter { llama, candle }),
        !(backend is Auto) && !(backend is GgufPreferred) ==> concrete_backend(backend) == Some(
            BuiltBackend::Concrete(backend),
        ),
{
}

/// The models that only MLX-VLM can run are those of one architecture that see.
pub proof fn unified_models_need_mlx_vlm(m: ModelManifest)
    ensures
        needs_mlx_vlm(m) ==> m.architecture is Some && m.metadata.tasks@.contains(
            InferenceTask::ImageUnderstanding,
        ),
        m.architecture is Some && m.architecture->0@ == "gemma4_unified"@ ==> (needs_mlx_vlm(m)
            <==> m.metadata.tasks@.contains(InferenceTask::ImageUnderstanding)),
        m.architecture is Some && lowered(m.architecture->0@) != lowered("gemma4_unified"@)
            ==> !needs_mlx_vlm(m),
{
}

/// The reason why a backend is not to be had names its own: the server's and the
/// companion's words where they were asked, and the model's name elsewhere.
pub proof fn unavailable_backends_say_why(
    m: ModelManifest,
    message: Seq<char>,
    label: Seq<char>,
    host: Host,
    mode: LlamaCppMode,
    onnx: crate::args::OnnxRuntimeMode,
)
    ensures
        m.format is Gguf ==> unavailable_text(
            BackendChoice::LlamaServer(mode),
            m,
            message,
            label,
            host,
        ) == message,
        m.format is SafeTensors || m.format is Onnx ==> unavailable_text(
            BackendChoice::OnnxRuntime(onnx),
            m,
            message,
            label,
            host,
        ) == message,
        m.format is SafeTensors ==> unavailable_text(BackendChoice::Vllm, m, message, label, host)
            == message && unavailable_text(BackendChoice::VllmRocm, m, message, label, host)
            == message && unavailable_text(
            BackendChoice::TransformersCompat,
            m,
            message,
            label,
            host,
        ) == message,
        "backend "@.is_prefix_of(
            unavailable_text(BackendChoice::LlamaFast(mode), m, message, label, host),
        ),
        unsupported_text(BackendChoice::LlamaServer(LlamaCppMode::Cuda), m, label)
            == "llama.cpp server backend supports GGUF only; model '"@ + (m.id@ + "' is "@
            + format_title(m.format)),
        unsupported_text(BackendChoice::LlamaFast(mode), m, label) == unsupported_text(
            BackendChoice::LlamaHighlevel(mode),
            m,
            label,
        ),
{
    let text = unavailable_text(BackendChoice::LlamaFast(mode), m, message, label, host);
    assert("backend "@ =~= text.take("backend "@.len() as int));
}

} // verus!

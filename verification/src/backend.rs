//! The backends that can run a model, their names, and how the names of the
//! command line, of the planner and of the backends go together.

use vstd::prelude::*;

use crate::args::{
    BackendArg, BenchCompareArg, BurnMode, CandleDeviceMode, DeviceArg, LlamaCppMode,
    OnnxRuntimeMode,
};
use crate::manifest::ModelFormat;
use crate::text::{join_strings, joined, opt_str_view, str_eq, views};

verus! {

/// A backend, or a family of backends to choose from.
#[derive(Clone, Copy, Debug, PartialEq, Eq, Structural)]
pub enum BackendChoice {
    Auto,
    GgufPreferred { llama: LlamaCppMode, candle: CandleDeviceMode },
    Candle(CandleDeviceMode),
    LlamaServer(LlamaCppMode),
    LlamaFast(LlamaCppMode),
    LlamaHighlevel(LlamaCppMode),
    Burn(BurnMode),
    Mlx,
    MlxVlm,
    OnnxRuntime(OnnxRuntimeMode),
    TransformersCompat,
    Vllm,
    VllmRocm,
}

/// A runtime as the planner names it.
#[derive(Clone, Copy, Debug, PartialEq, Eq, Structural)]
pub enum RuntimeId {
    BurnCuda,
    BurnCpu,
    LlamaServerCuda,
    LlamaServerRocm,
    LlamaServerVulkan,
    LlamaServerMetal,
    LlamaServerCpu,
    CandleCuda,
    CandleMetal,
    CandleCpu,
    Mlx,
    MlxVlm,
    OnnxRuntimeCuda,
    OnnxRuntimeRocm,
    OnnxRuntimeCpu,
    TransformersCompat,
    VllmCuda,
    VllmRocm,
    MediaCompanionCuda,
    MediaCompanionRocm,
    MediaCompanionMetal,
    MediaCompanionCpu,
}

/// The software behind a runtime.
#[derive(Clone, Copy, Debug, PartialEq, Eq, Structural)]
pub enum BackendRuntime {
    Burn,
    Candle,
    LlamaServer,
    LlamaLegacy,
    LlamaHighlevel,
    Mlx,
    MlxVlm,
    OnnxRuntime,
    TransformersCompat,
    Vllm,
    MediaCompanion,
}

#[derive(Clone, Copy, Debug, PartialEq, Eq, Structural)]
pub enum BackendAccelerator {
    Auto,
    Cpu,
    Cuda,
    Rocm,
    Vulkan,
    Metal,
    Mlx,
}

/// What the planner is asked for.
#[derive(Clone, Copy, Debug, PartialEq, Eq, Structural)]
pub enum RequestedBackend {
    Auto,
    Burn,
    Candle,
    Cpu,
    Cuda,
    LlamaHighlevel,
    LlamaLegacy,
    Metal,
    Mlx,
    Rocm,
    Transformers,
    Vllm,
    Vulkan,
}

/// The machine and the build that the program runs on.
#[derive(Clone, Copy, Debug, PartialEq, Eq, Structural)]
pub struct Host {
    pub macos: bool,
    pub linux: bool,
    pub windows: bool,
    pub strix_halo: bool,
    pub burn_cuda: bool,
    pub burn_cpu: bool,
    pub candle_cuda: bool,
    pub llama_legacy_cuda: bool,
    pub llama_legacy_vulkan: bool,
    pub metal: bool,
}

/// How a backend may be selected.
#[derive(Clone, Copy, Debug, PartialEq, Eq, Structural)]
pub struct SelectionOptions {
    pub provision_missing_backends: bool,
    pub verbose_backend_installs: bool,
}

impl Default for SelectionOptions {
    fn default() -> (r: Self)
        ensures
            r == (SelectionOptions {
                provision_missing_backends: false,
                verbose_backend_installs: false,
            }),
    {
        SelectionOptions { provision_missing_backends: false, verbose_backend_installs: false }
    }
}

impl SelectionOptions {
    /// Missing backends are installed where that is asked for, and by default
    /// only for the automatic choice; a refusal overrules both.
    pub fn from_cli(backend: BackendArg, auto_install: bool, no_auto_install: bool) -> (r: Self)
        ensures
            r == (SelectionOptions {
                provision_missing_backends: !no_auto_install && (auto_install || backend is Auto),
                verbose_backend_installs: false,
            }),
    {
        SelectionOptions {
            provision_missing_backends: !no_auto_install && (auto_install || backend
                == BackendArg::Auto),
            verbose_backend_installs: false,
        }
    }

    pub fn with_backend_install_output(self, verbose: bool) -> (r: Self)
        ensures
            r == (SelectionOptions { verbose_backend_installs: verbose, ..self }),
    {
        SelectionOptions {
            verbose_backend_installs: verbose,
            provision_missing_backends: self.provision_missing_backends,
        }
    }
}

// ---------------------------------------------------------------------------
// From the command line
// ---------------------------------------------------------------------------

pub open spec fn llama_preference(host: Host) -> LlamaCppMode {
    if host.macos {
        LlamaCppMode::Metal
    } else if host.llama_legacy_cuda {
        LlamaCppMode::Cuda
    } else if host.llama_legacy_vulkan {
        LlamaCppMode::Vulkan
    } else {
        LlamaCppMode::Cpu
    }
}

pub fn preferred_llama_mode(host: Host) -> (r: LlamaCppMode)
    ensures
        r == llama_preference(host),
{
    if host.macos {
        LlamaCppMode::Metal
    } else if host.llama_legacy_cuda {
        LlamaCppMode::Cuda
    } else if host.llama_legacy_vulkan {
        LlamaCppMode::Vulkan
    } else {
        LlamaCppMode::Cpu
    }
}

pub open spec fn onnx_preference(host: Host) -> OnnxRuntimeMode {
    if host.windows || host.linux {
        OnnxRuntimeMode::Cuda
    } else {
        OnnxRuntimeMode::Cpu
    }
}

pub fn preferred_onnx_mode(host: Host) -> (r: OnnxRuntimeMode)
    ensures
        r == onnx_preference(host),
{
    if host.windows || host.linux {
        OnnxRuntimeMode::Cuda
    } else {
        OnnxRuntimeMode::Cpu
    }
}

pub open spec fn burn_preference(host: Host) -> BurnMode {
    if host.burn_cuda && (host.windows || host.linux) {
        BurnMode::Cuda
    } else {
        BurnMode::Cpu
    }
}

pub fn preferred_burn_mode(host: Host) -> (r: BurnMode)
    ensures
        r == burn_preference(host),
{
    if host.burn_cuda && (host.windows || host.linux) {
        BurnMode::Cuda
    } else {
        BurnMode::Cpu
    }
}

pub open spec fn preferred_family(llama: LlamaCppMode, candle: CandleDeviceMode) -> BackendChoice {
    BackendChoice::GgufPreferred { llama, candle }
}

/// The choice that a backend option stands for.
pub open spec fn choice_of(backend: BackendArg, host: Host) -> BackendChoice {
    match backend {
        BackendArg::Auto => BackendChoice::Auto,
        BackendArg::Burn => BackendChoice::Burn(burn_preference(host)),
        BackendArg::Candle => BackendChoice::Candle(CandleDeviceMode::Auto),
        BackendArg::Cpu => preferred_family(LlamaCppMode::Cpu, CandleDeviceMode::Cpu),
        BackendArg::Cuda => preferred_family(LlamaCppMode::Cuda, CandleDeviceMode::Cuda),
        BackendArg::Metal => preferred_family(LlamaCppMode::Metal, CandleDeviceMode::Metal),
        BackendArg::Mlx => BackendChoice::Mlx,
        BackendArg::Onnx => BackendChoice::OnnxRuntime(onnx_preference(host)),
        BackendArg::Rocm => preferred_family(LlamaCppMode::Rocm, CandleDeviceMode::Auto),
        BackendArg::Transformers => BackendChoice::TransformersCompat,
        BackendArg::Vllm => BackendChoice::Vllm,
        BackendArg::Vulkan => preferred_family(LlamaCppMode::Vulkan, CandleDeviceMode::Auto),
        BackendArg::LlamaHighlevel => BackendChoice::LlamaHighlevel(llama_preference(host)),
        BackendArg::LlamaLegacy => BackendChoice::LlamaFast(llama_preference(host)),
    }
}

fn gguf_family(llama: LlamaCppMode, candle: CandleDeviceMode) -> (r: BackendChoice)
    ensures
        r == preferred_family(llama, candle),
{
    BackendChoice::GgufPreferred { llama, candle }
}

pub fn backend_arg_to_choice(backend: BackendArg, host: Host) -> (r: BackendChoice)
    ensures
        r == choice_of(backend, host),
{
    match backend {
        BackendArg::Auto => BackendChoice::Auto,
        BackendArg::Burn => BackendChoice::Burn(preferred_burn_mode(host)),
        BackendArg::Candle => BackendChoice::Candle(CandleDeviceMode::Auto),
        BackendArg::Cpu => gguf_family(LlamaCppMode::Cpu, CandleDeviceMode::Cpu),
        BackendArg::Cuda => gguf_family(LlamaCppMode::Cuda, CandleDeviceMode::Cuda),
        BackendArg::Metal => gguf_family(LlamaCppMode::Metal, CandleDeviceMode::Metal),
        BackendArg::Mlx => BackendChoice::Mlx,
        BackendArg::Onnx => BackendChoice::OnnxRuntime(preferred_onnx_mode(host)),
        BackendArg::Rocm => gguf_family(LlamaCppMode::Rocm, CandleDeviceMode::Auto),
        BackendArg::Transformers => BackendChoice::TransformersCompat,
        BackendArg::Vllm => BackendChoice::Vllm,
        BackendArg::Vulkan => gguf_family(LlamaCppMode::Vulkan, CandleDeviceMode::Auto),
        BackendArg::LlamaHighlevel => BackendChoice::LlamaHighlevel(preferred_llama_mode(host)),
        BackendArg::LlamaLegacy => BackendChoice::LlamaFast(preferred_llama_mode(host)),
    }
}

pub open spec fn device_mode(device: DeviceArg) -> CandleDeviceMode {
    match device {
        DeviceArg::Auto => CandleDeviceMode::Auto,
        DeviceArg::Cpu => CandleDeviceMode::Cpu,
        DeviceArg::Cuda => CandleDeviceMode::Cuda,
        DeviceArg::Metal => CandleDeviceMode::Metal,
    }
}

/// A device option chooses Candle on that device; together with a backend
/// option it is refused.
pub fn resolve_backend(backend: BackendArg, device_override: Option<DeviceArg>, host: Host) -> (r:
    Result<BackendChoice, String>)
    ensures
        r is Err <==> !(backend is Auto) && device_override is Some,
        r matches Err(message) ==> message@ == "use either --backend or --device, not both"@,
        r matches Ok(choice) ==> choice == match device_override {
            Some(device) => BackendChoice::Candle(device_mode(device)),
            None => choice_of(backend, host),
        },
{
    if backend != BackendArg::Auto && device_override.is_some() {
        return Err("use either --backend or --device, not both".to_owned());
    }
    if let Some(device) = device_override {
        return Ok(BackendChoice::Candle(CandleDeviceMode::from(device)));
    }
    Ok(backend_arg_to_choice(backend, host))
}

// ---------------------------------------------------------------------------
// Runtimes and backends
// ---------------------------------------------------------------------------

/// The backend that runs a runtime; the media companions have none.
pub open spec fn backend_of_runtime(id: RuntimeId) -> Option<BackendChoice> {
    match id {
        RuntimeId::BurnCuda => Some(BackendChoice::Burn(BurnMode::Cuda)),
        RuntimeId::BurnCpu => Some(BackendChoice::Burn(BurnMode::Cpu)),
        RuntimeId::LlamaServerCuda => Some(BackendChoice::LlamaServer(LlamaCppMode::Cuda)),
        RuntimeId::LlamaServerRocm => Some(BackendChoice::LlamaServer(LlamaCppMode::Rocm)),
        RuntimeId::LlamaServerVulkan => Some(BackendChoice::LlamaServer(LlamaCppMode::Vulkan)),
        RuntimeId::LlamaServerMetal => Some(BackendChoice::LlamaServer(LlamaCppMode::Metal)),
        RuntimeId::LlamaServerCpu => Some(BackendChoice::LlamaServer(LlamaCppMode::Cpu)),
        RuntimeId::CandleCuda => Some(BackendChoice::Candle(CandleDeviceMode::Cuda)),
        RuntimeId::CandleMetal => Some(BackendChoice::Candle(CandleDeviceMode::Metal)),
        RuntimeId::CandleCpu => Some(BackendChoice::Candle(CandleDeviceMode::Cpu)),
        RuntimeId::Mlx => Some(BackendChoice::Mlx),
        RuntimeId::MlxVlm => Some(BackendChoice::MlxVlm),
        RuntimeId::OnnxRuntimeCuda => Some(BackendChoice::OnnxRuntime(OnnxRuntimeMode::Cuda)),
        RuntimeId::OnnxRuntimeRocm => Some(BackendChoice::OnnxRuntime(OnnxRuntimeMode::Rocm)),
        RuntimeId::OnnxRuntimeCpu => Some(BackendChoice::OnnxRuntime(OnnxRuntimeMode::Cpu)),
        RuntimeId::TransformersCompat => Some(BackendChoice::TransformersCompat),
        RuntimeId::VllmCuda => Some(BackendChoice::Vllm),
        RuntimeId::VllmRocm => Some(BackendChoice::VllmRocm),
        RuntimeId::MediaCompanionCuda => None,
        RuntimeId::MediaCompanionRocm => None,
        RuntimeId::MediaCompanionMetal => None,
        RuntimeId::MediaCompanionCpu => None,
    }
}

pub fn runtime_id_to_backend(id: RuntimeId) -> (r: Option<BackendChoice>)
    ensures
        r == backend_of_runtime(id),
{
    match id {
        RuntimeId::BurnCuda => Some(BackendChoice::Burn(BurnMode::Cuda)),
        RuntimeId::BurnCpu => Some(BackendChoice::Burn(BurnMode::Cpu)),
        RuntimeId::LlamaServerCuda => Some(BackendChoice::LlamaServer(LlamaCppMode::Cuda)),
        RuntimeId::LlamaServerRocm => Some(BackendChoice::LlamaServer(LlamaCppMode::Rocm)),
        RuntimeId::LlamaServerVulkan => Some(BackendChoice::LlamaServer(LlamaCppMode::Vulkan)),
        RuntimeId::LlamaServerMetal => Some(BackendChoice::LlamaServer(LlamaCppMode::Metal)),
        RuntimeId::LlamaServerCpu => Some(BackendChoice::LlamaServer(LlamaCppMode::Cpu)),
        RuntimeId::CandleCuda => Some(BackendChoice::Candle(CandleDeviceMode::Cuda)),
        RuntimeId::CandleMetal => Some(BackendChoice::Candle(CandleDeviceMode::Metal)),
        RuntimeId::CandleCpu => Some(BackendChoice::Candle(CandleDeviceMode::Cpu)),
        RuntimeId::Mlx => Some(BackendChoice::Mlx),
        RuntimeId::MlxVlm => Some(BackendChoice::MlxVlm),
        RuntimeId::OnnxRuntimeCuda => Some(BackendChoice::OnnxRuntime(OnnxRuntimeMode::Cuda)),
        RuntimeId::OnnxRuntimeRocm => Some(BackendChoice::OnnxRuntime(OnnxRuntimeMode::Rocm)),
        RuntimeId::OnnxRuntimeCpu => Some(BackendChoice::OnnxRuntime(OnnxRuntimeMode::Cpu)),
        RuntimeId::TransformersCompat => Some(BackendChoice::TransformersCompat),
        RuntimeId::VllmCuda => Some(BackendChoice::Vllm),
        RuntimeId::VllmRocm => Some(BackendChoice::VllmRocm),
        RuntimeId::MediaCompanionCuda => None,
        RuntimeId::MediaCompanionRocm => None,
        RuntimeId::MediaCompanionMetal => None,
        RuntimeId::MediaCompanionCpu => None,
    }
}

/// The runtime that the planner knows a backend by.
pub open spec fn runtime_of_backend(backend: BackendChoice) -> Option<RuntimeId> {
    match backend {
        BackendChoice::Burn(BurnMode::Cuda) => Some(RuntimeId::BurnCuda),
        BackendChoice::Burn(BurnMode::Cpu) => Some(RuntimeId::BurnCpu),
        BackendChoice::LlamaServer(LlamaCppMode::Cuda) => Some(RuntimeId::LlamaServerCuda),
        BackendChoice::LlamaServer(LlamaCppMode::Rocm) => Some(RuntimeId::LlamaServerRocm),
        BackendChoice::LlamaServer(LlamaCppMode::Vulkan) => Some(RuntimeId::LlamaServerVulkan),
        BackendChoice::LlamaServer(LlamaCppMode::Metal) => Some(RuntimeId::LlamaServerMetal),
        BackendChoice::LlamaServer(LlamaCppMode::Cpu) => Some(RuntimeId::LlamaServerCpu),
        BackendChoice::Candle(CandleDeviceMode::Cuda) => Some(RuntimeId::CandleCuda),
        BackendChoice::Candle(CandleDeviceMode::Metal) => Some(RuntimeId::CandleMetal),
        BackendChoice::Candle(CandleDeviceMode::Cpu) => Some(RuntimeId::CandleCpu),
        BackendChoice::Mlx => Some(RuntimeId::Mlx),
        BackendChoice::MlxVlm => Some(RuntimeId::MlxVlm),
        BackendChoice::OnnxRuntime(OnnxRuntimeMode::Cuda) => Some(RuntimeId::OnnxRuntimeCuda),
        BackendChoice::OnnxRuntime(OnnxRuntimeMode::Rocm) => Some(RuntimeId::OnnxRuntimeRocm),
        BackendChoice::OnnxRuntime(OnnxRuntimeMode::Cpu) => Some(RuntimeId::OnnxRuntimeCpu),
        BackendChoice::TransformersCompat => Some(RuntimeId::TransformersCompat),
        BackendChoice::Vllm => Some(RuntimeId::VllmCuda),
        BackendChoice::VllmRocm => Some(RuntimeId::VllmRocm),
        BackendChoice::Candle(CandleDeviceMode::Auto) => Some(RuntimeId::CandleCpu),
        BackendChoice::Auto => None,
        BackendChoice::GgufPreferred { .. } => None,
        BackendChoice::LlamaFast(_) => None,
        BackendChoice::LlamaHighlevel(_) => None,
    }
}

pub fn backend_to_runtime_id(backend: BackendChoice) -> (r: Option<RuntimeId>)
    ensures
        r == runtime_of_backend(backend),
{
    match backend {
        BackendChoice::Burn(BurnMode::Cuda) => Some(RuntimeId::BurnCuda),
        BackendChoice::Burn(BurnMode::Cpu) => Some(RuntimeId::BurnCpu),
        BackendChoice::LlamaServer(LlamaCppMode::Cuda) => Some(RuntimeId::LlamaServerCuda),
        BackendChoice::LlamaServer(LlamaCppMode::Rocm) => Some(RuntimeId::LlamaServerRocm),
        BackendChoice::LlamaServer(LlamaCppMode::Vulkan) => Some(RuntimeId::LlamaServerVulkan),
        BackendChoice::LlamaServer(LlamaCppMode::Metal) => Some(RuntimeId::LlamaServerMetal),
        BackendChoice::LlamaServer(LlamaCppMode::Cpu) => Some(RuntimeId::LlamaServerCpu),
        BackendChoice::Candle(CandleDeviceMode::Cuda) => Some(RuntimeId::CandleCuda),
        BackendChoice::Candle(CandleDeviceMode::Metal) => Some(RuntimeId::CandleMetal),
        BackendChoice::Candle(CandleDeviceMode::Cpu) => Some(RuntimeId::CandleCpu),
        BackendChoice::Mlx => Some(RuntimeId::Mlx),
        BackendChoice::MlxVlm => Some(RuntimeId::MlxVlm),
        BackendChoice::OnnxRuntime(OnnxRuntimeMode::Cuda) => Some(RuntimeId::OnnxRuntimeCuda),
        BackendChoice::OnnxRuntime(OnnxRuntimeMode::Rocm) => Some(RuntimeId::OnnxRuntimeRocm),
        BackendChoice::OnnxRuntime(OnnxRuntimeMode::Cpu) => Some(RuntimeId::OnnxRuntimeCpu),
        BackendChoice::TransformersCompat => Some(RuntimeId::TransformersCompat),
        BackendChoice::Vllm => Some(RuntimeId::VllmCuda),
        BackendChoice::VllmRocm => Some(RuntimeId::VllmRocm),
        BackendChoice::Candle(CandleDeviceMode::Auto) => Some(RuntimeId::CandleCpu),
        BackendChoice::Auto => None,
        BackendChoice::GgufPreferred { .. } => None,
        BackendChoice::LlamaFast(_) => None,
        BackendChoice::LlamaHighlevel(_) => None,
    }
}

/// A runtime and the backend that runs it name each other.
pub proof fn runtimes_and_backends_match(id: RuntimeId, backend: BackendChoice)
    ensures
        backend_of_runtime(id) matches Some(b) ==> runtime_of_backend(b) == Some(id),
        runtime_of_backend(backend) matches Some(i) ==> backend_of_runtime(i) == Some(backend)
            || backend == BackendChoice::Candle(CandleDeviceMode::Auto),
{
}

/// No two runtimes are run by the same backend.
pub proof fn backends_are_not_shared(a: RuntimeId, b: RuntimeId)
    requires
        backend_of_runtime(a) is Some,
        backend_of_runtime(a) == backend_of_runtime(b),
    ensures
        a == b,
{
    runtimes_and_backends_match(a, BackendChoice::Auto);
    runtimes_and_backends_match(b, BackendChoice::Auto);
}

/// The software that a backend runs.
pub open spec fn software_of(backend: BackendChoice) -> BackendRuntime {
    match backend {
        BackendChoice::Auto => BackendRuntime::Candle,
        BackendChoice::GgufPreferred { .. } => BackendRuntime::Candle,
        BackendChoice::Burn(_) => BackendRuntime::Burn,
        BackendChoice::Candle(_) => BackendRuntime::Candle,
        BackendChoice::LlamaServer(_) => BackendRuntime::LlamaServer,
        BackendChoice::LlamaFast(_) => BackendRuntime::LlamaLegacy,
        BackendChoice::LlamaHighlevel(_) => BackendRuntime::LlamaHighlevel,
        BackendChoice::Mlx => BackendRuntime::Mlx,
        BackendChoice::MlxVlm => BackendRuntime::MlxVlm,
        BackendChoice::OnnxRuntime(_) => BackendRuntime::OnnxRuntime,
        BackendChoice::TransformersCompat => BackendRuntime::TransformersCompat,
        BackendChoice::Vllm => BackendRuntime::Vllm,
        BackendChoice::VllmRocm => BackendRuntime::Vllm,
    }
}

pub fn backend_runtime(backend: BackendChoice) -> (r: BackendRuntime)
    ensures
        r == software_of(backend),
{
    match backend {
        BackendChoice::Auto => BackendRuntime::Candle,
        BackendChoice::GgufPreferred { .. } => BackendRuntime::Candle,
        BackendChoice::Burn(_) => BackendRuntime::Burn,
        BackendChoice::Candle(_) => BackendRuntime::Candle,
        BackendChoice::LlamaServer(_) => BackendRuntime::LlamaServer,
        BackendChoice::LlamaFast(_) => BackendRuntime::LlamaLegacy,
        BackendChoice::LlamaHighlevel(_) => BackendRuntime::LlamaHighlevel,
        BackendChoice::Mlx => BackendRuntime::Mlx,
        BackendChoice::MlxVlm => BackendRuntime::MlxVlm,
        BackendChoice::OnnxRuntime(_) => BackendRuntime::OnnxRuntime,
        BackendChoice::TransformersCompat => BackendRuntime::TransformersCompat,
        BackendChoice::Vllm => BackendRuntime::Vllm,
        BackendChoice::VllmRocm => BackendRuntime::Vllm,
    }
}

/// The accelerator that a backend uses.
pub open spec fn accelerator_of(backend: BackendChoice) -> BackendAccelerator {
    match backend {
        BackendChoice::Auto => BackendAccelerator::Auto,
        BackendChoice::GgufPreferred { .. } => BackendAccelerator::Auto,
        BackendChoice::Candle(CandleDeviceMode::Auto) => BackendAccelerator::Auto,
        BackendChoice::Candle(CandleDeviceMode::Cpu) => BackendAccelerator::Cpu,
        BackendChoice::Candle(CandleDeviceMode::Cuda) => BackendAccelerator::Cuda,
        BackendChoice::Candle(CandleDeviceMode::Metal) => BackendAccelerator::Metal,
        BackendChoice::Burn(BurnMode::Cpu) => BackendAccelerator::Cpu,
        BackendChoice::Burn(BurnMode::Cuda) => BackendAccelerator::Cuda,
        BackendChoice::LlamaServer(LlamaCppMode::Cuda) => BackendAccelerator::Cuda,
        BackendChoice::LlamaServer(LlamaCppMode::Rocm) => BackendAccelerator::Rocm,
        BackendChoice::LlamaServer(LlamaCppMode::Vulkan) => BackendAccelerator::Vulkan,
        BackendChoice::LlamaServer(LlamaCppMode::Metal) => BackendAccelerator::Metal,
        BackendChoice::LlamaServer(LlamaCppMode::Cpu) => BackendAccelerator::Cpu,
        BackendChoice::LlamaFast(LlamaCppMode::Cuda) => BackendAccelerator::Cuda,
        BackendChoice::LlamaFast(LlamaCppMode::Rocm) => BackendAccelerator::Rocm,
        BackendChoice::LlamaFast(LlamaCppMode::Vulkan) => BackendAccelerator::Vulkan,
        BackendChoice::LlamaFast(LlamaCppMode::Metal) => BackendAccelerator::Metal,
        BackendChoice::LlamaFast(LlamaCppMode::Cpu) => BackendAccelerator::Cpu,
        BackendChoice::LlamaHighlevel(LlamaCppMode::Cuda) => BackendAccelerator::Cuda,
        BackendChoice::LlamaHighlevel(LlamaCppMode::Rocm) => BackendAccelerator::Rocm,
        BackendChoice::LlamaHighlevel(LlamaCppMode::Vulkan) => BackendAccelerator::Vulkan,
        BackendChoice::LlamaHighlevel(LlamaCppMode::Metal) => BackendAccelerator::Metal,
        BackendChoice::LlamaHighlevel(LlamaCppMode::Cpu) => BackendAccelerator::Cpu,
        BackendChoice::OnnxRuntime(OnnxRuntimeMode::Cuda) => BackendAccelerator::Cuda,
        BackendChoice::OnnxRuntime(OnnxRuntimeMode::Rocm) => BackendAccelerator::Rocm,
        BackendChoice::OnnxRuntime(OnnxRuntimeMode::Cpu) => BackendAccelerator::Cpu,
        BackendChoice::Mlx => BackendAccelerator::Mlx,
        BackendChoice::MlxVlm => BackendAccelerator::Mlx,
        BackendChoice::TransformersCompat => BackendAccelerator::Auto,
        BackendChoice::Vllm => BackendAccelerator::Cuda,
        BackendChoice::VllmRocm => BackendAccelerator::Rocm,
    }
}

pub fn backend_accelerator(backend: BackendChoice) -> (r: BackendAccelerator)
    ensures
        r == accelerator_of(backend),
{
    match backend {
        BackendChoice::Auto => BackendAccelerator::Auto,
        BackendChoice::GgufPreferred { .. } => BackendAccelerator::Auto,
        BackendChoice::Candle(CandleDeviceMode::Auto) => BackendAccelerator::Auto,
        BackendChoice::Candle(CandleDeviceMode::Cpu) => BackendAccelerator::Cpu,
        BackendChoice::Candle(CandleDeviceMode::Cuda) => BackendAccelerator::Cuda,
        BackendChoice::Candle(CandleDeviceMode::Metal) => BackendAccelerator::Metal,
        BackendChoice::Burn(BurnMode::Cpu) => BackendAccelerator::Cpu,
        BackendChoice::Burn(BurnMode::Cuda) => BackendAccelerator::Cuda,
        BackendChoice::LlamaServer(LlamaCppMode::Cuda) => BackendAccelerator::Cuda,
        BackendChoice::LlamaServer(LlamaCppMode::Rocm) => BackendAccelerator::Rocm,
        BackendChoice::LlamaServer(LlamaCppMode::Vulkan) => BackendAccelerator::Vulkan,
        BackendChoice::LlamaServer(LlamaCppMode::Metal) => BackendAccelerator::Metal,
        BackendChoice::LlamaServer(LlamaCppMode::Cpu) => BackendAccelerator::Cpu,
        BackendChoice::LlamaFast(LlamaCppMode::Cuda) => BackendAccelerator::Cuda,
        BackendChoice::LlamaFast(LlamaCppMode::Rocm) => BackendAccelerator::Rocm,
        BackendChoice::LlamaFast(LlamaCppMode::Vulkan) => BackendAccelerator::Vulkan,
        BackendChoice::LlamaFast(LlamaCppMode::Metal) => BackendAccelerator::Metal,
        BackendChoice::LlamaFast(LlamaCppMode::Cpu) => BackendAccelerator::Cpu,
        BackendChoice::LlamaHighlevel(LlamaCppMode::Cuda) => BackendAccelerator::Cuda,
        BackendChoice::LlamaHighlevel(LlamaCppMode::Rocm) => BackendAccelerator::Rocm,
        BackendChoice::LlamaHighlevel(LlamaCppMode::Vulkan) => BackendAccelerator::Vulkan,
        BackendChoice::LlamaHighlevel(LlamaCppMode::Metal) => BackendAccelerator::Metal,
        BackendChoice::LlamaHighlevel(LlamaCppMode::Cpu) => BackendAccelerator::Cpu,
        BackendChoice::OnnxRuntime(OnnxRuntimeMode::Cuda) => BackendAccelerator::Cuda,
        BackendChoice::OnnxRuntime(OnnxRuntimeMode::Rocm) => BackendAccelerator::Rocm,
        BackendChoice::OnnxRuntime(OnnxRuntimeMode::Cpu) => BackendAccelerator::Cpu,
        BackendChoice::Mlx => BackendAccelerator::Mlx,
        BackendChoice::MlxVlm => BackendAccelerator::Mlx,
        BackendChoice::TransformersCompat => BackendAccelerator::Auto,
        BackendChoice::Vllm => BackendAccelerator::Cuda,
        BackendChoice::VllmRocm => BackendAccelerator::Rocm,
    }
}

/// What the planner is asked for on behalf of a choice.
pub open spec fn request_of(backend: BackendChoice) -> RequestedBackend {
    match backend {
        BackendChoice::Auto => RequestedBackend::Auto,
        BackendChoice::GgufPreferred { llama: LlamaCppMode::Cuda, .. } => RequestedBackend::Cuda,
        BackendChoice::LlamaServer(LlamaCppMode::Cuda) => RequestedBackend::Cuda,
        BackendChoice::GgufPreferred { llama: LlamaCppMode::Rocm, .. } => RequestedBackend::Rocm,
        BackendChoice::LlamaServer(LlamaCppMode::Rocm) => RequestedBackend::Rocm,
        BackendChoice::GgufPreferred { llama: LlamaCppMode::Vulkan, .. } => RequestedBackend::Vulkan,
        BackendChoice::LlamaServer(LlamaCppMode::Vulkan) => RequestedBackend::Vulkan,
        BackendChoice::GgufPreferred { llama: LlamaCppMode::Metal, .. } => RequestedBackend::Metal,
        BackendChoice::LlamaServer(LlamaCppMode::Metal) => RequestedBackend::Metal,
        BackendChoice::GgufPreferred { llama: LlamaCppMode::Cpu, .. } => RequestedBackend::Cpu,
        BackendChoice::LlamaServer(LlamaCppMode::Cpu) => RequestedBackend::Cpu,
        BackendChoice::OnnxRuntime(OnnxRuntimeMode::Cuda) => RequestedBackend::Cuda,
        BackendChoice::OnnxRuntime(OnnxRuntimeMode::Rocm) => RequestedBackend::Rocm,
        BackendChoice::OnnxRuntime(OnnxRuntimeMode::Cpu) => RequestedBackend::Cpu,
        BackendChoice::Burn(_) => RequestedBackend::Burn,
        BackendChoice::Candle(_) => RequestedBackend::Candle,
        BackendChoice::Mlx => RequestedBackend::Mlx,
        BackendChoice::MlxVlm => RequestedBackend::Mlx,
        BackendChoice::TransformersCompat => RequestedBackend::Transformers,
        BackendChoice::Vllm => RequestedBackend::Vllm,
        BackendChoice::VllmRocm => RequestedBackend::Rocm,
        BackendChoice::LlamaFast(_) => RequestedBackend::LlamaLegacy,
        BackendChoice::LlamaHighlevel(_) => RequestedBackend::LlamaHighlevel,
    }
}

pub fn requested_backend_for_choice(backend: BackendChoice) -> (r: RequestedBackend)
    ensures
        r == request_of(backend),
{
    match backend {
        BackendChoice::Auto => RequestedBackend::Auto,
        BackendChoice::GgufPreferred { llama: LlamaCppMode::Cuda, .. } => RequestedBackend::Cuda,
        BackendChoice::LlamaServer(LlamaCppMode::Cuda) => RequestedBackend::Cuda,
        BackendChoice::GgufPreferred { llama: LlamaCppMode::Rocm, .. } => RequestedBackend::Rocm,
        BackendChoice::LlamaServer(LlamaCppMode::Rocm) => RequestedBackend::Rocm,
        BackendChoice::GgufPreferred { llama: LlamaCppMode::Vulkan, .. } => RequestedBackend::Vulkan,
        BackendChoice::LlamaServer(LlamaCppMode::Vulkan) => RequestedBackend::Vulkan,
        BackendChoice::GgufPreferred { llama: LlamaCppMode::Metal, .. } => RequestedBackend::Metal,
        BackendChoice::LlamaServer(LlamaCppMode::Metal) => RequestedBackend::Metal,
        BackendChoice::GgufPreferred { llama: LlamaCppMode::Cpu, .. } => RequestedBackend::Cpu,
        BackendChoice::LlamaServer(LlamaCppMode::Cpu) => RequestedBackend::Cpu,
        BackendChoice::OnnxRuntime(OnnxRuntimeMode::Cuda) => RequestedBackend::Cuda,
        BackendChoice::OnnxRuntime(OnnxRuntimeMode::Rocm) => RequestedBackend::Rocm,
        BackendChoice::OnnxRuntime(OnnxRuntimeMode::Cpu) => RequestedBackend::Cpu,
        BackendChoice::Burn(_) => RequestedBackend::Burn,
        BackendChoice::Candle(_) => RequestedBackend::Candle,
        BackendChoice::Mlx => RequestedBackend::Mlx,
        BackendChoice::MlxVlm => RequestedBackend::Mlx,
        BackendChoice::TransformersCompat => RequestedBackend::Transformers,
        BackendChoice::Vllm => RequestedBackend::Vllm,
        BackendChoice::VllmRocm => RequestedBackend::Rocm,
        BackendChoice::LlamaFast(_) => RequestedBackend::LlamaLegacy,
        BackendChoice::LlamaHighlevel(_) => RequestedBackend::LlamaHighlevel,
    }
}

/// A choice that names an accelerator asks the planner for that accelerator, or
/// for the software that it belongs to.
pub proof fn requests_keep_the_accelerator(backend: BackendChoice)
    ensures
        request_of(backend) is Cuda ==> accelerator_of(backend) is Cuda || backend
            is GgufPreferred,
        request_of(backend) is Rocm ==> accelerator_of(backend) is Rocm || backend
            is GgufPreferred,
        request_of(backend) is Vulkan ==> accelerator_of(backend) is Vulkan || backend
            is GgufPreferred,
        request_of(backend) is Metal ==> accelerator_of(backend) is Metal || backend
            is GgufPreferred,
        request_of(backend) is Cpu ==> accelerator_of(backend) is Cpu || backend is GgufPreferred,
{
}

// ---------------------------------------------------------------------------
// Names
// ---------------------------------------------------------------------------

/// How a variant of llama.cpp is shown.
pub open spec fn llama_mode_name(mode: LlamaCppMode) -> Seq<char> {
    match mode {
        LlamaCppMode::Cuda => "CUDA"@,
        LlamaCppMode::Rocm => "ROCm/HIP"@,
        LlamaCppMode::Vulkan => "Vulkan"@,
        LlamaCppMode::Metal => "Metal"@,
        LlamaCppMode::Cpu => "CPU"@,
    }
}

pub fn display_llama_mode(mode: LlamaCppMode) -> (r: &'static str)
    ensures
        r@ == llama_mode_name(mode),
{
    match mode {
        LlamaCppMode::Cuda => "CUDA",
        LlamaCppMode::Rocm => "ROCm/HIP",
        LlamaCppMode::Vulkan => "Vulkan",
        LlamaCppMode::Metal => "Metal",
        LlamaCppMode::Cpu => "CPU",
    }
}

/// The short name of a backend. `mode_label` is the name that the high-level
/// llama.cpp binding has for its variant.
pub open spec fn backend_name(backend: BackendChoice, mode_label: Seq<char>) -> Seq<char> {
    match backend {
        BackendChoice::Auto => "auto"@,
        BackendChoice::GgufPreferred { llama: LlamaCppMode::Cuda, .. } => "cuda"@,
        BackendChoice::GgufPreferred { llama: LlamaCppMode::Rocm, .. } => "rocm"@,
        BackendChoice::GgufPreferred { llama: LlamaCppMode::Cpu, .. } => "cpu"@,
        BackendChoice::GgufPreferred { llama: LlamaCppMode::Vulkan, .. } => "vulkan"@,
        BackendChoice::GgufPreferred { llama: LlamaCppMode::Metal, .. } => "metal"@,
        BackendChoice::Candle(CandleDeviceMode::Auto) => "candle-auto"@,
        BackendChoice::Burn(BurnMode::Cuda) => "burn-cuda"@,
        BackendChoice::Burn(BurnMode::Cpu) => "burn-cpu"@,
        BackendChoice::Candle(CandleDeviceMode::Cpu) => "candle-cpu"@,
        BackendChoice::Candle(CandleDeviceMode::Cuda) => "candle-cuda"@,
        BackendChoice::Candle(CandleDeviceMode::Metal) => "metal"@,
        BackendChoice::Mlx => "mlx"@,
        BackendChoice::MlxVlm => "mlx-vlm"@,
        BackendChoice::OnnxRuntime(OnnxRuntimeMode::Cuda) => "onnxruntime-cuda"@,
        BackendChoice::OnnxRuntime(OnnxRuntimeMode::Rocm) => "onnxruntime-rocm"@,
        BackendChoice::OnnxRuntime(OnnxRuntimeMode::Cpu) => "onnxruntime-cpu"@,
        BackendChoice::TransformersCompat => "transformers"@,
        BackendChoice::Vllm => "vllm-cuda"@,
        BackendChoice::VllmRocm => "vllm-rocm"@,
        BackendChoice::LlamaServer(LlamaCppMode::Cuda) => "llama-server-cuda"@,
        BackendChoice::LlamaServer(LlamaCppMode::Rocm) => "llama-server-rocm"@,
        BackendChoice::LlamaServer(LlamaCppMode::Vulkan) => "llama-server-vulkan"@,
        BackendChoice::LlamaServer(LlamaCppMode::Metal) => "llama-server-metal"@,
        BackendChoice::LlamaServer(LlamaCppMode::Cpu) => "llama-server-cpu"@,
        BackendChoice::LlamaFast(LlamaCppMode::Cuda) => "llama-legacy-cuda"@,
        BackendChoice::LlamaFast(LlamaCppMode::Rocm) => "llama-legacy-rocm"@,
        BackendChoice::LlamaFast(LlamaCppMode::Vulkan) => "llama-legacy-vulkan"@,
        BackendChoice::LlamaFast(LlamaCppMode::Metal) => "llama-legacy-metal"@,
        BackendChoice::LlamaFast(LlamaCppMode::Cpu) => "llama-legacy-cpu"@,
        BackendChoice::LlamaHighlevel(_) => mode_label,
    }
}

pub fn backend_label<'a>(backend: BackendChoice, mode_label: &'a str) -> (r: &'a str)
    ensures
        r@ == backend_name(backend, mode_label@),
{
    match backend {
        BackendChoice::Auto => "auto",
        BackendChoice::GgufPreferred { llama: LlamaCppMode::Cuda, .. } => "cuda",
        BackendChoice::GgufPreferred { llama: LlamaCppMode::Rocm, .. } => "rocm",
        BackendChoice::GgufPreferred { llama: LlamaCppMode::Cpu, .. } => "cpu",
        BackendChoice::GgufPreferred { llama: LlamaCppMode::Vulkan, .. } => "vulkan",
        BackendChoice::GgufPreferred { llama: LlamaCppMode::Metal, .. } => "metal",
        BackendChoice::Candle(CandleDeviceMode::Auto) => "candle-auto",
        BackendChoice::Burn(BurnMode::Cuda) => "burn-cuda",
        BackendChoice::Burn(BurnMode::Cpu) => "burn-cpu",
        BackendChoice::Candle(CandleDeviceMode::Cpu) => "candle-cpu",
        BackendChoice::Candle(CandleDeviceMode::Cuda) => "candle-cuda",
        BackendChoice::Candle(CandleDeviceMode::Metal) => "metal",
        BackendChoice::Mlx => "mlx",
        BackendChoice::MlxVlm => "mlx-vlm",
        BackendChoice::OnnxRuntime(OnnxRuntimeMode::Cuda) => "onnxruntime-cuda",
        BackendChoice::OnnxRuntime(OnnxRuntimeMode::Rocm) => "onnxruntime-rocm",
        BackendChoice::OnnxRuntime(OnnxRuntimeMode::Cpu) => "onnxruntime-cpu",
        BackendChoice::TransformersCompat => "transformers",
        BackendChoice::Vllm => "vllm-cuda",
        BackendChoice::VllmRocm => "vllm-rocm",
        BackendChoice::LlamaServer(LlamaCppMode::Cuda) => "llama-server-cuda",
        BackendChoice::LlamaServer(LlamaCppMode::Rocm) => "llama-server-rocm",
        BackendChoice::LlamaServer(LlamaCppMode::Vulkan) => "llama-server-vulkan",
        BackendChoice::LlamaServer(LlamaCppMode::Metal) => "llama-server-metal",
        BackendChoice::LlamaServer(LlamaCppMode::Cpu) => "llama-server-cpu",
        BackendChoice::LlamaFast(LlamaCppMode::Cuda) => "llama-legacy-cuda",
        BackendChoice::LlamaFast(LlamaCppMode::Rocm) => "llama-legacy-rocm",
        BackendChoice::LlamaFast(LlamaCppMode::Vulkan) => "llama-legacy-vulkan",
        BackendChoice::LlamaFast(LlamaCppMode::Metal) => "llama-legacy-metal",
        BackendChoice::LlamaFast(LlamaCppMode::Cpu) => "llama-legacy-cpu",
        BackendChoice::LlamaHighlevel(_) => mode_label,
    }
}

/// The full name of a backend.
pub open spec fn backend_title(backend: BackendChoice) -> Seq<char> {
    match backend {
        BackendChoice::Auto => "auto"@,
        BackendChoice::GgufPreferred { llama: LlamaCppMode::Cuda, .. } => "llama.cpp server CUDA"@,
        BackendChoice::GgufPreferred { llama: LlamaCppMode::Rocm, .. } => "llama.cpp server ROCm/HIP"@,
        BackendChoice::GgufPreferred { llama: LlamaCppMode::Cpu, .. } => "llama.cpp server CPU"@,
        BackendChoice::GgufPreferred { llama: LlamaCppMode::Vulkan, .. } => "llama.cpp server Vulkan"@,
        BackendChoice::GgufPreferred { llama: LlamaCppMode::Metal, .. } => "llama.cpp server Metal"@,
        BackendChoice::Candle(CandleDeviceMode::Auto) => "Candle auto"@,
        BackendChoice::Burn(BurnMode::Cuda) => "Burn CUDA"@,
        BackendChoice::Burn(BurnMode::Cpu) => "Burn CPU"@,
        BackendChoice::Candle(CandleDeviceMode::Cpu) => "Candle CPU"@,
        BackendChoice::Candle(CandleDeviceMode::Cuda) => "Candle CUDA"@,
        BackendChoice::Candle(CandleDeviceMode::Metal) => "Candle Metal"@,
        BackendChoice::Mlx => "MLX"@,
        BackendChoice::MlxVlm => "MLX-VLM"@,
        BackendChoice::OnnxRuntime(OnnxRuntimeMode::Cuda) => "ONNX Runtime CUDA"@,
        BackendChoice::OnnxRuntime(OnnxRuntimeMode::Rocm) => "ONNX Runtime ROCm"@,
        BackendChoice::OnnxRuntime(OnnxRuntimeMode::Cpu) => "ONNX Runtime CPU"@,
        BackendChoice::TransformersCompat => "Transformers compatibility"@,
        BackendChoice::Vllm => "vLLM CUDA"@,
        BackendChoice::VllmRocm => "vLLM ROCm"@,
        BackendChoice::LlamaServer(LlamaCppMode::Cuda) => "llama.cpp server CUDA"@,
        BackendChoice::LlamaServer(LlamaCppMode::Rocm) => "llama.cpp server ROCm/HIP"@,
        BackendChoice::LlamaServer(LlamaCppMode::Vulkan) => "llama.cpp server Vulkan"@,
        BackendChoice::LlamaServer(LlamaCppMode::Metal) => "llama.cpp server Metal"@,
        BackendChoice::LlamaServer(LlamaCppMode::Cpu) => "llama.cpp server CPU"@,
        BackendChoice::LlamaFast(LlamaCppMode::Cuda) => "llama.cpp legacy FFI CUDA"@,
        BackendChoice::LlamaFast(LlamaCppMode::Rocm) => "llama.cpp legacy FFI ROCm"@,
        BackendChoice::LlamaFast(LlamaCppMode::Vulkan) => "llama.cpp legacy FFI Vulkan"@,
        BackendChoice::LlamaFast(LlamaCppMode::Metal) => "llama.cpp legacy FFI Metal"@,
        BackendChoice::LlamaFast(LlamaCppMode::Cpu) => "llama.cpp legacy FFI CPU"@,
        BackendChoice::LlamaHighlevel(LlamaCppMode::Cuda) => "llama.cpp high-level CUDA"@,
        BackendChoice::LlamaHighlevel(LlamaCppMode::Rocm) => "llama.cpp high-level ROCm"@,
        BackendChoice::LlamaHighlevel(LlamaCppMode::Vulkan) => "llama.cpp high-level Vulkan"@,
        BackendChoice::LlamaHighlevel(LlamaCppMode::Metal) => "llama.cpp high-level Metal"@,
        BackendChoice::LlamaHighlevel(LlamaCppMode::Cpu) => "llama.cpp high-level CPU"@,
    }
}

pub fn verbose_backend_label(backend: BackendChoice) -> (r: &'static str)
    ensures
        r@ == backend_title(backend),
{
    match backend {
        BackendChoice::Auto => "auto",
        BackendChoice::GgufPreferred { llama: LlamaCppMode::Cuda, .. } => "llama.cpp server CUDA",
        BackendChoice::GgufPreferred { llama: LlamaCppMode::Rocm, .. } => "llama.cpp server ROCm/HIP",
        BackendChoice::GgufPreferred { llama: LlamaCppMode::Cpu, .. } => "llama.cpp server CPU",
        BackendChoice::GgufPreferred { llama: LlamaCppMode::Vulkan, .. } => "llama.cpp server Vulkan",
        BackendChoice::GgufPreferred { llama: LlamaCppMode::Metal, .. } => "llama.cpp server Metal",
        BackendChoice::Candle(CandleDeviceMode::Auto) => "Candle auto",
        BackendChoice::Burn(BurnMode::Cuda) => "Burn CUDA",
        BackendChoice::Burn(BurnMode::Cpu) => "Burn CPU",
        BackendChoice::Candle(CandleDeviceMode::Cpu) => "Candle CPU",
        BackendChoice::Candle(CandleDeviceMode::Cuda) => "Candle CUDA",
        BackendChoice::Candle(CandleDeviceMode::Metal) => "Candle Metal",
        BackendChoice::Mlx => "MLX",
        BackendChoice::MlxVlm => "MLX-VLM",
        BackendChoice::OnnxRuntime(OnnxRuntimeMode::Cuda) => "ONNX Runtime CUDA",
        BackendChoice::OnnxRuntime(OnnxRuntimeMode::Rocm) => "ONNX Runtime ROCm",
        BackendChoice::OnnxRuntime(OnnxRuntimeMode::Cpu) => "ONNX Runtime CPU",
        BackendChoice::TransformersCompat => "Transformers compatibility",
        BackendChoice::Vllm => "vLLM CUDA",
        BackendChoice::VllmRocm => "vLLM ROCm",
        BackendChoice::LlamaServer(LlamaCppMode::Cuda) => "llama.cpp server CUDA",
        BackendChoice::LlamaServer(LlamaCppMode::Rocm) => "llama.cpp server ROCm/HIP",
        BackendChoice::LlamaServer(LlamaCppMode::Vulkan) => "llama.cpp server Vulkan",
        BackendChoice::LlamaServer(LlamaCppMode::Metal) => "llama.cpp server Metal",
        BackendChoice::LlamaServer(LlamaCppMode::Cpu) => "llama.cpp server CPU",
        BackendChoice::LlamaFast(LlamaCppMode::Cuda) => "llama.cpp legacy FFI CUDA",
        BackendChoice::LlamaFast(LlamaCppMode::Rocm) => "llama.cpp legacy FFI ROCm",
        BackendChoice::LlamaFast(LlamaCppMode::Vulkan) => "llama.cpp legacy FFI Vulkan",
        BackendChoice::LlamaFast(LlamaCppMode::Metal) => "llama.cpp legacy FFI Metal",
        BackendChoice::LlamaFast(LlamaCppMode::Cpu) => "llama.cpp legacy FFI CPU",
        BackendChoice::LlamaHighlevel(LlamaCppMode::Cuda) => "llama.cpp high-level CUDA",
        BackendChoice::LlamaHighlevel(LlamaCppMode::Rocm) => "llama.cpp high-level ROCm",
        BackendChoice::LlamaHighlevel(LlamaCppMode::Vulkan) => "llama.cpp high-level Vulkan",
        BackendChoice::LlamaHighlevel(LlamaCppMode::Metal) => "llama.cpp high-level Metal",
        BackendChoice::LlamaHighlevel(LlamaCppMode::Cpu) => "llama.cpp high-level CPU",
    }
}

/// The name of a format in messages.
pub open spec fn format_title(format: ModelFormat) -> Seq<char> {
    match format {
        ModelFormat::Gguf => "Gguf"@,
        ModelFormat::SafeTensors => "SafeTensors"@,
        ModelFormat::PyTorch => "PyTorch"@,
        ModelFormat::Onnx => "Onnx"@,
        ModelFormat::Mlx => "Mlx"@,
        ModelFormat::TensorRt => "TensorRt"@,
        ModelFormat::OpenVino => "OpenVino"@,
        ModelFormat::TensorFlow => "TensorFlow"@,
        ModelFormat::CoreMl => "CoreMl"@,
        ModelFormat::Unknown => "Unknown"@,
    }
}

pub fn format_debug_name(format: ModelFormat) -> (r: &'static str)
    ensures
        r@ == format_title(format),
{
    match format {
        ModelFormat::Gguf => "Gguf",
        ModelFormat::SafeTensors => "SafeTensors",
        ModelFormat::PyTorch => "PyTorch",
        ModelFormat::Onnx => "Onnx",
        ModelFormat::Mlx => "Mlx",
        ModelFormat::TensorRt => "TensorRt",
        ModelFormat::OpenVino => "OpenVino",
        ModelFormat::TensorFlow => "TensorFlow",
        ModelFormat::CoreMl => "CoreMl",
        ModelFormat::Unknown => "Unknown",
    }
}

pub open spec fn yes_no_text(value: bool) -> Seq<char> {
    if value {
        "yes"@
    } else {
        "no"@
    }
}

pub fn yes_no(value: bool) -> (r: &'static str)
    ensures
        r@ == yes_no_text(value),
{
    if value {
        "yes"
    } else {
        "no"
    }
}

/// The runtimes that this build has, or a word for none.
pub open spec fn compiled_runtimes(host: Host) -> Seq<Seq<char>> {
    let none = Seq::<Seq<char>>::empty();
    (if host.burn_cuda {
        seq!["burn-cuda"@]
    } else {
        none
    }) + (if host.burn_cpu {
        seq!["burn-cpu"@]
    } else {
        none
    }) + (if host.candle_cuda {
        seq!["candle-cuda"@]
    } else {
        none
    }) + (if host.llama_legacy_cuda {
        seq!["llama-legacy-cuda"@]
    } else {
        none
    }) + (if host.llama_legacy_vulkan {
        seq!["llama-legacy-vulkan"@]
    } else {
        none
    }) + (if host.metal {
        seq!["metal"@]
    } else {
        none
    })
}

fn push_if(list: &mut Vec<String>, wanted: bool, name: &str)
    ensures
        views(final(list)@) == views(old(list)@) + (if wanted {
            seq![name@]
        } else {
            Seq::empty()
        }),
{
    let ghost before = views(list@);
    if wanted {
        list.push(name.to_owned());
        assert(views(list@) =~= before + seq![name@]);
    } else {
        assert(before + Seq::<Seq<char>>::empty() =~= before);
    }
}

pub open spec fn runtime_summary(host: Host) -> Seq<char> {
    if compiled_runtimes(host).len() == 0 {
        "cpu/minimal"@
    } else {
        joined(compiled_runtimes(host), ", "@)
    }
}

pub fn compiled_runtime_summary(host: Host) -> (r: String)
    ensures
        r@ == runtime_summary(host),
{
    let mut features: Vec<String> = Vec::new();
    assert(views(features@) =~= Seq::<Seq<char>>::empty());
    push_if(&mut features, host.burn_cuda, "burn-cuda");
    push_if(&mut features, host.burn_cpu, "burn-cpu");
    push_if(&mut features, host.candle_cuda, "candle-cuda");
    push_if(&mut features, host.llama_legacy_cuda, "llama-legacy-cuda");
    push_if(&mut features, host.llama_legacy_vulkan, "llama-legacy-vulkan");
    push_if(&mut features, host.metal, "metal");
    assert(views(features@) =~= compiled_runtimes(host));
    if features.len() == 0 {
        "cpu/minimal".to_owned()
    } else {
        join_strings(&features, ", ")
    }
}

/// Where vLLM cannot be installed by the program, its target is not offered:
/// outside Linux, on ARM64, and on Strix Halo.
pub open spec fn offered_target(
    target: Option<Seq<char>>,
    operating_system: Seq<char>,
    architecture: Seq<char>,
    strix_halo: bool,
) -> Option<Seq<char>> {
    if target == Some("vllm"@) && (operating_system != "linux"@ || architecture == "aarch64"@
        || strix_halo) {
        None
    } else {
        target
    }
}

pub fn runtime_install_target_for_platform<'a>(
    target: Option<&'a str>,
    operating_system: &str,
    architecture: &str,
    strix_halo: bool,
) -> (r: Option<&'a str>)
    ensures
        opt_str_view(r) == offered_target(
            opt_str_view(target),
            operating_system@,
            architecture@,
            strix_halo,
        ),
{
    if let Some(name) = target {
        if str_eq(name, "vllm") && (!str_eq(operating_system, "linux") || str_eq(
            architecture,
            "aarch64",
        ) || strix_halo) {
            return None;
        }
    }
    target
}

/// Only Metal servers are installed without being asked for, and only on a Mac.
pub fn should_auto_install_llama_server(mode: LlamaCppMode, host: Host) -> (r: bool)
    ensures
        r == (host.macos && mode is Metal),
{
    host.macos && mode == LlamaCppMode::Metal
}

// ---------------------------------------------------------------------------
// Benchmarks
// ---------------------------------------------------------------------------

/// The llama.cpp server, and the legacy binding beside it where that is asked
/// for.
pub open spec fn llama_benchmarks(mode: LlamaCppMode, compare: BenchCompareArg) -> Seq<
    BackendChoice,
> {
    if compare is Legacy {
        seq![BackendChoice::LlamaServer(mode), BackendChoice::LlamaFast(mode)]
    } else {
        seq![BackendChoice::LlamaServer(mode)]
    }
}

pub fn benchmark_llama_choices(mode: LlamaCppMode, compare: BenchCompareArg) -> (r: Vec<
    BackendChoice,
>)
    ensures
        r@ == llama_benchmarks(mode, compare),
{
    let mut choices: Vec<BackendChoice> = Vec::new();
    choices.push(BackendChoice::LlamaServer(mode));
    if compare == BenchCompareArg::Legacy {
        choices.push(BackendChoice::LlamaFast(mode));
    }
    assert(choices@ =~= llama_benchmarks(mode, compare));
    choices
}

/// The backends that a benchmark of a model runs.
pub open spec fn benchmarks(
    choice: BackendChoice,
    format: ModelFormat,
    compare: BenchCompareArg,
    host: Host,
) -> Seq<BackendChoice> {
    if !(format is Gguf) {
        seq![choice]
    } else {
        match choice {
            BackendChoice::Auto => llama_benchmarks(llama_preference(host), compare),
            BackendChoice::GgufPreferred { llama, .. } => llama_benchmarks(llama, compare),
            BackendChoice::LlamaServer(llama) => llama_benchmarks(llama, compare),
            _ => seq![choice],
        }
    }
}

pub fn benchmark_choices(
    choice: BackendChoice,
    format: ModelFormat,
    compare: BenchCompareArg,
    host: Host,
) -> (r: Vec<BackendChoice>)
    ensures
        r@ == benchmarks(choice, format, compare, host),
{
    if format == ModelFormat::Gguf {
        match choice {
            BackendChoice::Auto => {
                return benchmark_llama_choices(preferred_llama_mode(host), compare);
            },
            BackendChoice::GgufPreferred { llama, .. } => {
                return benchmark_llama_choices(llama, compare);
            },
            BackendChoice::LlamaServer(llama) => {
                return benchmark_llama_choices(llama, compare);
            },
            _ => {},
        }
    }
    let mut choices: Vec<BackendChoice> = Vec::new();
    choices.push(choice);
    assert(choices@ =~= seq![choice]);
    choices
}

// ---------------------------------------------------------------------------
// What the names stand for
// ---------------------------------------------------------------------------

/// How an accelerator is written in the name of a backend.
pub open spec fn accelerator_word(accelerator: BackendAccelerator) -> Seq<char> {
    match accelerator {
        BackendAccelerator::Auto => "auto"@,
        BackendAccelerator::Cpu => "cpu"@,
        BackendAccelerator::Cuda => "cuda"@,
        BackendAccelerator::Rocm => "rocm"@,
        BackendAccelerator::Vulkan => "vulkan"@,
        BackendAccelerator::Metal => "metal"@,
        BackendAccelerator::Mlx => "mlx"@,
    }
}

/// The name of a backend is that of its software and of the accelerator that it runs on.
pub proof fn names_tell_software_and_accelerator(
    llama: LlamaCppMode,
    onnx: OnnxRuntimeMode,
    burn: BurnMode,
    candle: CandleDeviceMode,
    label: Seq<char>,
)
    ensures
        ({
            let b = BackendChoice::LlamaServer(llama);
            backend_name(b, label) == "llama-server-"@ + accelerator_word(accelerator_of(b))
        }),
        ({
            let b = BackendChoice::LlamaFast(llama);
            backend_name(b, label) == "llama-legacy-"@ + accelerator_word(accelerator_of(b))
        }),
        ({
            let b = BackendChoice::OnnxRuntime(onnx);
            backend_name(b, label) == "onnxruntime-"@ + accelerator_word(accelerator_of(b))
        }),
        ({
            let b = BackendChoice::Burn(burn);
            backend_name(b, label) == "burn-"@ + accelerator_word(accelerator_of(b))
        }),
        ({
            let b = BackendChoice::Candle(candle);
            candle is Metal || backend_name(b, label) == "candle-"@ + accelerator_word(
                accelerator_of(b),
            )
        }),
        backend_name(BackendChoice::Candle(CandleDeviceMode::Metal), label) == "metal"@,
        backend_name(BackendChoice::LlamaHighlevel(llama), label) == label,
        backend_name(BackendChoice::GgufPreferred { llama, candle }, label) == accelerator_word(
            accelerator_of(BackendChoice::LlamaServer(llama)),
        ),
        backend_title(BackendChoice::LlamaServer(llama)) == "llama.cpp server "@ + llama_mode_name(
            llama,
        ),
        backend_title(BackendChoice::GgufPreferred { llama, candle }) == backend_title(
            BackendChoice::LlamaServer(llama),
        ),
{
    reveal_strlit("cuda");
    reveal_strlit("rocm");
    reveal_strlit("vulkan");
    reveal_strlit("metal");
    reveal_strlit("cpu");
    reveal_strlit("llama-server-");
    reveal_strlit("llama-legacy-");
    reveal_strlit("onnxruntime-");
    reveal_strlit("candle-");
    reveal_strlit("burn-");
    reveal_strlit("auto");
    reveal_strlit("llama-server-cuda");
    reveal_strlit("llama-server-rocm");
    reveal_strlit("llama-server-vulkan");
    reveal_strlit("llama-server-metal");
    reveal_strlit("llama-server-cpu");
    reveal_strlit("llama-legacy-cuda");
    reveal_strlit("llama-legacy-rocm");
    reveal_strlit("llama-legacy-vulkan");
    reveal_strlit("llama-legacy-metal");
    reveal_strlit("llama-legacy-cpu");
    reveal_strlit("onnxruntime-cuda");
    reveal_strlit("onnxruntime-rocm");
    reveal_strlit("onnxruntime-cpu");
    reveal_strlit("candle-auto");
    reveal_strlit("candle-cpu");
    reveal_strlit("candle-cuda");
    reveal_strlit("burn-cuda");
    reveal_strlit("burn-cpu");
    assert("llama-server-"@ + "cuda"@ =~= "llama-server-cuda"@);
    assert("llama-server-"@ + "rocm"@ =~= "llama-server-rocm"@);
    assert("llama-server-"@ + "vulkan"@ =~= "llama-server-vulkan"@);
    assert("llama-server-"@ + "metal"@ =~= "llama-server-metal"@);
    assert("llama-server-"@ + "cpu"@ =~= "llama-server-cpu"@);
    assert("llama-legacy-"@ + "cuda"@ =~= "llama-legacy-cuda"@);
    assert("llama-legacy-"@ + "rocm"@ =~= "llama-legacy-rocm"@);
    assert("llama-legacy-"@ + "vulkan"@ =~= "llama-legacy-vulkan"@);
    assert("llama-legacy-"@ + "metal"@ =~= "llama-legacy-metal"@);
    assert("llama-legacy-"@ + "cpu"@ =~= "llama-legacy-cpu"@);
    assert("onnxruntime-"@ + "cuda"@ =~= "onnxruntime-cuda"@);
    assert("onnxruntime-"@ + "rocm"@ =~= "onnxruntime-rocm"@);
    assert("onnxruntime-"@ + "cpu"@ =~= "onnxruntime-cpu"@);
    assert("candle-"@ + "auto"@ =~= "candle-auto"@);
    assert("candle-"@ + "cpu"@ =~= "candle-cpu"@);
    assert("candle-"@ + "cuda"@ =~= "candle-cuda"@);
    assert("burn-"@ + "cuda"@ =~= "burn-cuda"@);
    assert("burn-"@ + "cpu"@ =~= "burn-cpu"@);
    reveal_strlit("CUDA");
    reveal_strlit("ROCm/HIP");
    reveal_strlit("Vulkan");
    reveal_strlit("Metal");
    reveal_strlit("CPU");
    reveal_strlit("llama.cpp server ");
    reveal_strlit("llama.cpp server CUDA");
    reveal_strlit("llama.cpp server ROCm/HIP");
    reveal_strlit("llama.cpp server Vulkan");
    reveal_strlit("llama.cpp server Metal");
    reveal_strlit("llama.cpp server CPU");
    assert("llama.cpp server "@ + "CUDA"@ =~= "llama.cpp server CUDA"@);
    assert("llama.cpp server "@ + "ROCm/HIP"@ =~= "llama.cpp server ROCm/HIP"@);
    assert("llama.cpp server "@ + "Vulkan"@ =~= "llama.cpp server Vulkan"@);
    assert("llama.cpp server "@ + "Metal"@ =~= "llama.cpp server Metal"@);
    assert("llama.cpp server "@ + "CPU"@ =~= "llama.cpp server CPU"@);
}

/// A backend runs on the accelerator that it is made for, and so does the runtime that
/// it comes from.
pub proof fn backends_run_on_their_accelerators(
    llama: LlamaCppMode,
    onnx: OnnxRuntimeMode,
    burn: BurnMode,
    candle: CandleDeviceMode,
)
    ensures
        forall|b: BackendChoice| #[trigger]
            accelerator_of(b) is Cuda <==> b == BackendChoice::Candle(CandleDeviceMode::Cuda) || b
                == BackendChoice::Burn(BurnMode::Cuda) || b == BackendChoice::LlamaServer(
                LlamaCppMode::Cuda,
            ) || b == BackendChoice::LlamaFast(LlamaCppMode::Cuda) || b
                == BackendChoice::LlamaHighlevel(LlamaCppMode::Cuda) || b
                == BackendChoice::OnnxRuntime(OnnxRuntimeMode::Cuda) || b is Vllm,
        forall|b: BackendChoice| #[trigger]
            accelerator_of(b) is Rocm <==> b == BackendChoice::LlamaServer(LlamaCppMode::Rocm) || b
                == BackendChoice::LlamaFast(LlamaCppMode::Rocm) || b
                == BackendChoice::LlamaHighlevel(LlamaCppMode::Rocm) || b
                == BackendChoice::OnnxRuntime(OnnxRuntimeMode::Rocm) || b is VllmRocm,
        forall|b: BackendChoice| #[trigger]
            accelerator_of(b) is Mlx <==> b is Mlx || b is MlxVlm,
        forall|b: BackendChoice| #[trigger]
            accelerator_of(b) is Auto <==> b is Auto || b is GgufPreferred || b
                == BackendChoice::Candle(CandleDeviceMode::Auto) || b is TransformersCompat,
        accelerator_of(BackendChoice::LlamaServer(llama)) == accelerator_of(
            BackendChoice::LlamaFast(llama),
        ),
        accelerator_of(BackendChoice::LlamaServer(llama)) == accelerator_of(
            BackendChoice::LlamaHighlevel(llama),
        ),
        accelerator_of(BackendChoice::LlamaServer(llama)) is Metal <==> llama is Metal,
        accelerator_of(BackendChoice::LlamaServer(llama)) is Vulkan <==> llama is Vulkan,
        accelerator_of(BackendChoice::LlamaServer(llama)) is Cpu <==> llama is Cpu,
        accelerator_of(BackendChoice::OnnxRuntime(onnx)) is Cpu <==> onnx is Cpu,
        accelerator_of(BackendChoice::Burn(burn)) is Cpu <==> burn is Cpu,
        accelerator_of(BackendChoice::Candle(candle)) is Cpu <==> candle is Cpu,
        accelerator_of(BackendChoice::Candle(candle)) is Metal <==> candle is Metal,
{
}

/// A runtime brings its own software, on its own accelerator.
pub proof fn runtimes_bring_their_software(id: RuntimeId)
    ensures
        backend_of_runtime(id) matches Some(b) ==> {
            &&& software_of(b) is LlamaServer <==> id is LlamaServerCuda || id is LlamaServerRocm
                || id is LlamaServerVulkan || id is LlamaServerMetal || id is LlamaServerCpu
            &&& software_of(b) is Candle <==> id is CandleCuda || id is CandleMetal || id
                is CandleCpu
            &&& software_of(b) is Burn <==> id is BurnCuda || id is BurnCpu
            &&& software_of(b) is OnnxRuntime <==> id is OnnxRuntimeCuda || id is OnnxRuntimeRocm
                || id is OnnxRuntimeCpu
            &&& software_of(b) is Vllm <==> id is VllmCuda || id is VllmRocm
            &&& software_of(b) is Mlx <==> id is Mlx
            &&& software_of(b) is MlxVlm <==> id is MlxVlm
            &&& software_of(b) is TransformersCompat <==> id is TransformersCompat
            &&& accelerator_of(b) is Cuda <==> id is LlamaServerCuda || id is CandleCuda || id
                is BurnCuda || id is OnnxRuntimeCuda || id is VllmCuda
            &&& accelerator_of(b) is Rocm <==> id is LlamaServerRocm || id is OnnxRuntimeRocm || id
                is VllmRocm
            &&& accelerator_of(b) is Vulkan <==> id is LlamaServerVulkan
            &&& accelerator_of(b) is Metal <==> id is LlamaServerMetal || id is CandleMetal
            &&& accelerator_of(b) is Cpu <==> id is LlamaServerCpu || id is CandleCpu || id
                is BurnCpu || id is OnnxRuntimeCpu
        },
        backend_of_runtime(id) is None <==> id is MediaCompanionCuda || id is MediaCompanionRocm
            || id is MediaCompanionMetal || id is MediaCompanionCpu,
{
}

/// What is asked for by the name of an accelerator is asked of that accelerator, for
/// both the software of one format and that of the others.
pub proof fn arguments_ask_for_what_they_name(backend: BackendArg, host: Host)
    ensures
        request_of(choice_of(BackendArg::Auto, host)) is Auto,
        request_of(choice_of(BackendArg::Cpu, host)) is Cpu,
        request_of(choice_of(BackendArg::Cuda, host)) is Cuda,
        request_of(choice_of(BackendArg::Metal, host)) is Metal,
        request_of(choice_of(BackendArg::Rocm, host)) is Rocm,
        request_of(choice_of(BackendArg::Vulkan, host)) is Vulkan,
        request_of(choice_of(BackendArg::Burn, host)) is Burn,
        request_of(choice_of(BackendArg::Candle, host)) is Candle,
        request_of(choice_of(BackendArg::Mlx, host)) is Mlx,
        request_of(choice_of(BackendArg::Transformers, host)) is Transformers,
        request_of(choice_of(BackendArg::Vllm, host)) is Vllm,
        request_of(choice_of(BackendArg::LlamaHighlevel, host)) is LlamaHighlevel,
        request_of(choice_of(BackendArg::LlamaLegacy, host)) is LlamaLegacy,
        software_of(choice_of(BackendArg::Onnx, host)) is OnnxRuntime,
        choice_of(backend, host) matches BackendChoice::GgufPreferred { llama, candle } ==> {
            ||| candle is Auto
            ||| accelerator_of(BackendChoice::LlamaServer(llama)) == accelerator_of(
                BackendChoice::Candle(candle),
            )
        },
        choice_of(backend, host) is GgufPreferred <==> backend is Cpu || backend is Cuda || backend
            is Metal || backend is Rocm || backend is Vulkan,
{
}

/// What a machine prefers is what it can do: nothing is preferred that was not built in
/// or is not to be had there.
pub proof fn machines_prefer_what_they_have(host: Host)
    ensures
        host.macos <==> llama_preference(host) is Metal,
        llama_preference(host) is Cuda ==> host.llama_legacy_cuda,
        llama_preference(host) is Vulkan ==> host.llama_legacy_vulkan && !host.llama_legacy_cuda,
        llama_preference(host) is Cpu <==> !host.macos && !host.llama_legacy_cuda
            && !host.llama_legacy_vulkan,
        !(llama_preference(host) is Rocm),
        burn_preference(host) is Cuda ==> host.burn_cuda && (host.windows || host.linux),
        host.burn_cuda && host.linux ==> burn_preference(host) is Cuda,
        host.burn_cuda && host.windows ==> burn_preference(host) is Cuda,
        onnx_preference(host) is Cuda <==> host.windows || host.linux,
        !(onnx_preference(host) is Rocm),
{
}

/// A runtime is listed exactly where it was built in.
pub proof fn built_in_runtimes_are_listed(host: Host)
    ensures
        compiled_runtimes(host).contains("burn-cuda"@) <==> host.burn_cuda,
        compiled_runtimes(host).contains("burn-cpu"@) <==> host.burn_cpu,
        compiled_runtimes(host).contains("candle-cuda"@) <==> host.candle_cuda,
        compiled_runtimes(host).contains("llama-legacy-cuda"@) <==> host.llama_legacy_cuda,
        compiled_runtimes(host).contains("llama-legacy-vulkan"@) <==> host.llama_legacy_vulkan,
        compiled_runtimes(host).contains("metal"@) <==> host.metal,
        runtime_summary(host) == "cpu/minimal"@ || runtime_summary(host) == joined(
            compiled_runtimes(host),
            ", "@,
        ),
        host.metal ==> runtime_summary(host) == joined(compiled_runtimes(host), ", "@),
{
    reveal_strlit("burn-cuda");
    reveal_strlit("burn-cpu");
    reveal_strlit("candle-cuda");
    reveal_strlit("llama-legacy-cuda");
    reveal_strlit("llama-legacy-vulkan");
    reveal_strlit("metal");
    assert("burn-cuda"@.len() == 9 && "burn-cpu"@.len() == 8 && "candle-cuda"@.len() == 11
        && "llama-legacy-cuda"@.len() == 17 && "llama-legacy-vulkan"@.len() == 19
        && "metal"@.len() == 5);
    let none = Seq::<Seq<char>>::empty();
    let a = if host.burn_cuda {
        seq!["burn-cuda"@]
    } else {
        none
    };
    let b = if host.burn_cpu {
        seq!["burn-cpu"@]
    } else {
        none
    };
    let c = if host.candle_cuda {
        seq!["candle-cuda"@]
    } else {
        none
    };
    let d = if host.llama_legacy_cuda {
        seq!["llama-legacy-cuda"@]
    } else {
        none
    };
    let e = if host.llama_legacy_vulkan {
        seq!["llama-legacy-vulkan"@]
    } else {
        none
    };
    let f = if host.metal {
        seq!["metal"@]
    } else {
        none
    };
    assert(compiled_runtimes(host) == a + b + c + d + e + f);
    assert forall|x: Seq<char>| #[trigger]
        compiled_runtimes(host).contains(x) <==> a.contains(x) || b.contains(x) || c.contains(x)
            || d.contains(x) || e.contains(x) || f.contains(x) by {
        let all = compiled_runtimes(host);
        let n1 = a.len() as int;
        let n2 = n1 + b.len();
        let n3 = n2 + c.len();
        let n4 = n3 + d.len();
        let n5 = n4 + e.len();
        if a.contains(x) {
            assert(all[0] == x);
        }
        if b.contains(x) {
            assert(all[n1] == x);
        }
        if c.contains(x) {
            assert(all[n2] == x);
        }
        if d.contains(x) {
            assert(all[n3] == x);
        }
        if e.contains(x) {
            assert(all[n4] == x);
        }
        if f.contains(x) {
            assert(all[n5] == x);
        }
    }
    if host.burn_cuda {
        assert(a[0] == "burn-cuda"@);
    }
    if host.burn_cpu {
        assert(b[0] == "burn-cpu"@);
    }
    if host.candle_cuda {
        assert(c[0] == "candle-cuda"@);
    }
    if host.llama_legacy_cuda {
        assert(d[0] == "llama-legacy-cuda"@);
    }
    if host.llama_legacy_vulkan {
        assert(e[0] == "llama-legacy-vulkan"@);
    }
    if host.metal {
        assert(f[0] == "metal"@);
    }
}

/// A runtime for Linux is offered there alone, and not on every machine; every other is
/// offered everywhere.
pub proof fn targets_are_offered_where_they_run(
    target: Option<Seq<char>>,
    system: Seq<char>,
    architecture: Seq<char>,
    strix_halo: bool,
)
    ensures
        target != Some("vllm"@) ==> offered_target(target, system, architecture, strix_halo)
            == target,
        offered_target(Some("vllm"@), system, architecture, strix_halo) is Some <==> system
            == "linux"@ && architecture != "aarch64"@ && !strix_halo,
        offered_target(target, system, architecture, strix_halo) is Some ==> offered_target(
            target,
            system,
            architecture,
            strix_halo,
        ) == target,
{
}

/// A benchmark runs what was chosen; a family of backends is run as its server, and
/// beside it what it is held against.
pub proof fn benchmarks_run_what_was_chosen(
    choice: BackendChoice,
    format: ModelFormat,
    compare: BenchCompareArg,
    host: Host,
    mode: LlamaCppMode,
    candle: CandleDeviceMode,
)
    ensures
        !(format is Gguf) ==> benchmarks(choice, format, compare, host) == seq![choice],
        !(choice is Auto) && !(choice is GgufPreferred) && !(choice is LlamaServer) ==> benchmarks(
            choice,
            format,
            compare,
            host,
        ) == seq![choice],
        ({
            let family = BackendChoice::GgufPreferred { llama: mode, candle };
            let all = benchmarks(family, ModelFormat::Gguf, compare, host);
            &&& all == benchmarks(
                BackendChoice::LlamaServer(mode),
                ModelFormat::Gguf,
                compare,
                host,
            )
            &&& all[0] == BackendChoice::LlamaServer(mode)
            &&& compare is Legacy <==> all.len() == 2
            &&& all.len() == 2 ==> all[1] == BackendChoice::LlamaFast(mode)
            &&& all.len() == 1 || all.len() == 2
        }),
        benchmarks(BackendChoice::Auto, ModelFormat::Gguf, compare, host) == benchmarks(
            BackendChoice::LlamaServer(llama_preference(host)),
            ModelFormat::Gguf,
            compare,
            host,
        ),
{
}

} // verus!

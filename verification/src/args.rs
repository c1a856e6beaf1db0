//! What the command line can say: the choices of the options, and the commands
//! with what the rest of the crate reads of them.

use vstd::prelude::*;

use crate::manifest::InferenceTask;
use crate::text::{is_blank, opt_str_view, str_trim, trimmed, views};

verus! {

#[derive(Clone, Copy, Debug, PartialEq, Eq, Structural)]
pub enum DeviceArg {
    Auto,
    Cpu,
    Cuda,
    Metal,
}

/// The device that the Candle backend runs on.
#[derive(Clone, Copy, Debug, PartialEq, Eq, Structural)]
pub enum CandleDeviceMode {
    Auto,
    Cpu,
    Cuda,
    Metal,
}

impl From<DeviceArg> for CandleDeviceMode {
    fn from(value: DeviceArg) -> (r: Self) {
        match value {
            DeviceArg::Auto => CandleDeviceMode::Auto,
            DeviceArg::Cpu => CandleDeviceMode::Cpu,
            DeviceArg::Cuda => CandleDeviceMode::Cuda,
            DeviceArg::Metal => CandleDeviceMode::Metal,
        }
    }
}

impl vstd::std_specs::convert::FromSpecImpl<DeviceArg> for CandleDeviceMode {
    open spec fn obeys_from_spec() -> bool {
        true
    }

    open spec fn from_spec(value: DeviceArg) -> Self {
        match value {
            DeviceArg::Auto => CandleDeviceMode::Auto,
            DeviceArg::Cpu => CandleDeviceMode::Cpu,
            DeviceArg::Cuda => CandleDeviceMode::Cuda,
            DeviceArg::Metal => CandleDeviceMode::Metal,
        }
    }
}

pub open spec fn device_name(device: DeviceArg) -> Seq<char> {
    match device {
        DeviceArg::Auto => "auto"@,
        DeviceArg::Cpu => "cpu"@,
        DeviceArg::Cuda => "cuda"@,
        DeviceArg::Metal => "metal"@,
    }
}

pub fn device_arg_label(device: DeviceArg) -> (r: &'static str)
    ensures
        r@ == device_name(device),
{
    match device {
        DeviceArg::Auto => "auto",
        DeviceArg::Cpu => "cpu",
        DeviceArg::Cuda => "cuda",
        DeviceArg::Metal => "metal",
    }
}

#[derive(Clone, Copy, Debug, PartialEq, Eq, Structural)]
pub enum StreamGranularityArg {
    Token,
    Chunk,
}

/// How finely generated text is handed out.
#[derive(Clone, Copy, Debug, PartialEq, Eq, Structural)]
pub enum StreamGranularity {
    Token,
    Chunk,
}

impl From<StreamGranularityArg> for StreamGranularity {
    fn from(value: StreamGranularityArg) -> (r: Self) {
        match value {
            StreamGranularityArg::Token => StreamGranularity::Token,
            StreamGranularityArg::Chunk => StreamGranularity::Chunk,
        }
    }
}

impl vstd::std_specs::convert::FromSpecImpl<StreamGranularityArg> for StreamGranularity {
    open spec fn obeys_from_spec() -> bool {
        true
    }

    open spec fn from_spec(value: StreamGranularityArg) -> Self {
        match value {
            StreamGranularityArg::Token => StreamGranularity::Token,
            StreamGranularityArg::Chunk => StreamGranularity::Chunk,
        }
    }
}

/// The chat template to use. `NoTemplate` turns templating off.
#[derive(Clone, Copy, Debug, PartialEq, Eq, Structural)]
pub enum ChatTemplateArg {
    Model,
    Generic,
    Phi3,
    Llama3,
    Gemma,
    Chatml,
    QwenChatml,
    NoTemplate,
}

impl ChatTemplateArg {
    pub open spec fn name(self) -> Seq<char> {
        match self {
            ChatTemplateArg::Model => "model"@,
            ChatTemplateArg::Generic => "generic"@,
            ChatTemplateArg::Phi3 => "phi3"@,
            ChatTemplateArg::Llama3 => "llama3"@,
            ChatTemplateArg::Gemma => "gemma"@,
            ChatTemplateArg::Chatml => "chatml"@,
            ChatTemplateArg::QwenChatml => "qwen-chatml"@,
            ChatTemplateArg::NoTemplate => "none"@,
        }
    }

    pub fn template_name(self) -> (r: &'static str)
        ensures
            r@ == self.name(),
    {
        match self {
            ChatTemplateArg::Model => "model",
            ChatTemplateArg::Generic => "generic",
            ChatTemplateArg::Phi3 => "phi3",
            ChatTemplateArg::Llama3 => "llama3",
            ChatTemplateArg::Gemma => "gemma",
            ChatTemplateArg::Chatml => "chatml",
            ChatTemplateArg::QwenChatml => "qwen-chatml",
            ChatTemplateArg::NoTemplate => "none",
        }
    }
}

#[derive(Clone, Copy, Debug, PartialEq, Eq, Structural)]
pub enum BackendArg {
    Auto,
    Burn,
    Candle,
    Cpu,
    Cuda,
    LlamaHighlevel,
    LlamaLegacy,
    Metal,
    Mlx,
    Onnx,
    Rocm,
    Transformers,
    Vllm,
    Vulkan,
}

pub open spec fn backend_arg_name(backend: BackendArg) -> Seq<char> {
    match backend {
        BackendArg::Auto => "auto"@,
        BackendArg::Burn => "burn"@,
        BackendArg::Candle => "candle"@,
        BackendArg::Cpu => "cpu"@,
        BackendArg::Cuda => "cuda"@,
        BackendArg::LlamaHighlevel => "llama-highlevel"@,
        BackendArg::LlamaLegacy => "llama-legacy"@,
        BackendArg::Metal => "metal"@,
        BackendArg::Mlx => "mlx"@,
        BackendArg::Onnx => "onnx"@,
        BackendArg::Rocm => "rocm"@,
        BackendArg::Transformers => "transformers"@,
        BackendArg::Vllm => "vllm"@,
        BackendArg::Vulkan => "vulkan"@,
    }
}

pub fn requested_backend_label(backend: BackendArg) -> (r: &'static str)
    ensures
        r@ == backend_arg_name(backend),
{
    match backend {
        BackendArg::Auto => "auto",
        BackendArg::Burn => "burn",
        BackendArg::Candle => "candle",
        BackendArg::Cpu => "cpu",
        BackendArg::Cuda => "cuda",
        BackendArg::LlamaHighlevel => "llama-highlevel",
        BackendArg::LlamaLegacy => "llama-legacy",
        BackendArg::Metal => "metal",
        BackendArg::Mlx => "mlx",
        BackendArg::Onnx => "onnx",
        BackendArg::Rocm => "rocm",
        BackendArg::Transformers => "transformers",
        BackendArg::Vllm => "vllm",
        BackendArg::Vulkan => "vulkan",
    }
}

#[derive(Clone, Copy, Debug, PartialEq, Eq, Structural)]
pub enum KvCacheTypeArg {
    F16,
    F32,
    Q8_0,
}

/// The element type of the llama.cpp cache.
#[derive(Clone, Copy, Debug, PartialEq, Eq, Structural)]
pub enum LlamaKvCacheType {
    F16,
    F32,
    Q8_0,
}

impl From<KvCacheTypeArg> for LlamaKvCacheType {
    fn from(value: KvCacheTypeArg) -> (r: Self) {
        match value {
            KvCacheTypeArg::F16 => LlamaKvCacheType::F16,
            KvCacheTypeArg::F32 => LlamaKvCacheType::F32,
            KvCacheTypeArg::Q8_0 => LlamaKvCacheType::Q8_0,
        }
    }
}

impl vstd::std_specs::convert::FromSpecImpl<KvCacheTypeArg> for LlamaKvCacheType {
    open spec fn obeys_from_spec() -> bool {
        true
    }

    open spec fn from_spec(value: KvCacheTypeArg) -> Self {
        match value {
            KvCacheTypeArg::F16 => LlamaKvCacheType::F16,
            KvCacheTypeArg::F32 => LlamaKvCacheType::F32,
            KvCacheTypeArg::Q8_0 => LlamaKvCacheType::Q8_0,
        }
    }
}

/// The llama.cpp options as the command line gives them.
#[derive(Clone, Copy, Debug, PartialEq, Eq, Structural)]
pub struct LlamaRuntimeArgs {
    pub ctx_size: Option<usize>,
    pub batch_size: Option<u32>,
    pub ubatch_size: Option<u32>,
    pub gpu_layers: Option<i32>,
    pub main_gpu: Option<i32>,
    pub kv_cache_type: Option<KvCacheTypeArg>,
    pub flash_attn: Option<bool>,
    pub kv_offload: Option<bool>,
    pub warmup_tokens: Option<usize>,
    pub threads: Option<u32>,
    pub threads_batch: Option<u32>,
}

/// The llama.cpp options as the runtime takes them.
#[derive(Clone, Copy, Debug, PartialEq, Eq, Structural)]
pub struct LlamaRuntimeOptions {
    pub ctx_size: Option<usize>,
    pub batch_size: Option<usize>,
    pub ubatch_size: Option<u32>,
    pub gpu_layers: Option<i32>,
    pub main_gpu: Option<i32>,
    pub kv_cache_type: Option<LlamaKvCacheType>,
    pub flash_attn: Option<bool>,
    pub kv_offload: Option<bool>,
    pub warmup_tokens: Option<usize>,
    pub threads: Option<u32>,
    pub threads_batch: Option<u32>,
}

impl Default for LlamaRuntimeArgs {
    fn default() -> (r: Self)
        ensures
            r == (LlamaRuntimeArgs {
                ctx_size: None,
                batch_size: None,
                ubatch_size: None,
                gpu_layers: None,
                main_gpu: None,
                kv_cache_type: None,
                flash_attn: None,
                kv_offload: None,
                warmup_tokens: None,
                threads: None,
                threads_batch: None,
            }),
    {
        LlamaRuntimeArgs {
            ctx_size: None,
            batch_size: None,
            ubatch_size: None,
            gpu_layers: None,
            main_gpu: None,
            kv_cache_type: None,
            flash_attn: None,
            kv_offload: None,
            warmup_tokens: None,
            threads: None,
            threads_batch: None,
        }
    }
}

impl LlamaRuntimeArgs {
    /// The same options, in the types of the runtime.
    pub fn to_options(&self) -> (r: LlamaRuntimeOptions)
        ensures
            r == (LlamaRuntimeOptions {
                ctx_size: self.ctx_size,
                batch_size: match self.batch_size {
                    Some(n) => Some(n as usize),
                    None => None,
                },
                ubatch_size: self.ubatch_size,
                gpu_layers: self.gpu_layers,
                main_gpu: self.main_gpu,
                kv_cache_type: match self.kv_cache_type {
                    Some(KvCacheTypeArg::F16) => Some(LlamaKvCacheType::F16),
                    Some(KvCacheTypeArg::F32) => Some(LlamaKvCacheType::F32),
                    Some(KvCacheTypeArg::Q8_0) => Some(LlamaKvCacheType::Q8_0),
                    None => None,
                },
                flash_attn: self.flash_attn,
                kv_offload: self.kv_offload,
                warmup_tokens: self.warmup_tokens,
                threads: self.threads,
                threads_batch: self.threads_batch,
            }),
    {
        let batch_size: Option<usize> = match self.batch_size {
            Some(n) => Some(n as usize),
            None => None,
        };
        let kv_cache_type = match self.kv_cache_type {
            Some(kind) => Some(LlamaKvCacheType::from(kind)),
            None => None,
        };
        LlamaRuntimeOptions {
            ctx_size: self.ctx_size,
            batch_size,
            ubatch_size: self.ubatch_size,
            gpu_layers: self.gpu_layers,
            main_gpu: self.main_gpu,
            kv_cache_type,
            flash_attn: self.flash_attn,
            kv_offload: self.kv_offload,
            warmup_tokens: self.warmup_tokens,
            threads: self.threads,
            threads_batch: self.threads_batch,
        }
    }
}

/// What a benchmark compares with.
#[derive(Clone, Copy, Debug, PartialEq, Eq, Structural)]
pub enum BenchCompareArg {
    Nothing,
    Legacy,
}

/// A variant of llama.cpp.
#[derive(Clone, Copy, Debug, PartialEq, Eq, Structural)]
pub enum LlamaCppMode {
    Cuda,
    Rocm,
    Vulkan,
    Metal,
    Cpu,
}

/// A variant of ONNX Runtime.
#[derive(Clone, Copy, Debug, PartialEq, Eq, Structural)]
pub enum OnnxRuntimeMode {
    Cuda,
    Rocm,
    Cpu,
}

/// A variant of the Burn backend.
#[derive(Clone, Copy, Debug, PartialEq, Eq, Structural)]
pub enum BurnMode {
    Cuda,
    Cpu,
}

#[derive(Clone, Copy, Debug, PartialEq, Eq, Structural)]
pub enum BackendInstallArg {
    LlamaCuda,
    LlamaRocm,
    LlamaVulkan,
    LlamaMetal,
    LlamaCpu,
    OnnxCuda,
    OnnxRocm,
    OnnxCpu,
    Vllm,
    QwenTts,
}

impl BackendInstallArg {
    pub open spec fn llama_mode(self) -> Option<LlamaCppMode> {
        match self {
            BackendInstallArg::LlamaCuda => Some(LlamaCppMode::Cuda),
            BackendInstallArg::LlamaRocm => Some(LlamaCppMode::Rocm),
            BackendInstallArg::LlamaVulkan => Some(LlamaCppMode::Vulkan),
            BackendInstallArg::LlamaMetal => Some(LlamaCppMode::Metal),
            BackendInstallArg::LlamaCpu => Some(LlamaCppMode::Cpu),
            _ => None,
        }
    }

    /// The llama.cpp server to install, if it is one.
    pub fn mode(self) -> (r: Option<LlamaCppMode>)
        ensures
            r == self.llama_mode(),
    {
        match self {
            BackendInstallArg::LlamaCuda => Some(LlamaCppMode::Cuda),
            BackendInstallArg::LlamaRocm => Some(LlamaCppMode::Rocm),
            BackendInstallArg::LlamaVulkan => Some(LlamaCppMode::Vulkan),
            BackendInstallArg::LlamaMetal => Some(LlamaCppMode::Metal),
            BackendInstallArg::LlamaCpu => Some(LlamaCppMode::Cpu),
            _ => None,
        }
    }

    pub open spec fn onnx(self) -> Option<OnnxRuntimeMode> {
        match self {
            BackendInstallArg::OnnxCuda => Some(OnnxRuntimeMode::Cuda),
            BackendInstallArg::OnnxRocm => Some(OnnxRuntimeMode::Rocm),
            BackendInstallArg::OnnxCpu => Some(OnnxRuntimeMode::Cpu),
            _ => None,
        }
    }

    /// The ONNX Runtime to install, if it is one.
    pub fn onnx_mode(self) -> (r: Option<OnnxRuntimeMode>)
        ensures
            r == self.onnx(),
    {
        match self {
            BackendInstallArg::OnnxCuda => Some(OnnxRuntimeMode::Cuda),
            BackendInstallArg::OnnxRocm => Some(OnnxRuntimeMode::Rocm),
            BackendInstallArg::OnnxCpu => Some(OnnxRuntimeMode::Cpu),
            _ => None,
        }
    }
}

/// Every install target is exactly one of: a llama.cpp server, an ONNX Runtime,
/// vLLM, Qwen-TTS.
pub proof fn install_targets_are_disjoint(target: BackendInstallArg)
    ensures
        target.llama_mode() is Some ==> target.onnx() is None && target != BackendInstallArg::Vllm
            && target != BackendInstallArg::QwenTts,
        target.onnx() is Some ==> target.llama_mode() is None && target != BackendInstallArg::Vllm
            && target != BackendInstallArg::QwenTts,
        target.llama_mode() is None && target.onnx() is None ==> target == BackendInstallArg::Vllm
            || target == BackendInstallArg::QwenTts,
{
}

// ---------------------------------------------------------------------------
// Commands
// ---------------------------------------------------------------------------

#[derive(Clone, Debug)]
pub enum DoctorCommands {
    Perf { model: String },
}

#[derive(Clone, Copy, Debug, PartialEq, Eq, Structural)]
pub enum BackendCommands {
    Install { target: BackendInstallArg },
    List,
    Doctor { debug: bool },
}

#[derive(Clone, Debug)]
pub enum ArtifactCommands {
    Build { model: String },
    List { model: String },
    Rebuild { model: String },
}

#[derive(Clone, Copy, Debug, PartialEq, Eq, Structural)]
pub enum TempCommands {
    List,
    Purge { dry_run: bool },
    Path,
}

#[derive(Clone, Copy, Debug, PartialEq, Eq, Structural)]
pub enum RuntimeStateTierArg {
    Vram,
    Ram,
    Disk,
    External,
}

#[derive(Clone, Copy, Debug, PartialEq, Eq, Structural)]
pub enum RuntimeMemoryTierArg {
    Vram,
    Ram,
}

#[derive(Clone, Copy, Debug, PartialEq, Eq, Structural)]
pub enum RuntimeDemotionTierArg {
    Ram,
    Disk,
}

#[allow(inconsistent_fields)]
#[derive(Clone, Copy, Debug, PartialEq, Eq, Structural)]
pub enum RuntimeStateCommands {
    Pin { execute: bool },
    Unpin { execute: bool },
    Promote { target: RuntimeMemoryTierArg, execute: bool, allow_experimental: bool },
    Demote { target: RuntimeDemotionTierArg, execute: bool, allow_experimental: bool },
    Evict { execute: bool },
}

#[derive(Clone, Debug)]
pub enum RuntimeCommands {
    Info,
    Capabilities,
    Memory,
    States {
        model: Option<String>,
        tier: Option<RuntimeStateTierArg>,
        limit: Option<u16>,
        cursor: Option<String>,
    },
    State { id: String, command: RuntimeStateCommands },
    Prune {
        ids: Vec<String>,
        model: Option<String>,
        tier: Option<RuntimeStateTierArg>,
        older_than_unix_ms: Option<u64>,
        all: bool,
        confirm_all: bool,
        execute: bool,
    },
}

#[derive(Clone, Debug)]
pub enum ApiKeyAuthCommands {
    Generate { path: Option<String>, name: String, force: bool },
}

#[derive(Clone, Debug)]
pub enum HuggingFaceAuthCommands {
    Login { token: Option<String> },
    Status,
    Logout,
}

#[allow(inconsistent_fields)]
#[derive(Clone, Debug)]
pub enum AuthCommands {
    HuggingFace { command: HuggingFaceAuthCommands },
    ApiKey { command: ApiKeyAuthCommands },
}

/// The options of a single run.
#[derive(Clone, Debug)]
pub struct RunOptions {
    pub request: Option<String>,
    pub task: Option<InferenceTask>,
    pub inputs: Vec<String>,
    pub parameters: Vec<String>,
    pub output: Option<String>,
    pub json: bool,
    pub stream: bool,
    pub stream_granularity: Option<StreamGranularityArg>,
    pub no_history: bool,
}

impl Default for RunOptions {
    fn default() -> (r: Self)
        ensures
            r.request is None,
            r.task is None,
            r.inputs@.len() == 0,
            r.parameters@.len() == 0,
            r.output is None,
            !r.json,
            !r.stream,
            r.stream_granularity is None,
            !r.no_history,
    {
        RunOptions {
            request: None,
            task: None,
            inputs: Vec::new(),
            parameters: Vec::new(),
            output: None,
            json: false,
            stream: false,
            stream_granularity: None,
            no_history: false,
        }
    }
}

/// A command, by its kind and the switches that decide how it presents itself.
#[derive(Clone, Copy, Debug, PartialEq, Eq, Structural)]
pub enum CommandKind {
    Serve { verbose: bool },
    Run { verbose: bool, debug: bool, json: bool },
    Chat { verbose: bool, debug: bool },
    Image { verbose: bool, debug: bool },
    Video { verbose: bool, debug: bool },
    Audio { verbose: bool, debug: bool },
    Bench { debug: bool },
    Estimate,
    Doctor,
    Backend,
    Artifacts,
    Auth,
    Temp,
    Runtime,
    Import,
    Pull,
    Remove,
    List,
    Parameters,
    Inspect,
    SelectFile,
}

/// The banner is shown on a terminal by the commands that serve, generate or
/// chat; a chat needs a terminal to read from, and machine-readable output has
/// none.
pub open spec fn shows_banner(command: CommandKind, stdout: bool, stdin: bool) -> bool {
    stdout && match command {
        CommandKind::Serve { .. } | CommandKind::Image { .. } | CommandKind::Video { .. }
        | CommandKind::Audio { .. } => true,
        CommandKind::Run { json, .. } => !json,
        CommandKind::Chat { .. } => stdin,
        _ => false,
    }
}

pub fn should_print_startup_banner_for(
    command: CommandKind,
    stdout_is_terminal: bool,
    stdin_is_terminal: bool,
) -> (r: bool)
    ensures
        r == shows_banner(command, stdout_is_terminal, stdin_is_terminal),
{
    if !stdout_is_terminal {
        return false;
    }
    match command {
        CommandKind::Serve { .. } => true,
        CommandKind::Image { .. } => true,
        CommandKind::Video { .. } => true,
        CommandKind::Audio { .. } => true,
        CommandKind::Run { json, .. } => !json,
        CommandKind::Chat { .. } => stdin_is_terminal,
        _ => false,
    }
}

/// Installing a backend is reported where the command asks for details.
pub open spec fn reports_installs(command: CommandKind) -> bool {
    match command {
        CommandKind::Serve { verbose } => verbose,
        CommandKind::Run { verbose, debug, .. } => verbose || debug,
        CommandKind::Chat { verbose, debug } => verbose || debug,
        CommandKind::Image { verbose, debug } => verbose || debug,
        CommandKind::Video { verbose, debug } => verbose || debug,
        CommandKind::Audio { verbose, debug } => verbose || debug,
        CommandKind::Bench { debug } => debug,
        _ => false,
    }
}

pub fn command_backend_install_verbose(command: CommandKind) -> (r: bool)
    ensures
        r == reports_installs(command),
{
    match command {
        CommandKind::Serve { verbose } => verbose,
        CommandKind::Run { verbose, debug, .. } => verbose || debug,
        CommandKind::Chat { verbose, debug } => verbose || debug,
        CommandKind::Image { verbose, debug } => verbose || debug,
        CommandKind::Video { verbose, debug } => verbose || debug,
        CommandKind::Audio { verbose, debug } => verbose || debug,
        CommandKind::Bench { debug } => debug,
        _ => false,
    }
}

/// No subcommand means serving, with the defaults.
pub fn command_or_default(command: Option<CommandKind>) -> (r: CommandKind)
    ensures
        r == match command {
            Some(command) => command,
            None => (CommandKind::Serve { verbose: false }),
        },
{
    match command {
        Some(command) => command,
        None => CommandKind::Serve { verbose: false },
    }
}

// ---------------------------------------------------------------------------
// API keys
// ---------------------------------------------------------------------------

/// The keys that a server accepts: none where authentication is off, else the
/// given key without surrounding white space and those of the key file. There
/// has to be one.
pub open spec fn accepted_keys(
    api_key: Option<Seq<char>>,
    file_keys: Seq<Seq<char>>,
    allow_unauthenticated: bool,
) -> Result<Seq<Seq<char>>, Seq<char>> {
    let given = match api_key {
        Some(key) => seq![trimmed(key)],
        None => Seq::empty(),
    };
    if allow_unauthenticated {
        Ok(Seq::empty())
    } else if api_key is Some && is_blank(api_key->0) {
        Err("--api-key / WERK_API_KEY must not be empty"@)
    } else if given.len() + file_keys.len() == 0 {
        Err(
            "werk serve requires API key auth by default. Run `werk auth api-key generate`, pass `--api-key <key>` or WERK_API_KEY, or use `--allow-unauthenticated` for local development."@,
        )
    } else {
        Ok(given + file_keys)
    }
}

pub open spec fn keys_view(r: Result<Vec<String>, String>) -> Result<Seq<Seq<char>>, Seq<char>> {
    match r {
        Ok(keys) => Ok(views(keys@)),
        Err(message) => Err(message@),
    }
}

/// Decides which keys a server accepts; `file_keys` are those that the key file
/// holds.
pub fn resolve_api_keys(
    api_key: Option<&str>,
    file_keys: Vec<String>,
    allow_unauthenticated: bool,
) -> (r: Result<Vec<String>, String>)
    ensures
        keys_view(r) == accepted_keys(
            opt_str_view(api_key),
            views(file_keys@),
            allow_unauthenticated,
        ),
{
    let mut keys: Vec<String> = Vec::new();
    assert(views(keys@) =~= Seq::<Seq<char>>::empty());
    if allow_unauthenticated {
        return Ok(keys);
    }
    if let Some(key) = api_key {
        let key = str_trim(key);
        if key.as_str().is_empty() {
            return Err("--api-key / WERK_API_KEY must not be empty".to_owned());
        }
        keys.push(key);
        assert(views(keys@) =~= seq![trimmed(api_key->0@)]);
    }
    let ghost given = views(keys@);
    let mut rest = file_keys;
    let ghost more = views(rest@);
    keys.append(&mut rest);
    assert(views(keys@) =~= given + more);
    if keys.len() == 0 {
        return Err(
            "werk serve requires API key auth by default. Run `werk auth api-key generate`, pass `--api-key <key>` or WERK_API_KEY, or use `--allow-unauthenticated` for local development.".to_owned(),
        );
    }
    Ok(keys)
}

/// A server that asks for authentication always has a key to ask for, and none
/// of them is empty unless the key file holds an empty one.
pub proof fn authenticated_servers_have_keys(api_key: Option<Seq<char>>, file_keys: Seq<Seq<char>>)
    ensures
        accepted_keys(api_key, file_keys, false) matches Ok(keys) ==> keys.len() > 0 && forall|
            i: int,
        |
            0 <= i < keys.len() && (#[trigger] keys[i]).len() == 0 ==> file_keys.contains(keys[i]),
{
    let r = accepted_keys(api_key, file_keys, false);
    if r is Ok {
        let keys = r->Ok_0;
        assert forall|i: int| 0 <= i < keys.len() && (#[trigger] keys[i]).len() == 0 implies file_keys.contains(
            keys[i],
        ) by {
            let n = keys.len() - file_keys.len();
            if i >= n {
                assert(file_keys[i - n] == keys[i]);
            }
        }
    }
}

// ---------------------------------------------------------------------------
// What the command line says
// ---------------------------------------------------------------------------

/// A banner is shown on a terminal alone, to those who read it: never above output that
/// programs read, and above a chat only where somebody can type.
pub proof fn banners_are_shown_to_people(
    verbose: bool,
    debug: bool,
    json: bool,
    stdout: bool,
    stdin: bool,
)
    ensures
        forall|command: CommandKind| !#[trigger] shows_banner(command, false, stdin),
        shows_banner(CommandKind::Run { verbose, debug, json }, stdout, stdin) <==> stdout && !json,
        shows_banner(CommandKind::Chat { verbose, debug }, stdout, stdin) <==> stdout && stdin,
        shows_banner(CommandKind::Serve { verbose }, stdout, stdin) <==> stdout,
        shows_banner(CommandKind::Image { verbose, debug }, stdout, stdin) <==> stdout,
        shows_banner(CommandKind::Video { verbose, debug }, stdout, stdin) <==> stdout,
        shows_banner(CommandKind::Audio { verbose, debug }, stdout, stdin) <==> stdout,
        forall|command: CommandKind| #[trigger]
            shows_banner(command, stdout, stdin) ==> command is Serve || command is Run || command
                is Chat || command is Image || command is Video || command is Audio,
{
}

/// Installs are reported to those who ask for more: by `--verbose`, or by `--debug`.
pub proof fn installs_are_reported_on_demand(verbose: bool, debug: bool, json: bool)
    ensures
        reports_installs(CommandKind::Serve { verbose }) <==> verbose,
        reports_installs(CommandKind::Run { verbose, debug, json }) <==> verbose || debug,
        reports_installs(CommandKind::Chat { verbose, debug }) <==> verbose || debug,
        reports_installs(CommandKind::Image { verbose, debug }) <==> verbose || debug,
        reports_installs(CommandKind::Video { verbose, debug }) <==> verbose || debug,
        reports_installs(CommandKind::Audio { verbose, debug }) <==> verbose || debug,
        reports_installs(CommandKind::Bench { debug }) <==> debug,
        forall|command: CommandKind| #[trigger]
            reports_installs(command) ==> command is Serve || command is Run || command is Chat
                || command is Image || command is Video || command is Audio || command is Bench,
{
}

/// The key of the command line comes first, without the blanks around it, and those of
/// the file stand behind it; a server that lets everybody in asks for none.
pub proof fn given_keys_are_accepted(key: Seq<char>, file_keys: Seq<Seq<char>>)
    ensures
        forall|api_key: Option<Seq<char>>| #[trigger]
            accepted_keys(api_key, file_keys, true) == Ok::<Seq<Seq<char>>, Seq<char>>(
                Seq::empty(),
            ),
        !is_blank(key) ==> accepted_keys(Some(key), file_keys, false) == Ok::<
            Seq<Seq<char>>,
            Seq<char>,
        >(seq![trimmed(key)] + file_keys),
        is_blank(key) ==> accepted_keys(Some(key), file_keys, false) is Err,
        file_keys.len() > 0 ==> accepted_keys(None, file_keys, false) == Ok::<
            Seq<Seq<char>>,
            Seq<char>,
        >(file_keys),
        file_keys.len() == 0 ==> accepted_keys(None, file_keys, false) is Err,
{
    assert(Seq::<Seq<char>>::empty() + file_keys =~= file_keys);
}

/// Each runtime that can be installed is installed for its own accelerator.
pub proof fn installs_are_for_their_accelerators(target: BackendInstallArg, mode: LlamaCppMode)
    ensures
        target.llama_mode() == Some(LlamaCppMode::Cuda) <==> target is LlamaCuda,
        target.llama_mode() == Some(LlamaCppMode::Rocm) <==> target is LlamaRocm,
        target.llama_mode() == Some(LlamaCppMode::Vulkan) <==> target is LlamaVulkan,
        target.llama_mode() == Some(LlamaCppMode::Metal) <==> target is LlamaMetal,
        target.llama_mode() == Some(LlamaCppMode::Cpu) <==> target is LlamaCpu,
        target.onnx() == Some(OnnxRuntimeMode::Cuda) <==> target is OnnxCuda,
        target.onnx() == Some(OnnxRuntimeMode::Rocm) <==> target is OnnxRocm,
        target.onnx() == Some(OnnxRuntimeMode::Cpu) <==> target is OnnxCpu,
{
}

/// A backend is asked for by its own name.
pub proof fn arguments_have_their_names(backend: BackendArg)
    ensures
        backend_arg_name(backend) == "metal"@ <==> backend is Metal,
        backend_arg_name(backend) == "cuda"@ <==> backend is Cuda,
        backend_arg_name(backend) == "rocm"@ <==> backend is Rocm,
        backend_arg_name(backend) == "vulkan"@ <==> backend is Vulkan,
        backend_arg_name(backend) == "cpu"@ <==> backend is Cpu,
        backend_arg_name(backend) == "mlx"@ <==> backend is Mlx,
        backend_arg_name(backend) == "onnx"@ <==> backend is Onnx,
        backend_arg_name(backend) == "vllm"@ <==> backend is Vllm,
        backend_arg_name(backend) == "burn"@ <==> backend is Burn,
        backend_arg_name(backend) == "auto"@ <==> backend is Auto,
        backend_arg_name(backend) == "candle"@ <==> backend is Candle,
        backend_arg_name(backend) == "transformers"@ <==> backend is Transformers,
        backend_arg_name(backend) == "llama-legacy"@ <==> backend is LlamaLegacy,
        backend_arg_name(backend) == "llama-highlevel"@ <==> backend is LlamaHighlevel,
{
    reveal_strlit("metal");
    reveal_strlit("cuda");
    reveal_strlit("rocm");
    reveal_strlit("vulkan");
    reveal_strlit("cpu");
    reveal_strlit("mlx");
    reveal_strlit("onnx");
    reveal_strlit("vllm");
    reveal_strlit("burn");
    reveal_strlit("auto");
    reveal_strlit("candle");
    reveal_strlit("transformers");
    reveal_strlit("llama-legacy");
    reveal_strlit("llama-highlevel");
    assert("metal"@.len() == 5 && "vulkan"@.len() == 6 && "candle"@.len() == 6 && "cpu"@.len() == 3
        && "mlx"@.len() == 3 && "transformers"@.len() == 12 && "llama-legacy"@.len() == 12
        && "llama-highlevel"@.len() == 15);
    assert("cuda"@.len() == 4 && "rocm"@.len() == 4 && "onnx"@.len() == 4 && "vllm"@.len() == 4
        && "burn"@.len() == 4 && "auto"@.len() == 4);
    assert("cuda"@[0] == 'c' && "rocm"@[0] == 'r' && "onnx"@[0] == 'o' && "vllm"@[0] == 'v'
        && "burn"@[0] == 'b' && "auto"@[0] == 'a');
    assert("vulkan"@[0] == 'v' && "candle"@[0] == 'c' && "cpu"@[0] == 'c' && "mlx"@[0] == 'm'
        && "transformers"@[0] == 't' && "llama-legacy"@[0] == 'l');
}

} // verus!

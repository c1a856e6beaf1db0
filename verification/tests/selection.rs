use werk_cli::args::{
    command_or_default, BackendArg, BenchCompareArg, BurnMode, CandleDeviceMode, CommandKind,
    DeviceArg, LlamaCppMode, OnnxRuntimeMode,
};
use werk_cli::backend::{
    backend_accelerator, backend_arg_to_choice, backend_runtime, backend_to_runtime_id,
    benchmark_choices, compiled_runtime_summary, resolve_backend, runtime_id_to_backend,
    runtime_install_target_for_platform, should_auto_install_llama_server, BackendAccelerator,
    BackendChoice, BackendRuntime, Host, RequestedBackend, RuntimeId, SelectionOptions,
};
use werk_cli::manifest::{
    InferenceTask, ModelFormat, ModelManifest, ModelMetadata, ModelSource, ModelStorage,
};
use werk_cli::readiness::TaskReadinessStatus;
use werk_cli::selection::{
    auto_candidates_for_manifest, backend_available_for_store, backend_supports_manifest,
    backend_to_build_for_request, backend_unavailability_reason,
    backend_unavailability_reason_for_request, build_generation_backend,
    candle_safetensors_cuda_fallback_warning, compact_reason, ensure_backend_supports_images,
    format_runtime_plan_error, generation_backend_task_readiness, installs_onnx_runtime,
    manifest_requires_mlx_vlm, router_supports_tool_calling, router_task_readiness,
    routing_candidates_for_debug, runtime_availabilities_for_request,
    runtime_candidate_ids_for_selection, runtime_unavailability_reason,
    select_backend_from_runtime_candidates, selected_backend_for_manifest,
    selected_backend_for_request, selected_backend_for_request_with_tools, selection_route,
    vllm_probe_unavailability_reason, vllm_task_readiness, AvailabilityFacts, BackendCache,
    BackendProbe, BuiltBackend, CachedBackend, DirectFacts, ImageProbe, MlxPreferredBackend,
    PlanOutcome, RequestCapabilities, RocmSignals, RuntimeDecision, RuntimeFacts, SelectionFacts,
    SelectionRoute, VllmPreferredBackend, VllmReadiness,
};

fn linux() -> Host {
    Host {
        macos: false,
        linux: true,
        windows: false,
        strix_halo: false,
        burn_cuda: false,
        burn_cpu: false,
        candle_cuda: true,
        llama_legacy_cuda: false,
        llama_legacy_vulkan: false,
        metal: false,
    }
}

fn macos() -> Host {
    Host {
        macos: true,
        linux: false,
        metal: true,
        candle_cuda: false,
        ..linux()
    }
}

fn test_manifest(format: ModelFormat, architecture: Option<&str>) -> ModelManifest {
    ModelManifest {
        id: "test-model".to_string(),
        source: ModelSource::LocalPath {
            path: "test".to_string(),
        },
        storage: ModelStorage::Managed,
        format,
        architecture: architecture.map(str::to_string),
        tokenizer_path: None,
        config_path: None,
        model_path: Some("files/model.bin".to_string()),
        backend: "test".to_string(),
        created_unix: 1,
        files: Vec::new(),
        artifacts: Vec::new(),
        metadata: ModelMetadata {
            repository_layout: "unknown".to_string(),
            family: None,
            tasks: Vec::new(),
            input_modalities: Vec::new(),
            output_modalities: Vec::new(),
            components: 0,
            precision: None,
            quantization: None,
            compatible_runtimes: Vec::new(),
        },
    }
}

fn signals() -> RocmSignals {
    RocmSignals {
        strix_halo: false,
        llama_configured: false,
        vllm_configured: false,
        vllm_supports_model: false,
    }
}

fn direct() -> DirectFacts {
    DirectFacts {
        supports_format: true,
        supports_accelerator: true,
        supports_images: true,
        unavailable: false,
        mode_label: "CPU".to_string(),
    }
}

fn planned(plan: PlanOutcome) -> SelectionFacts {
    SelectionFacts {
        plan,
        plan_with_tools: PlanOutcome::Nothing(Vec::new()),
        candidates: Vec::new(),
        direct: direct(),
        vllm_supports_images: false,
    }
}

fn rejected(runtime_id: RuntimeId, name: &str, reason: &str) -> RuntimeDecision {
    RuntimeDecision {
        runtime_id,
        display_name: name.to_string(),
        accepted: false,
        reason: reason.to_string(),
    }
}

fn runtime(id: RuntimeId, name: &str, family: BackendRuntime) -> RuntimeFacts {
    RuntimeFacts {
        id,
        display_name: name.to_string(),
        runtime: family,
        implemented: true,
        vision_language: false,
        supports_images: false,
        supports_model: true,
        unavailable: None,
        backend_message: String::new(),
    }
}

fn sound_probe() -> BackendProbe {
    BackendProbe {
        tokenizer_rejection: None,
        error: None,
        reason: String::new(),
        install_error: None,
    }
}

#[test]
fn no_subcommand_defaults_to_serve_backend_command() {
    assert_eq!(
        command_or_default(None),
        CommandKind::Serve { verbose: false }
    );
    assert_eq!(
        resolve_backend(BackendArg::Auto, None, linux()),
        Ok(BackendChoice::Auto)
    );
    assert!(matches!(
        backend_arg_to_choice(BackendArg::Mlx, linux()),
        BackendChoice::Mlx
    ));
    assert!(matches!(
        backend_arg_to_choice(BackendArg::Vulkan, linux()),
        BackendChoice::GgufPreferred {
            llama: LlamaCppMode::Vulkan,
            candle: CandleDeviceMode::Auto
        }
    ));
    assert!(matches!(
        backend_arg_to_choice(BackendArg::Metal, linux()),
        BackendChoice::GgufPreferred {
            llama: LlamaCppMode::Metal,
            candle: CandleDeviceMode::Metal
        }
    ));
    assert!(matches!(
        backend_arg_to_choice(BackendArg::LlamaHighlevel, linux()),
        BackendChoice::LlamaHighlevel(_)
    ));
    assert!(matches!(
        backend_arg_to_choice(BackendArg::LlamaLegacy, linux()),
        BackendChoice::LlamaFast(_)
    ));
    assert!(matches!(
        backend_arg_to_choice(BackendArg::Cuda, linux()),
        BackendChoice::GgufPreferred {
            llama: LlamaCppMode::Cuda,
            candle: CandleDeviceMode::Cuda
        }
    ));
    assert!(matches!(
        backend_arg_to_choice(BackendArg::Rocm, linux()),
        BackendChoice::GgufPreferred {
            llama: LlamaCppMode::Rocm,
            candle: CandleDeviceMode::Auto
        }
    ));
    assert!(matches!(
        backend_arg_to_choice(BackendArg::Burn, linux()),
        BackendChoice::Burn(_)
    ));
    assert!(matches!(
        backend_arg_to_choice(BackendArg::Candle, linux()),
        BackendChoice::Candle(CandleDeviceMode::Auto)
    ));
    assert!(matches!(
        backend_arg_to_choice(BackendArg::Vllm, linux()),
        BackendChoice::Vllm
    ));
    assert!(matches!(
        backend_arg_to_choice(BackendArg::Onnx, linux()),
        BackendChoice::OnnxRuntime(_)
    ));
}

#[test]
fn vllm_args_are_not_a_backend_selection_input() {
    assert!(matches!(
        backend_arg_to_choice(BackendArg::Auto, linux()),
        BackendChoice::Auto
    ));
}

#[test]
fn linux_and_windows_auto_prefer_llama_server_for_gguf() {
    let order = auto_candidates_for_manifest(&vec![
        RuntimeId::LlamaServerCuda,
        RuntimeId::LlamaServerVulkan,
        RuntimeId::LlamaServerCpu,
        RuntimeId::CandleCuda,
        RuntimeId::CandleCpu,
    ]);
    assert!(matches!(
        order[0],
        BackendChoice::LlamaServer(LlamaCppMode::Cuda)
    ));
    assert!(matches!(
        order[1],
        BackendChoice::LlamaServer(LlamaCppMode::Vulkan)
    ));
    assert!(matches!(
        order[2],
        BackendChoice::LlamaServer(LlamaCppMode::Cpu)
    ));
    assert!(matches!(
        order[3],
        BackendChoice::Candle(CandleDeviceMode::Cuda)
    ));
    assert!(matches!(
        order[4],
        BackendChoice::Candle(CandleDeviceMode::Cpu)
    ));
}

#[test]
fn macos_auto_prefers_llama_server_metal_for_gguf() {
    let order = auto_candidates_for_manifest(&vec![
        RuntimeId::LlamaServerMetal,
        RuntimeId::LlamaServerCpu,
        RuntimeId::CandleMetal,
        RuntimeId::CandleCpu,
    ]);
    assert!(matches!(
        order[0],
        BackendChoice::LlamaServer(LlamaCppMode::Metal)
    ));
    assert!(matches!(
        order[1],
        BackendChoice::LlamaServer(LlamaCppMode::Cpu)
    ));
    assert!(matches!(
        order[2],
        BackendChoice::Candle(CandleDeviceMode::Metal)
    ));
    assert!(matches!(
        order[3],
        BackendChoice::Candle(CandleDeviceMode::Cpu)
    ));
}

#[test]
fn qwen_gguf_without_tokenizer_json_rejects_candle_fallback() {
    let manifest = test_manifest(ModelFormat::Gguf, Some("qwen3"));
    let probe = BackendProbe {
        tokenizer_rejection: Some("Candle GGUF fallback requires tokenizer.json".to_string()),
        ..sound_probe()
    };
    let candle = backend_unavailability_reason(
        BackendChoice::Candle(CandleDeviceMode::Cuda),
        &probe,
        SelectionOptions::default(),
        linux(),
    )
    .unwrap();
    let facts = planned(PlanOutcome::Nothing(vec![
        rejected(
            RuntimeId::LlamaServerCuda,
            "llama.cpp server CUDA",
            "not installed",
        ),
        rejected(RuntimeId::CandleCuda, "Candle CUDA", &candle),
    ]));
    let message =
        selected_backend_for_manifest(BackendChoice::Auto, &manifest, &facts, linux()).unwrap_err();
    assert!(message.contains("llama.cpp server CUDA"));
    assert!(message.contains("Candle CUDA"));
    assert!(message.contains("Candle GGUF fallback requires tokenizer.json"));
}

#[test]
fn gguf_auto_includes_rocm_only_when_probeable() {
    let ids = || {
        vec![
            RuntimeId::LlamaServerCuda,
            RuntimeId::LlamaServerVulkan,
            RuntimeId::LlamaServerCpu,
        ]
    };
    let plain = runtime_candidate_ids_for_selection(
        ids(),
        RequestedBackend::Auto,
        ModelFormat::Gguf,
        signals(),
    );
    assert!(!plain.contains(&RuntimeId::LlamaServerRocm));

    let strix = runtime_candidate_ids_for_selection(
        ids(),
        RequestedBackend::Auto,
        ModelFormat::Gguf,
        RocmSignals {
            strix_halo: true,
            ..signals()
        },
    );
    let rocm = strix
        .iter()
        .position(|id| *id == RuntimeId::LlamaServerRocm)
        .unwrap();
    let cuda = strix
        .iter()
        .position(|id| *id == RuntimeId::LlamaServerCuda)
        .unwrap();
    assert!(rocm < cuda);

    let gated = runtime_candidate_ids_for_selection(
        ids(),
        RequestedBackend::Auto,
        ModelFormat::Gguf,
        RocmSignals {
            llama_configured: true,
            ..signals()
        },
    );
    let rocm = gated
        .iter()
        .position(|id| *id == RuntimeId::LlamaServerRocm)
        .unwrap();
    let vulkan = gated
        .iter()
        .position(|id| *id == RuntimeId::LlamaServerVulkan)
        .unwrap();
    assert!(rocm < vulkan);
}

#[test]
fn explicit_rocm_candidates_are_strict_for_compatible_formats() {
    let requested = backend_arg_to_choice(BackendArg::Rocm, linux());

    assert_eq!(
        routing_candidates_for_debug(requested, vec![RuntimeId::LlamaServerRocm]),
        vec![RuntimeId::LlamaServerRocm]
    );
    assert_eq!(
        routing_candidates_for_debug(requested, vec![RuntimeId::VllmRocm]),
        vec![RuntimeId::VllmRocm]
    );
    assert_eq!(
        routing_candidates_for_debug(requested, vec![RuntimeId::OnnxRuntimeRocm]),
        vec![RuntimeId::OnnxRuntimeRocm]
    );
}

#[test]
fn explicit_rocm_selection_does_not_fall_back_to_cpu() {
    let requested = backend_arg_to_choice(BackendArg::Rocm, linux());
    let gguf = test_manifest(ModelFormat::Gguf, Some("llama"));
    let selected = selected_backend_for_manifest(
        requested,
        &gguf,
        &planned(PlanOutcome::Selected(
            RuntimeId::LlamaServerRocm,
            "llama.cpp server ROCm/HIP".to_string(),
        )),
        linux(),
    )
    .unwrap();
    assert!(matches!(
        selected,
        BackendChoice::LlamaServer(LlamaCppMode::Rocm)
    ));
    let message = selected_backend_for_manifest(
        requested,
        &gguf,
        &planned(PlanOutcome::Nothing(vec![rejected(
            RuntimeId::LlamaServerRocm,
            "llama.cpp server ROCm/HIP",
            "no ROCm device",
        )])),
        linux(),
    )
    .unwrap_err();
    assert!(message.contains("llama.cpp server ROCm/HIP"));
    assert!(!message.contains("llama.cpp server CPU"));
    assert!(!message.contains("Candle CPU"));

    let safetensors = test_manifest(ModelFormat::SafeTensors, Some("qwen3"));
    let selected = selected_backend_for_manifest(
        requested,
        &safetensors,
        &planned(PlanOutcome::Selected(
            RuntimeId::VllmRocm,
            "vLLM ROCm".to_string(),
        )),
        linux(),
    )
    .unwrap();
    assert!(matches!(selected, BackendChoice::VllmRocm));
    let message = selected_backend_for_manifest(
        requested,
        &safetensors,
        &planned(PlanOutcome::Nothing(vec![rejected(
            RuntimeId::VllmRocm,
            "vLLM ROCm",
            "no HIP device",
        )])),
        linux(),
    )
    .unwrap_err();
    assert!(message.contains("vLLM ROCm"));
    assert!(message.contains("ROCm") || message.contains("HIP"));
    assert!(!message.contains("Candle CPU"));

    let onnx = test_manifest(ModelFormat::Onnx, None);
    let selected = selected_backend_for_manifest(
        requested,
        &onnx,
        &planned(PlanOutcome::Selected(
            RuntimeId::OnnxRuntimeRocm,
            "ONNX Runtime ROCm".to_string(),
        )),
        linux(),
    )
    .unwrap();
    assert!(matches!(
        selected,
        BackendChoice::OnnxRuntime(OnnxRuntimeMode::Rocm)
    ));
    let message = selected_backend_for_manifest(
        requested,
        &onnx,
        &planned(PlanOutcome::Nothing(vec![rejected(
            RuntimeId::OnnxRuntimeRocm,
            "ONNX Runtime ROCm",
            "no runner",
        )])),
        linux(),
    )
    .unwrap_err();
    assert!(message.contains("ONNX Runtime ROCm"));
    assert!(!message.contains("ONNX Runtime CPU"));
}

#[test]
fn onnx_vulkan_and_mlx_gpu_requests_reject_without_cpu_fallback() {
    let onnx = test_manifest(ModelFormat::Onnx, None);
    let vulkan = backend_arg_to_choice(BackendArg::Vulkan, linux());
    assert!(routing_candidates_for_debug(vulkan, Vec::new()).is_empty());
    let nothing = planned(PlanOutcome::Nothing(Vec::new()));
    let err = selected_backend_for_manifest(vulkan, &onnx, &nothing, linux()).unwrap_err();
    assert!(err.contains("no runtime candidates"));
    assert!(!err.contains("ONNX Runtime CPU"));

    let mlx = test_manifest(ModelFormat::Mlx, Some("llama"));
    for backend in [BackendArg::Cuda, BackendArg::Rocm, BackendArg::Vulkan] {
        let requested = backend_arg_to_choice(backend, linux());
        assert!(routing_candidates_for_debug(requested, Vec::new()).is_empty());
        let err = selected_backend_for_manifest(requested, &mlx, &nothing, linux()).unwrap_err();
        assert!(err.contains("no runtime candidates"));
        assert!(!err.contains("Candle CPU"));
    }
}

#[test]
fn gguf_explicit_mlx_vllm_and_onnx_reject() {
    let gguf = test_manifest(ModelFormat::Gguf, Some("llama"));

    for (requested, candidate) in [
        (
            BackendChoice::Mlx,
            runtime(RuntimeId::Mlx, "MLX", BackendRuntime::Mlx),
        ),
        (
            BackendChoice::Vllm,
            runtime(RuntimeId::VllmCuda, "vLLM CUDA", BackendRuntime::Vllm),
        ),
        (
            BackendChoice::OnnxRuntime(OnnxRuntimeMode::Cuda),
            runtime(
                RuntimeId::OnnxRuntimeCuda,
                "ONNX Runtime CUDA",
                BackendRuntime::OnnxRuntime,
            ),
        ),
    ] {
        let mut facts = planned(PlanOutcome::Nothing(Vec::new()));
        facts.candidates = vec![RuntimeFacts {
            supports_model: false,
            ..candidate
        }];
        let message =
            selected_backend_for_manifest(requested, &gguf, &facts, linux()).unwrap_err();
        assert!(!message.contains("llama.cpp server CPU"));
        assert!(!message.contains("Candle CPU"));
    }
}

#[test]
fn explicit_gguf_rocm_can_select_managed_rocm_server() {
    let manifest = test_manifest(ModelFormat::Gguf, Some("llama"));
    let selected = selected_backend_for_manifest(
        backend_arg_to_choice(BackendArg::Rocm, linux()),
        &manifest,
        &planned(PlanOutcome::Selected(
            RuntimeId::LlamaServerRocm,
            "llama.cpp server ROCm/HIP".to_string(),
        )),
        linux(),
    )
    .unwrap();
    assert!(matches!(
        selected,
        BackendChoice::LlamaServer(LlamaCppMode::Rocm)
    ));
}

#[test]
fn auto_safetensors_prefers_vllm_then_candle_on_linux_and_windows() {
    let order = auto_candidates_for_manifest(&vec![
        RuntimeId::VllmCuda,
        RuntimeId::CandleCuda,
        RuntimeId::CandleCpu,
    ]);
    assert!(matches!(order[0], BackendChoice::Vllm));
    assert!(matches!(
        order[1],
        BackendChoice::Candle(CandleDeviceMode::Cuda)
    ));
    assert!(matches!(
        order[2],
        BackendChoice::Candle(CandleDeviceMode::Cpu)
    ));
    assert!(!order
        .iter()
        .any(|choice| matches!(choice, BackendChoice::Burn(_))));
}

#[test]
fn vllm_install_hint_is_hidden_where_managed_install_is_unavailable() {
    assert_eq!(
        runtime_install_target_for_platform(Some("vllm"), "linux", "x86_64", false),
        Some("vllm")
    );
    assert_eq!(
        runtime_install_target_for_platform(Some("vllm"), "linux", "x86_64", true),
        None
    );
    for (operating_system, architecture) in [
        ("linux", "aarch64"),
        ("windows", "x86_64"),
        ("macos", "aarch64"),
    ] {
        assert_eq!(
            runtime_install_target_for_platform(
                Some("vllm"),
                operating_system,
                architecture,
                false,
            ),
            None
        );
    }
    assert_eq!(
        runtime_install_target_for_platform(Some("llama-cuda"), "linux", "aarch64", false,),
        Some("llama-cuda")
    );
}

#[test]
fn auto_install_policy_defaults_to_auto_only() {
    assert!(SelectionOptions::from_cli(BackendArg::Auto, false, false).provision_missing_backends);
    assert!(!SelectionOptions::from_cli(BackendArg::Auto, false, false).verbose_backend_installs);
    assert!(
        SelectionOptions::from_cli(BackendArg::Auto, false, false)
            .with_backend_install_output(true)
            .verbose_backend_installs
    );
    assert!(!SelectionOptions::from_cli(BackendArg::Onnx, false, false).provision_missing_backends);
    assert!(!SelectionOptions::from_cli(BackendArg::Cuda, false, false).provision_missing_backends);
    assert!(SelectionOptions::from_cli(BackendArg::Cuda, true, false).provision_missing_backends);
    assert!(!SelectionOptions::from_cli(BackendArg::Auto, false, true).provision_missing_backends);
}

#[test]
fn llama_server_auto_install_policy_preserves_macos_metal_only() {
    for host in [linux(), macos()] {
        assert!(!should_auto_install_llama_server(LlamaCppMode::Cuda, host));
        assert!(!should_auto_install_llama_server(LlamaCppMode::Rocm, host));
        assert!(!should_auto_install_llama_server(
            LlamaCppMode::Vulkan,
            host
        ));
        assert_eq!(
            should_auto_install_llama_server(LlamaCppMode::Metal, host),
            host.macos
        );
        assert!(!should_auto_install_llama_server(LlamaCppMode::Cpu, host));
    }
}

#[test]
fn safetensors_runtime_candidates_omit_burn_and_keep_cpu_as_auto_fallback() {
    let candidates = runtime_candidate_ids_for_selection(
        vec![RuntimeId::CandleCuda, RuntimeId::CandleCpu],
        RequestedBackend::Auto,
        ModelFormat::SafeTensors,
        signals(),
    );
    assert_eq!(
        candidates,
        vec![RuntimeId::CandleCuda, RuntimeId::CandleCpu]
    );
    assert!(!candidates.contains(&RuntimeId::BurnCuda));
    assert!(!candidates.contains(&RuntimeId::BurnCpu));

    let concrete = auto_candidates_for_manifest(&candidates);
    assert!(matches!(
        concrete[0],
        BackendChoice::Candle(CandleDeviceMode::Cuda)
    ));
    assert!(matches!(
        concrete[1],
        BackendChoice::Candle(CandleDeviceMode::Cpu)
    ));
}

#[test]
fn safetensors_vulkan_has_no_silent_cpu_or_candle_fallback() {
    let manifest = test_manifest(ModelFormat::SafeTensors, Some("phi3"));
    let requested = backend_arg_to_choice(BackendArg::Vulkan, linux());
    assert!(routing_candidates_for_debug(requested, Vec::new()).is_empty());
    let err = selected_backend_for_manifest(
        requested,
        &manifest,
        &planned(PlanOutcome::Nothing(Vec::new())),
        linux(),
    )
    .unwrap_err();
    assert!(err.contains("no runtime candidates"));
    assert!(!err.contains("Candle CPU"));
}

#[test]
fn backend_selection_routes_gguf_cuda_to_llama_server() {
    let manifest = test_manifest(ModelFormat::Gguf, Some("llama"));
    let selected = selected_backend_for_manifest(
        BackendChoice::GgufPreferred {
            llama: LlamaCppMode::Cuda,
            candle: CandleDeviceMode::Cuda,
        },
        &manifest,
        &planned(PlanOutcome::Selected(
            RuntimeId::LlamaServerCuda,
            "llama.cpp server CUDA".to_string(),
        )),
        linux(),
    )
    .unwrap();
    assert!(matches!(
        selected,
        BackendChoice::LlamaServer(LlamaCppMode::Cuda)
    ));
}

#[test]
fn backend_selection_routes_gguf_vulkan_to_llama_server() {
    let manifest = test_manifest(ModelFormat::Gguf, Some("llama"));
    let mut facts = planned(PlanOutcome::Nothing(Vec::new()));
    facts.candidates = vec![runtime(
        RuntimeId::LlamaServerVulkan,
        "llama.cpp server Vulkan",
        BackendRuntime::LlamaServer,
    )];
    let selected = selected_backend_for_manifest(
        BackendChoice::LlamaServer(LlamaCppMode::Vulkan),
        &manifest,
        &facts,
        linux(),
    )
    .unwrap();
    assert!(matches!(
        selected,
        BackendChoice::LlamaServer(LlamaCppMode::Vulkan)
    ));
}

#[test]
fn backend_selection_routes_gguf_metal_to_llama_server() {
    let manifest = test_manifest(ModelFormat::Gguf, Some("llama"));
    let selected = selected_backend_for_manifest(
        backend_arg_to_choice(BackendArg::Metal, macos()),
        &manifest,
        &planned(PlanOutcome::Selected(
            RuntimeId::LlamaServerMetal,
            "llama.cpp server Metal".to_string(),
        )),
        macos(),
    )
    .unwrap();
    assert!(matches!(
        selected,
        BackendChoice::LlamaServer(LlamaCppMode::Metal)
    ));
}

#[test]
fn explicit_burn_selection_never_falls_back_to_candle() {
    let manifest = test_manifest(ModelFormat::SafeTensors, Some("phi3"));
    let mut facts = planned(PlanOutcome::Nothing(Vec::new()));
    facts.candidates = vec![RuntimeFacts {
        implemented: false,
        ..runtime(RuntimeId::BurnCuda, "Burn CUDA", BackendRuntime::Burn)
    }];
    facts.direct.unavailable = true;
    let message = selected_backend_for_manifest(
        BackendChoice::Burn(BurnMode::Cuda),
        &manifest,
        &facts,
        linux(),
    )
    .unwrap_err();
    assert!(message.contains("Burn"));
    assert!(!message.contains("Candle CUDA"));
}

#[test]
fn explicit_vllm_selection_never_falls_back_to_candle() {
    let manifest = test_manifest(ModelFormat::SafeTensors, Some("phi3"));
    let facts = planned(PlanOutcome::Nothing(vec![rejected(
        RuntimeId::VllmCuda,
        "vLLM CUDA",
        "vllm is not installed",
    )]));
    let message =
        selected_backend_for_manifest(BackendChoice::Vllm, &manifest, &facts, linux()).unwrap_err();
    assert!(message.contains("vLLM CUDA"));
    assert!(!message.contains("Candle CUDA:"));
}

#[test]
fn explicit_vllm_planner_preserves_probe_configuration_errors() {
    let manifest = test_manifest(ModelFormat::SafeTensors, Some("phi3"));
    let probe_error = "invalid WERK_VLLM_ARGS POSIX-style shell-word list: missing closing quote";
    let captured = vllm_probe_unavailability_reason(Err(probe_error.to_string())).unwrap();
    assert_eq!(captured, probe_error);

    let availability = runtime_availabilities_for_request(vec![
        AvailabilityFacts {
            runtime_id: RuntimeId::VllmCuda,
            implemented: true,
            reason: Some(captured),
        },
        AvailabilityFacts {
            runtime_id: RuntimeId::CandleCuda,
            implemented: true,
            reason: None,
        },
    ]);
    assert!(!availability[0].available);
    assert!(availability[1].available);
    let plan = PlanOutcome::Nothing(vec![rejected(
        RuntimeId::VllmCuda,
        "vLLM CUDA",
        availability[0].reason.as_deref().unwrap(),
    )]);
    let message =
        selected_backend_for_manifest(BackendChoice::Vllm, &manifest, &planned(plan), linux())
            .unwrap_err();
    assert!(message.contains(probe_error));
    assert!(!message.contains("Candle CUDA"));
}

#[test]
fn explicit_onnx_selection_never_falls_back_to_candle() {
    let manifest = test_manifest(ModelFormat::SafeTensors, Some("phi3"));
    let mut facts = planned(PlanOutcome::Nothing(vec![rejected(
        RuntimeId::OnnxRuntimeCuda,
        "ONNX Runtime CUDA",
        "not installed",
    )]));
    facts.candidates = vec![RuntimeFacts {
        unavailable: Some("not installed".to_string()),
        ..runtime(
            RuntimeId::OnnxRuntimeCuda,
            "ONNX Runtime CUDA",
            BackendRuntime::OnnxRuntime,
        )
    }];
    facts.direct.supports_format = false;
    facts.direct.mode_label = "ONNX Runtime CUDA".to_string();
    let message = selected_backend_for_request(
        BackendChoice::OnnxRuntime(OnnxRuntimeMode::Cuda),
        &manifest,
        false,
        &facts,
        linux(),
    )
    .unwrap_err();
    assert!(message.contains("ONNX Runtime CUDA"));
    assert!(!message.contains("Candle CUDA"));
}

#[test]
fn explicit_vllm_reports_tool_capability_even_when_runtime_is_unavailable() {
    let manifest = test_manifest(ModelFormat::SafeTensors, Some("phi3"));
    let mut facts = planned(PlanOutcome::Nothing(Vec::new()));
    facts.plan_with_tools = PlanOutcome::Nothing(vec![rejected(
        RuntimeId::VllmCuda,
        "vLLM CUDA",
        "not installed",
    )]);
    let chosen = selected_backend_for_request_with_tools(
        BackendChoice::Vllm,
        &manifest,
        false,
        true,
        &facts,
        linux(),
    )
    .map(|_| true);
    assert!(router_supports_tool_calling(BackendChoice::Vllm, &chosen));
    let message = chosen.unwrap_err();
    assert!(message.contains("vLLM CUDA"), "{message}");
    assert!(!message.contains("Candle CUDA:"), "{message}");
    assert!(!message.contains("unsupported_tool_calling"), "{message}");
    let failed = Err(message);
    assert!(!router_supports_tool_calling(BackendChoice::Auto, &failed));
    assert!(router_supports_tool_calling(BackendChoice::Auto, &Ok(true)));
    assert!(!router_supports_tool_calling(BackendChoice::Auto, &Ok(false)));
}

#[test]
fn tool_calls_are_put_to_the_planner() {
    let manifest = test_manifest(ModelFormat::Gguf, Some("llama"));
    let mut facts = planned(PlanOutcome::Selected(
        RuntimeId::LlamaServerCpu,
        "llama.cpp CPU".to_string(),
    ));
    facts.plan_with_tools =
        PlanOutcome::Selected(RuntimeId::LlamaServerCuda, "llama.cpp CUDA".to_string());
    let select = |backend, tools| {
        selected_backend_for_request_with_tools(
            backend,
            &manifest,
            false,
            tools,
            &facts,
            linux(),
        )
    };
    assert_eq!(
        select(BackendChoice::Auto, false),
        Ok(BackendChoice::LlamaServer(LlamaCppMode::Cpu))
    );
    assert_eq!(
        select(BackendChoice::Auto, true),
        Ok(BackendChoice::LlamaServer(LlamaCppMode::Cuda))
    );
    let direct = BackendChoice::LlamaFast(LlamaCppMode::Cpu);
    assert_eq!(select(direct, true), select(direct, false));
}

#[test]
fn backend_selection_rejects_safetensors_vulkan() {
    let manifest = test_manifest(ModelFormat::SafeTensors, Some("phi3"));
    let err = selected_backend_for_manifest(
        backend_arg_to_choice(BackendArg::Vulkan, linux()),
        &manifest,
        &planned(PlanOutcome::Nothing(Vec::new())),
        linux(),
    )
    .unwrap_err();
    assert!(err.contains("no runtime candidates"));
    assert!(!err.contains("Candle CPU"));
}

#[test]
fn backend_selection_routes_safetensors_cpu_to_candle_cpu() {
    let manifest = test_manifest(ModelFormat::SafeTensors, Some("phi3"));
    let selected = selected_backend_for_manifest(
        BackendChoice::GgufPreferred {
            llama: LlamaCppMode::Cpu,
            candle: CandleDeviceMode::Cpu,
        },
        &manifest,
        &planned(PlanOutcome::Selected(
            RuntimeId::CandleCpu,
            "Candle CPU".to_string(),
        )),
        linux(),
    )
    .unwrap();
    assert!(matches!(
        selected,
        BackendChoice::Candle(CandleDeviceMode::Cpu)
    ));
}

#[test]
fn image_request_does_not_select_plain_mlx_fallback() {
    let manifest = test_manifest(ModelFormat::Mlx, Some("gemma4_unified"));
    let err = select_backend_from_runtime_candidates(
        &vec![runtime(RuntimeId::Mlx, "MLX", BackendRuntime::Mlx)],
        &manifest,
        RequestCapabilities {
            streaming: true,
            image_input: true,
            embeddings: false,
            tool_calling: false,
        },
        false,
        macos(),
    )
    .unwrap_err();

    assert!(err.contains("MLX"));
    assert!(err.contains("VLM"));
}

#[test]
fn image_inputs_reject_text_only_backends() {
    let err = ensure_backend_supports_images(
        BackendChoice::Candle(CandleDeviceMode::Cuda),
        false,
        true,
    )
    .unwrap_err();
    assert!(err.contains("text-only"));
}

#[test]
fn gguf_vision_readiness_requires_mmproj_and_a_multimodal_llama_server() {
    let mut ready = test_manifest(ModelFormat::Gguf, Some("qwen3_vl"));
    ready.metadata.tasks = vec![
        InferenceTask::TextGeneration,
        InferenceTask::ImageUnderstanding,
    ];
    let readiness = generation_backend_task_readiness(
        &ready,
        Ok(BackendChoice::LlamaServer(LlamaCppMode::Cpu)),
        "llama-server-cpu",
    );
    assert_eq!(readiness.status, TaskReadinessStatus::Available);
    assert_eq!(readiness.adapter.as_deref(), Some("llama-server-cpu"));

    let probe = ImageProbe {
        model_error: Some("the model has no multimodal projector".to_string()),
        server_error: None,
        vllm_supports_architecture: false,
    };
    let reason = backend_unavailability_reason_for_request(
        BackendChoice::LlamaServer(LlamaCppMode::Cpu),
        None,
        true,
        &probe,
        &ready.architecture,
    )
    .unwrap();
    let readiness = generation_backend_task_readiness(&ready, Err(reason), "");
    assert_eq!(readiness.status, TaskReadinessStatus::Unavailable);
    assert!(readiness.detail.contains("multimodal projector"));
}

#[test]
fn explicit_mlx_backend_dispatches_text_and_vlm_manifests_truthfully() {
    let backend = MlxPreferredBackend::with_backends("mlx-lm", "mlx-vlm");
    let text_manifest = test_manifest(ModelFormat::Mlx, Some("qwen3"));
    let mut vision_manifest = test_manifest(ModelFormat::Mlx, Some("gemma4_unified"));
    vision_manifest
        .metadata
        .tasks
        .push(InferenceTask::ImageUnderstanding);
    assert!(!manifest_requires_mlx_vlm(&text_manifest));
    assert!(manifest_requires_mlx_vlm(&vision_manifest));
    assert_eq!(*backend.backend_for_request(&text_manifest, false), "mlx-lm");
    assert_eq!(
        *backend.backend_for_request(&vision_manifest, false),
        "mlx-vlm"
    );
    assert_eq!(
        *backend.backend_for_request(&vision_manifest, true),
        "mlx-vlm"
    );
    assert_eq!(
        *backend.task_readiness(InferenceTask::ImageUnderstanding),
        "mlx-vlm"
    );
}

#[test]
fn top_level_explicit_mlx_backend_exposes_mlx_vlm_readiness() {
    assert!(matches!(
        build_generation_backend(BackendChoice::Mlx),
        Ok(BuiltBackend::MlxRouter)
    ));
}

#[test]
fn explicit_vllm_backend_runs_the_selected_cuda_or_rocm_adapter() {
    let backend = VllmPreferredBackend::with_backends("vllm-cuda", "vllm-rocm");
    assert_eq!(
        *backend
            .backend_for_request(BackendChoice::Vllm, "vLLM CUDA")
            .unwrap(),
        "vllm-cuda"
    );
    assert_eq!(
        *backend
            .backend_for_request(BackendChoice::VllmRocm, "vLLM ROCm")
            .unwrap(),
        "vllm-rocm"
    );
    assert!(backend
        .backend_for_request(BackendChoice::Mlx, "MLX")
        .is_err());
}

#[test]
fn backend_selection_routes_safetensors_cuda_without_burn_or_cpu_fallback() {
    let manifest = test_manifest(ModelFormat::SafeTensors, Some("unknown"));
    let requested = BackendChoice::GgufPreferred {
        llama: LlamaCppMode::Cuda,
        candle: CandleDeviceMode::Cuda,
    };
    let selected = selected_backend_for_manifest(
        requested,
        &manifest,
        &planned(PlanOutcome::Selected(
            RuntimeId::CandleCuda,
            "Candle CUDA".to_string(),
        )),
        linux(),
    )
    .unwrap();
    assert!(matches!(
        selected,
        BackendChoice::Candle(CandleDeviceMode::Cuda)
    ));
    let message = selected_backend_for_manifest(
        requested,
        &manifest,
        &planned(PlanOutcome::Nothing(vec![rejected(
            RuntimeId::CandleCuda,
            "Candle CUDA",
            "no device",
        )])),
        linux(),
    )
    .unwrap_err();
    assert!(message.contains("Candle CUDA"));
    assert!(!message.contains("Burn CUDA"));
    assert!(!message.contains("Burn CPU"));
    assert!(!message.contains("Candle CPU"));
}

#[test]
fn runtime_names_and_choices_agree() {
    for id in [
        RuntimeId::LlamaServerCuda,
        RuntimeId::CandleCpu,
        RuntimeId::VllmRocm,
        RuntimeId::OnnxRuntimeRocm,
        RuntimeId::MlxVlm,
    ] {
        let choice = runtime_id_to_backend(id).unwrap();
        assert_eq!(backend_to_runtime_id(choice), Some(id));
    }
    assert_eq!(runtime_id_to_backend(RuntimeId::MediaCompanionCpu), None);
}

#[test]
fn devices_and_backends_must_agree() {
    assert!(resolve_backend(BackendArg::Auto, None, linux()).is_ok());
    assert_eq!(
        resolve_backend(BackendArg::Auto, Some(DeviceArg::Cuda), linux()),
        Ok(BackendChoice::Candle(CandleDeviceMode::Cuda))
    );
    assert_eq!(
        resolve_backend(BackendArg::Candle, Some(DeviceArg::Cuda), linux()),
        Err("use either --backend or --device, not both".to_string())
    );
    assert!(!compiled_runtime_summary(linux()).is_empty());
}

#[test]
fn benchmarks_compare_only_when_asked() {
    let plain = benchmark_choices(
        BackendChoice::LlamaServer(LlamaCppMode::Cuda),
        ModelFormat::Gguf,
        BenchCompareArg::Nothing,
        linux(),
    );
    assert_eq!(plain.len(), 1);
    let compared = benchmark_choices(
        BackendChoice::LlamaServer(LlamaCppMode::Cuda),
        ModelFormat::Gguf,
        BenchCompareArg::Legacy,
        linux(),
    );
    assert!(compared.len() > 1);
}

#[test]
fn sound_probes_mean_that_a_backend_is_available() {
    assert!(backend_available_for_store(
        BackendChoice::LlamaServer(LlamaCppMode::Cuda),
        &sound_probe(),
        SelectionOptions::default(),
        linux(),
    ));
    let broken = BackendProbe {
        error: Some("no such file".to_string()),
        reason: "no such file".to_string(),
        ..sound_probe()
    };
    assert!(!backend_available_for_store(
        BackendChoice::LlamaServer(LlamaCppMode::Cuda),
        &broken,
        SelectionOptions::default(),
        linux(),
    ));
}

#[test]
fn reasons_are_kept_short() {
    assert_eq!(compact_reason("one\n  two"), "one two");
    let manifest = test_manifest(ModelFormat::Gguf, Some("llama"));
    let text = format_runtime_plan_error(&manifest, &Vec::new());
    assert!(text.contains("no runtime candidates"));
}

#[test]
fn routes_follow_the_kind_of_request() {
    assert!(matches!(
        selection_route(BackendChoice::Auto, false),
        SelectionRoute::Planner(RequestedBackend::Auto)
    ));
    assert!(matches!(
        selection_route(BackendChoice::LlamaServer(LlamaCppMode::Cpu), false),
        SelectionRoute::Candidates(ids) if ids == vec![RuntimeId::LlamaServerCpu]
    ));
    assert!(matches!(
        selection_route(BackendChoice::LlamaFast(LlamaCppMode::Cpu), false),
        SelectionRoute::Direct(_)
    ));
    assert_eq!(
        backend_to_build_for_request(
            BackendChoice::Auto,
            BackendChoice::LlamaServer(LlamaCppMode::Cpu),
            ModelFormat::Gguf,
        ),
        BackendChoice::LlamaServer(LlamaCppMode::Cpu)
    );
}

#[test]
fn built_backends_are_remembered_by_name() {
    let mut cache = BackendCache::new();
    assert!(cache.get("one").is_none());
    cache.insert("one", 1);
    cache.insert("two", 2);
    assert_eq!(cache.get("one"), Some(&1));
    assert_eq!(cache.get("two"), Some(&2));
}

#[test]
fn candle_warns_when_it_stands_in_for_cuda() {
    assert!(!candle_safetensors_cuda_fallback_warning(
        ModelFormat::Gguf,
        RequestedBackend::Cuda,
        RuntimeId::CandleCuda,
    ));
    assert!(candle_safetensors_cuda_fallback_warning(
        ModelFormat::SafeTensors,
        RequestedBackend::Cuda,
        RuntimeId::CandleCuda,
    ));
}

#[test]
fn backends_are_built_once_for_their_name() {
    let mut cache = BackendCache::new();
    let cpu = BackendChoice::LlamaServer(LlamaCppMode::Cpu);
    assert!(matches!(
        cache.cached_backend(cpu, ""),
        Ok(CachedBackend::Build(BuiltBackend::Concrete(choice))) if choice == cpu
    ));
    cache.insert("llama-server-cpu", 7);
    assert!(matches!(
        cache.cached_backend(cpu, ""),
        Ok(CachedBackend::Have(kept)) if *kept == 7
    ));
    assert!(cache.cached_backend(BackendChoice::Auto, "").is_err());
}

#[test]
fn routers_answer_for_images_only() {
    let mut manifest = test_manifest(ModelFormat::Gguf, Some("qwen3_vl"));
    manifest.metadata.tasks = vec![InferenceTask::ImageUnderstanding];
    let found = || Ok(BackendChoice::LlamaServer(LlamaCppMode::Cpu));
    assert!(
        router_task_readiness(&manifest, InferenceTask::TextGeneration, found(), "").is_none()
    );
    let readiness =
        router_task_readiness(&manifest, InferenceTask::ImageUnderstanding, found(), "").unwrap();
    assert_eq!(readiness.status, TaskReadinessStatus::Available);
    assert!(matches!(
        vllm_task_readiness(InferenceTask::TextGeneration, Ok(BackendChoice::Vllm)),
        VllmReadiness::Nothing
    ));
    assert!(matches!(
        vllm_task_readiness(InferenceTask::ImageUnderstanding, Ok(BackendChoice::VllmRocm)),
        VllmReadiness::Ask(BackendChoice::VllmRocm)
    ));
    let VllmReadiness::Known(readiness) = vllm_task_readiness(
        InferenceTask::ImageUnderstanding,
        Err("no\n  device".to_string()),
    ) else {
        panic!("there is nobody to ask")
    };
    assert_eq!(readiness.detail, "no device");
}

#[test]
fn backends_belong_to_runtimes_and_accelerators() {
    let rocm = BackendChoice::LlamaServer(LlamaCppMode::Rocm);
    assert_eq!(backend_runtime(rocm), BackendRuntime::LlamaServer);
    assert_eq!(backend_accelerator(rocm), BackendAccelerator::Rocm);
    assert_eq!(
        backend_accelerator(BackendChoice::Mlx),
        BackendAccelerator::Mlx
    );
    assert!(!backend_supports_manifest(
        BackendChoice::Auto,
        ModelFormat::Gguf,
        true,
        true
    ));
    assert!(backend_supports_manifest(
        backend_arg_to_choice(BackendArg::Cuda, linux()),
        ModelFormat::SafeTensors,
        false,
        false
    ));
    assert!(!backend_supports_manifest(
        rocm,
        ModelFormat::Gguf,
        true,
        false
    ));
}

#[test]
fn unavailable_runtimes_give_their_reason() {
    assert_eq!(
        runtime_unavailability_reason(
            RuntimeId::VllmRocm,
            Err("no ROCm".to_string()),
            Some("other".to_string())
        )
        .as_deref(),
        Some("no ROCm")
    );
    assert_eq!(
        runtime_unavailability_reason(
            RuntimeId::CandleCpu,
            Err("no ROCm".to_string()),
            Some("other".to_string())
        )
        .as_deref(),
        Some("other")
    );
    let options = SelectionOptions::from_cli(BackendArg::Auto, false, false);
    assert!(installs_onnx_runtime(true, options));
    assert!(!installs_onnx_runtime(false, options));
    assert!(!installs_onnx_runtime(true, SelectionOptions::default()));
}

#[test]
fn strix_profile_keeps_explicit_vllm_accelerator_provenance() {
    let manifest = test_manifest(ModelFormat::SafeTensors, Some("nemotron_h"));
    let candidates = runtime_candidate_ids_for_selection(
        vec![RuntimeId::VllmCuda],
        RequestedBackend::Vllm,
        ModelFormat::SafeTensors,
        RocmSignals {
            strix_halo: true,
            vllm_supports_model: true,
            ..signals()
        },
    );

    assert_eq!(candidates.first(), Some(&RuntimeId::VllmRocm));
    assert!(candidates.contains(&RuntimeId::VllmCuda));

    let strix = Host {
        strix_halo: true,
        ..linux()
    };
    let selected = selected_backend_for_manifest(
        BackendChoice::Vllm,
        &manifest,
        &planned(PlanOutcome::Selected(
            RuntimeId::VllmRocm,
            "vLLM ROCm".to_string(),
        )),
        strix,
    )
    .unwrap();
    assert!(matches!(selected, BackendChoice::VllmRocm));
    let message = selected_backend_for_manifest(
        BackendChoice::Vllm,
        &manifest,
        &planned(PlanOutcome::Nothing(vec![
            rejected(RuntimeId::VllmRocm, "vLLM ROCm", "no device"),
            rejected(RuntimeId::VllmCuda, "vLLM CUDA", "no device"),
        ])),
        strix,
    )
    .unwrap_err();
    assert!(message.contains("vLLM ROCm"), "{message}");
    assert!(message.contains("vLLM CUDA"), "{message}");
}

#[test]
fn auto_safetensors_can_fallback_to_candle_without_verbose_burn_note() {
    let manifest = test_manifest(ModelFormat::SafeTensors, Some("unknown"));
    let selected = selected_backend_for_manifest(
        BackendChoice::Auto,
        &manifest,
        &planned(PlanOutcome::Selected(
            RuntimeId::CandleCpu,
            "Candle CPU".to_string(),
        )),
        linux(),
    )
    .unwrap();
    assert!(matches!(selected, BackendChoice::Candle(_)));
}

#[test]
fn backend_selection_falls_back_to_candle_cuda_when_vllm_missing() {
    let manifest = test_manifest(ModelFormat::SafeTensors, Some("unknown"));
    let requested = BackendChoice::GgufPreferred {
        llama: LlamaCppMode::Cuda,
        candle: CandleDeviceMode::Cuda,
    };
    let selected = selected_backend_for_manifest(
        requested,
        &manifest,
        &planned(PlanOutcome::Selected(
            RuntimeId::CandleCuda,
            "Candle CUDA".to_string(),
        )),
        linux(),
    )
    .unwrap();
    assert!(matches!(
        selected,
        BackendChoice::Candle(CandleDeviceMode::Cuda)
    ));
    let reason = backend_unavailability_reason(
        BackendChoice::Candle(CandleDeviceMode::Cuda),
        &BackendProbe {
            error: Some("no device".to_string()),
            ..sound_probe()
        },
        SelectionOptions::default(),
        linux(),
    )
    .unwrap();
    let message = selected_backend_for_manifest(
        requested,
        &manifest,
        &planned(PlanOutcome::Nothing(vec![rejected(
            RuntimeId::CandleCuda,
            "Candle CUDA",
            &reason,
        )])),
        linux(),
    )
    .unwrap_err();
    assert!(message.contains("Candle CUDA"));
    assert!(!message.contains("Burn"));
    assert!(!message.contains("Candle CPU"));
}

#[test]
fn explicit_cuda_selection_never_selects_cpu_fallback() {
    let requested = BackendChoice::GgufPreferred {
        llama: LlamaCppMode::Cuda,
        candle: CandleDeviceMode::Cuda,
    };
    let gguf = test_manifest(ModelFormat::Gguf, Some("llama"));
    let selected = selected_backend_for_manifest(
        requested,
        &gguf,
        &planned(PlanOutcome::Selected(
            RuntimeId::LlamaServerCuda,
            "llama.cpp server CUDA".to_string(),
        )),
        linux(),
    )
    .unwrap();
    assert!(matches!(
        selected,
        BackendChoice::LlamaServer(LlamaCppMode::Cuda)
    ));

    let safetensors = test_manifest(ModelFormat::SafeTensors, Some("unknown"));
    let message = selected_backend_for_manifest(
        requested,
        &safetensors,
        &planned(PlanOutcome::Nothing(vec![rejected(
            RuntimeId::CandleCuda,
            "Candle CUDA",
            "no device",
        )])),
        linux(),
    )
    .unwrap_err();
    assert!(message.contains("Candle CUDA"));
    assert!(!message.contains("Burn"));
    assert!(!message.contains("Candle CPU"));
}

#[test]
fn backend_selection_routes_mlx_format_to_mlx() {
    let manifest = test_manifest(ModelFormat::Mlx, Some("llama"));
    let mut facts = planned(PlanOutcome::Nothing(Vec::new()));
    facts.candidates = vec![runtime(RuntimeId::Mlx, "MLX", BackendRuntime::Mlx)];
    let selected =
        selected_backend_for_manifest(BackendChoice::Mlx, &manifest, &facts, macos()).unwrap();
    assert!(matches!(selected, BackendChoice::Mlx));
    facts.candidates[0].unavailable = Some("mlx-lm is unavailable".to_string());
    let message =
        selected_backend_for_manifest(BackendChoice::Mlx, &manifest, &facts, macos()).unwrap_err();
    assert!(message.contains("mlx-lm is unavailable"));
}

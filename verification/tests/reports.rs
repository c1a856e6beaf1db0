use werk_cli::args::{BackendArg, LlamaCppMode, OnnxRuntimeMode};
use werk_cli::backend::{BackendChoice, BackendRuntime, Host, RequestedBackend, RuntimeId};
use werk_cli::bench::{print_bench_report, BenchBackendReport, BenchReport, BenchSample};
use werk_cli::doctor::{
    diagnosed_task, doctor_check_status, listed_llama_modes, listed_onnx_modes, models_for_task,
    print_backend_discovery, print_backend_doctor, print_backend_list, print_inference_doctor,
    print_perf_doctor, BackendDiagnosis, BackendInventory, BurnDiagnosis, BurnProbeReport,
    BurnRuntime, CompanionCheck, CompanionReport, Discovery, DiscoveryAttempt, DoctorCheck,
    LlamaDiscovery, ModelDiagnosis, ModelPlan, OnnxDiscovery, OnnxRuntimeAvailability, Platform,
    RegisteredRuntime, RuntimeState, TaskDiagnosis, VllmDiscovery,
};
use werk_cli::json::{parse_json, Json};
use werk_cli::manifest::{
    ArtifactKind, ArtifactStatus, InferenceTask, InputModality, ModelArtifact, ModelFormat,
    ModelManifest, ModelMetadata, ModelSource, ModelStorage, OutputModality,
};
use werk_cli::media_diagnostics::{
    media_effective_u64, media_output_bytes, media_output_formats, media_output_pixels,
    media_output_resolutions, media_output_u64_first, media_output_u64_sum, media_seed,
    write_media_backend_debug, write_media_failed_attempts, write_media_routing_debug,
    write_media_verbose_stats, DurationSummary, EffectiveRequest, ExecutionPlan, MediaRates,
    MediaReport, MediaTimings, PlanCandidate, ResolvedParameter, RuntimeAttempt, WorkloadEstimate,
};
use werk_cli::media_request::{InferenceInput, InferenceInputSource};
use werk_cli::model_list::{format_model_list, join_display, ListedModel};
use werk_cli::outputs::OutputFile;
use werk_cli::parameters::{
    choose_candidates, example_model, parameter_support_candidate, parameters_task,
    print_parameters, retain_candidates, ParameterDescriptor, RuntimeCandidate,
};
use werk_cli::readiness::{print_task_readiness, TaskReadiness, TaskReadinessStatus};
use werk_cli::redaction::{
    contains_absolute_path, media_debug_parameter_value, media_parameter_is_sensitive,
    media_sanitize_debug_text, media_text_presence, trim_float, ParameterValue,
};
use werk_cli::report_lines::text_of_lines;
use werk_cli::routing_debug::{
    print_routing_debug, ConsideredRuntime, RoutingStory, RuntimeDetails, SelectedRuntime,
};
use werk_cli::selection::request_capabilities;
use werk_cli::summaries::{
    artifact_debug_label, print_artifact_list, print_artifact_result, print_manifest_summary,
};
use werk_cli::workload::{
    print_workload_estimate, request_on_runtime, workload_estimate_request, WorkloadEstimateArgs,
    WorkloadReport,
};

fn test_manifest(id: &str, storage: ModelStorage) -> ModelManifest {
    ModelManifest {
        id: id.to_string(),
        source: ModelSource::LocalPath {
            path: "source".to_string(),
        },
        storage,
        format: ModelFormat::Gguf,
        architecture: None,
        tokenizer_path: None,
        config_path: None,
        model_path: Some("files/small.gguf".to_string()),
        backend: "llama-server".to_string(),
        created_unix: 1,
        files: Vec::new(),
        artifacts: Vec::new(),
        metadata: ModelMetadata {
            repository_layout: "unknown".to_string(),
            family: None,
            tasks: Vec::new(),
            input_modalities: Vec::new(),
            output_modalities: Vec::new(),
            components: 0,
            precision: None,
            quantization: None,
            compatible_runtimes: Vec::new(),
        },
    }
}

fn parameter(
    path: &str,
    value: ParameterValue,
    source: &str,
    adjusted: bool,
    explicit: bool,
) -> ResolvedParameter {
    ResolvedParameter {
        path: path.to_string(),
        value,
        source: source.to_string(),
        adjusted,
        explicit,
    }
}

fn test_output() -> OutputFile {
    OutputFile {
        id: "out-diagnostic-0".to_string(),
        path: "diagnostic.png".to_string(),
        mime_type: "image/png".to_string(),
        size_bytes: 10,
        width: Some(16),
        height: Some(16),
        duration: None,
        seed: Some(1),
        metadata: Json::Null,
    }
}

fn test_media_diagnostic_result() -> MediaReport {
    MediaReport {
        task: InferenceTask::ImageGeneration,
        runtime: "test-runtime".to_string(),
        parameter_namespace: "image".to_string(),
        backend: Json::Null,
        request: EffectiveRequest {
            task: "image-generation".to_string(),
            model: "test-model".to_string(),
            parameter_policy: "strict".to_string(),
            prompt: Some("test".to_string()),
            negative_prompt: None,
            inputs: Vec::new(),
            parameters: Vec::new(),
        },
        estimate: WorkloadEstimate {
            fit: "fits".to_string(),
            confidence: "exact".to_string(),
            accelerator_peak_bytes: None,
            host_peak_bytes: None,
        },
        plan: ExecutionPlan {
            candidates: Vec::new(),
            selected_runtime: Some("test-runtime".to_string()),
            selected_backend: Some("test-backend".to_string()),
            score: Some(1),
            backend_fallback: false,
            degradations: Vec::new(),
            quality_downgrades: Vec::new(),
        },
        attempts: Vec::new(),
        outputs: vec![test_output()],
    }
}

fn timings(load: Option<&str>, inference: Option<&str>, encoding: Option<&str>) -> MediaTimings {
    MediaTimings {
        total: "10s".to_string(),
        service: "9.8s".to_string(),
        publication: "200ms".to_string(),
        resolution: None,
        estimate: None,
        planning: None,
        output_setup: None,
        execution: None,
        finalization: None,
        companion: None,
        model_load: load.map(str::to_string),
        inference: inference.map(str::to_string),
        encoding: encoding.map(str::to_string),
    }
}

fn no_rates() -> MediaRates {
    MediaRates {
        per_image: None,
        megapixels: None,
        playback: None,
        frames: None,
        real_time_factor: None,
        durations: DurationSummary::Nothing,
    }
}

#[test]
fn media_verbose_stats_are_task_specific_and_never_report_tokens() {
    let mut image = test_media_diagnostic_result();
    image.backend = parse_json(
        r#"{
            "runtime": "diffusers",
            "device": "cuda",
            "dtype": "float16",
            "model_load_seconds": 6.0,
            "inference_seconds": 2.0,
            "encoding_seconds": 0.5
        }"#,
    )
    .unwrap();
    image.outputs[0].width = Some(512);
    image.outputs[0].height = Some(512);
    image.request.parameters = vec![parameter(
        "image.steps",
        ParameterValue::Integer(20),
        "request_override",
        false,
        false,
    )];
    image.attempts = vec![RuntimeAttempt {
        runtime: "media-companion-cuda".to_string(),
        outcome: "succeeded".to_string(),
        duration: "9.5s".to_string(),
        error: None,
    }];
    let phases = timings(Some("6s"), Some("2s"), Some("500ms"));
    let output = text_of_lines(&write_media_verbose_stats(
        &image,
        OutputModality::Image,
        &phases,
        &MediaRates {
            per_image: Some("2s".to_string()),
            megapixels: Some("0.13".to_string()),
            ..no_rates()
        },
    ));
    assert!(output.contains("device:                 cuda"));
    assert!(output.contains("model load/setup:       6s"));
    assert!(output.contains("resolution:             512x512"));
    assert!(output.contains("steps:                  20"));
    assert!(output.contains("generation rate:"));
    assert!(output.contains("MP/s"));
    assert!(!output.contains("token"));

    let mut video = image;
    video.task = InferenceTask::VideoGeneration;
    video.parameter_namespace = "video".to_string();
    video.outputs[0].mime_type = "video/mp4".to_string();
    video.outputs[0].duration = Some("2s".to_string());
    video.outputs[0].metadata = parse_json(r#"{"frames": 48, "fps": 24.0}"#).unwrap();
    let output = text_of_lines(&write_media_verbose_stats(
        &video,
        OutputModality::Video,
        &phases,
        &MediaRates {
            playback: Some("24.00".to_string()),
            frames: Some("12.00".to_string()),
            durations: DurationSummary::Single("2s".to_string()),
            ..no_rates()
        },
    ));
    assert!(output.contains("generated frames:       48"));
    assert!(output.contains("playback rate:          24.00 fps"));
    assert!(output.contains("generation rate:        12.00 frames/s"));
    assert!(!output.contains("tokens/s"));

    let mut audio = video;
    audio.task = InferenceTask::TextToSpeech;
    audio.parameter_namespace = "tts".to_string();
    audio.outputs[0].width = None;
    audio.outputs[0].height = None;
    audio.outputs[0].duration = Some("5s".to_string());
    audio.outputs[0].metadata = parse_json(r#"{"sample_rate": 24000, "channels": 1}"#).unwrap();
    let output = text_of_lines(&write_media_verbose_stats(
        &audio,
        OutputModality::Audio,
        &phases,
        &MediaRates {
            real_time_factor: Some("0.400".to_string()),
            durations: DurationSummary::Single("5s".to_string()),
            ..no_rates()
        },
    ));
    assert!(output.contains("output duration:        5s"));
    assert!(output.contains("sample rate:            24000 Hz"));
    assert!(output.contains("channels:               1"));
    assert!(output.contains("real-time factor:       0.400"));
    assert!(!output.contains("token"));

    let mut second = test_output();
    second.id = "out-diagnostic-1".to_string();
    audio.outputs.push(second);
    let output = text_of_lines(&write_media_verbose_stats(
        &audio,
        OutputModality::Audio,
        &phases,
        &MediaRates {
            real_time_factor: Some("0.200".to_string()),
            durations: DurationSummary::Each("5s".to_string(), 2),
            ..no_rates()
        },
    ));
    assert!(output.contains("output duration:        5s each (2 outputs)"));
    assert!(output.contains("aggregate RTF:          0.200"));
}

#[test]
fn media_debug_reports_routing_without_leaking_private_values() {
    let mut result = test_media_diagnostic_result();
    result.request.prompt = Some("PROMPT_SECRET".to_string());
    result.request.negative_prompt = Some("NEGATIVE_SECRET".to_string());
    result.request.inputs = vec![
        InferenceInput {
            modality: InputModality::Image,
            role: "initial_image".to_string(),
            source: InferenceInputSource::Path {
                path: "/private/input/SECRET_IMAGE.png".to_string(),
            },
            mime_type: Some("image/png".to_string()),
        },
        InferenceInput {
            modality: InputModality::Image,
            role: "reference_image".to_string(),
            source: InferenceInputSource::Base64 {
                data: "BASE64_SECRET".to_string(),
            },
            mime_type: Some("image/png".to_string()),
        },
    ];
    result.request.parameters = vec![
        parameter(
            "image.prompt",
            ParameterValue::Text("PARAMETER_SECRET".to_string()),
            "request_override",
            false,
            true,
        ),
        parameter(
            "image.reference_image",
            ParameterValue::Text("/private/reference.png".to_string()),
            "request_override",
            false,
            true,
        ),
        parameter(
            "image.width",
            ParameterValue::Integer(512),
            "request_override",
            false,
            true,
        ),
        parameter(
            "routing.backend",
            ParameterValue::Text("media-companion".to_string()),
            "task_default",
            false,
            false,
        ),
    ];
    result.plan.candidates = vec![
        PlanCandidate {
            runtime_id: "media-companion-cuda".to_string(),
            backend: "media-companion".to_string(),
            accepted: false,
            score: None,
            reasons: vec![
                "runner missing at /home/private/bin/runner https://example.test/?token=URL_SECRET"
                    .to_string(),
                "runner=/home/private/bin/EMBEDDED_PATH_SECRET url=https://example.test/?token=EMBEDDED_URL_SECRET"
                    .to_string(),
                "windows=C:\\Users\\private\\WINDOWS_PATH_SECRET quoted='/home/private/QUOTED_PATH_SECRET'"
                    .to_string(),
            ],
            degradations: Vec::new(),
        },
        PlanCandidate {
            runtime_id: "media-companion-cpu".to_string(),
            backend: "media-companion".to_string(),
            accepted: true,
            score: Some(25),
            reasons: Vec::new(),
            degradations: Vec::new(),
        },
    ];
    result.plan.selected_runtime = Some("media-companion-cpu".to_string());
    result.backend = parse_json(
        r#"{
            "runtime": "diffusers",
            "device": "cpu",
            "dtype": "float32",
            "text": "TRANSCRIPT_SECRET",
            "translated_parameters": ["prompt", "width"]
        }"#,
    )
    .unwrap();

    let mut output = text_of_lines(&write_media_routing_debug(
        &result.request,
        &result.estimate,
        &result.plan,
    ));
    result.request.parameters.push(parameter(
        "image.steps",
        ParameterValue::Integer(16),
        "backend_adjustment",
        true,
        false,
    ));
    result.request.parameters.push(parameter(
        "image.backend_reference",
        ParameterValue::Text("BACKEND_REFERENCE_SECRET".to_string()),
        "backend_adjustment",
        true,
        false,
    ));
    output.push_str(&text_of_lines(&write_media_backend_debug(&result)));

    assert!(output.contains("candidate runtimes:"));
    assert!(output.contains("status=rejected"));
    assert!(output.contains("routing backend:        media-companion (task_default)"));
    assert!(output.contains("resolved parameters:"));
    assert!(output.contains("image.width = 512 (request_override explicit)"));
    assert!(output.contains("image.prompt = <redacted>"));
    assert!(output.contains("backend adjustments:"));
    assert!(output.contains("image.steps = 16"));
    assert!(output.contains("image.backend_reference = <redacted>"));
    assert!(output.contains("source=path (redacted)"));
    assert!(output.contains("source=base64 (redacted)"));
    assert!(output.contains("<path>"));
    assert!(output.contains("<url>"));
    for secret in [
        "PROMPT_SECRET",
        "NEGATIVE_SECRET",
        "PARAMETER_SECRET",
        "SECRET_IMAGE",
        "BASE64_SECRET",
        "reference.png",
        "SECRET_MODEL",
        "BACKEND_PROMPT_SECRET",
        "BACKEND_REFERENCE_SECRET",
        "TRANSCRIPT_SECRET",
        "URL_SECRET",
        "EMBEDDED_PATH_SECRET",
        "EMBEDDED_URL_SECRET",
        "WINDOWS_PATH_SECRET",
        "QUOTED_PATH_SECRET",
    ] {
        assert!(!output.contains(secret), "debug output leaked {secret}");
    }
}

#[test]
fn media_debug_reads_the_same_whatever_the_private_texts_are() {
    let report = |secret: &str, backend: &str| {
        let mut result = test_media_diagnostic_result();
        result.request.prompt = Some(format!("prompt {secret}"));
        result.request.parameters = vec![
            parameter(
                "image.prompt",
                ParameterValue::Text(secret.to_string()),
                "request_override",
                true,
                true,
            ),
            parameter(
                "image.scheduler",
                ParameterValue::Text(format!("/private/{secret}")),
                "request_override",
                true,
                true,
            ),
        ];
        result.backend = parse_json(backend).unwrap();
        text_of_lines(&write_media_routing_debug(
            &result.request,
            &result.estimate,
            &result.plan,
        )) + &text_of_lines(&write_media_backend_debug(&result))
    };
    let one = report("first", r#"{"device": "cpu", "text": "one"}"#);
    let other = report("other", r#"{"device": "cpu", "text": "two"}"#);
    assert_eq!(one, other);
    assert!(one.contains("image.scheduler = <redacted>"));
}

#[test]
fn media_debug_redacts_generic_media_and_adapter_parameters() {
    for path in [
        "image.reference",
        "image.model_path",
        "image.control_model",
        "image.checkpoint",
        "image.refiner",
        "image.vae",
        "image.control_image",
        "video.guide_video",
        "audio.guide_audio",
        "image.lora",
        "image.adapter_name",
    ] {
        assert_eq!(
            media_debug_parameter_value(path, &ParameterValue::Text("PRIVATE_VALUE".to_string())),
            "<redacted>",
            "{path} was not treated as sensitive"
        );
    }
    for value in [
        "/private/scheduler.json",
        "C:\\Users\\private\\scheduler.json",
        "https://example.test/model?token=secret",
        "data:application/octet-stream;base64,secret",
    ] {
        assert_eq!(
            media_debug_parameter_value(
                "image.scheduler",
                &ParameterValue::Text(value.to_string())
            ),
            "<redacted>",
            "{value} was not treated as sensitive"
        );
    }
    assert_eq!(
        media_debug_parameter_value(
            "image.reference_weight",
            &ParameterValue::Number(format!("{:.6}", 0.75))
        ),
        "0.75"
    );
    assert_eq!(
        media_debug_parameter_value("image.vae_tiling", &ParameterValue::Boolean(true)),
        "true"
    );
    assert_eq!(
        media_debug_parameter_value(
            "routing.performance_preference",
            &ParameterValue::Text("balanced".to_string())
        ),
        "\"balanced\""
    );
    assert_eq!(
        media_debug_parameter_value(
            "routing.profile",
            &ParameterValue::Text("quality".to_string())
        ),
        "\"quality\""
    );
}

#[test]
fn media_verbose_omits_unmeasured_or_invalid_phases_and_rates() {
    let mut result = test_media_diagnostic_result();
    result.backend =
        parse_json(r#"{"runtime": "external", "inference_seconds": "NaN"}"#).unwrap();

    let output = text_of_lines(&write_media_verbose_stats(
        &result,
        OutputModality::Image,
        &timings(None, None, None),
        &no_rates(),
    ));

    assert!(!output.contains("model load/setup:"));
    assert!(!output.contains("\ninference:"));
    assert!(!output.contains("encoding:"));
    assert!(!output.contains("generation rate:"));
    assert!(!output.contains("NaN"));
}

#[test]
fn failed_attempt_report_keeps_timings_without_dumping_backend_errors() {
    let attempts = vec![RuntimeAttempt {
        runtime: "media-companion-cuda".to_string(),
        duration: "3.5s".to_string(),
        outcome: "failed".to_string(),
        error: Some("load failed at /private/model with prompt BACKEND_ERROR_SECRET".to_string()),
    }];
    let output = text_of_lines(&write_media_failed_attempts(&attempts, "4s"));

    assert!(output.contains("media execution failed:"));
    assert!(output.contains("service duration:       4s"));
    assert!(output.contains("media-companion-cuda outcome=failed duration=3.5s"));
    assert!(!output.contains("/private/model"));
    assert!(!output.contains("BACKEND_ERROR_SECRET"));
}

#[test]
fn mixed_storage_lists_actual_locations_at_both_terminal_widths() {
    let external_path = "/tmp/werk-list-storage/raid/large";
    let managed_path = "/tmp/werk-list-storage/local/models/small-local";
    let registration_path = "/tmp/werk-list-storage/local/models/large-external";
    let models = vec![
        ListedModel {
            manifest: test_manifest("small-local", ModelStorage::Managed),
            tasks: Vec::new(),
            location: managed_path.to_string(),
        },
        ListedModel {
            manifest: test_manifest(
                "large-external",
                ModelStorage::External {
                    path: external_path.to_string(),
                },
            ),
            tasks: Vec::new(),
            location: external_path.to_string(),
        },
    ];
    for width in [40, 4096] {
        let output = format_model_list(&models, "/tmp/werk-list-storage/local", width);
        assert!(output.contains("small-local"));
        assert!(output.contains("large-external"));
        assert!(output.contains("managed"));
        assert!(output.contains("external"));
        assert!(output.contains(managed_path));
        assert!(output.contains(external_path));
        assert!(!output.contains(registration_path));
    }
}

#[test]
fn wide_characters_are_measured_in_columns() {
    let listed = |id: &str| ListedModel {
        manifest: test_manifest(id, ModelStorage::Managed),
        tasks: Vec::new(),
        location: "/store/x".to_string(),
    };
    let output = format_model_list(&vec![listed("日本語"), listed("abcdef")], "/store", 4096);
    let rows = output
        .lines()
        .filter(|line| line.starts_with("日本語") || line.starts_with("abcdef"))
        .collect::<Vec<_>>();
    assert_eq!(rows.len(), 2);
    let wide = rows[0].strip_prefix("日本語").unwrap();
    let narrow = rows[1].strip_prefix("abcdef").unwrap();
    assert_eq!(wide, narrow);
    assert_eq!(join_display(&vec!["a".to_string(), "b".to_string()]), "a,b");
}

#[test]
fn empty_stores_say_so() {
    let output = format_model_list(&Vec::new(), "/store", 80);
    assert!(output.contains("/store"));
}

#[test]
fn outputs_are_summed_up() {
    let mut other = test_output();
    other.mime_type = "image/webp".to_string();
    other.metadata = parse_json(r#"{"frames": 3}"#).unwrap();
    let outputs = vec![test_output(), other];
    assert_eq!(media_output_bytes(&outputs), 20);
    assert_eq!(media_output_pixels(&outputs), 512);
    assert_eq!(media_output_resolutions(&outputs).as_deref(), Some("16x16"));
    assert!(media_output_formats(&outputs).unwrap().contains("image/webp"));
    assert_eq!(media_output_u64_first(&outputs, "frames"), Some(3));
    assert_eq!(media_output_u64_sum(&outputs, "frames"), Some(3));
    assert_eq!(media_output_u64_sum(&outputs, "missing"), None);
    let mut report = test_media_diagnostic_result();
    report.request.parameters = vec![parameter(
        "image.steps",
        ParameterValue::Integer(20),
        "task_default",
        false,
        false,
    )];
    assert_eq!(media_effective_u64(&report, "steps"), Some(20));
    assert_eq!(media_seed(&report), Some(1));
}

#[test]
fn private_words_are_replaced() {
    assert!(media_parameter_is_sensitive("image.prompt"));
    assert!(!media_parameter_is_sensitive("image.width"));
    assert!(contains_absolute_path("at=/etc/passwd"));
    assert!(!contains_absolute_path("half/half"));
    assert_eq!(
        media_sanitize_debug_text("see /etc/passwd now"),
        "see <path> now"
    );
    assert_eq!(
        media_text_presence(Some("abc")),
        media_text_presence(Some("xyz"))
    );
    assert_eq!(trim_float("0.750000"), "0.75");
    assert_eq!(trim_float("2.000000"), "2");
}

#[test]
fn readiness_is_told_line_by_line() {
    let readiness = TaskReadiness::plain(
        TaskReadinessStatus::Available,
        "all is well".to_string(),
        Some("mlx-vlm".to_string()),
    );
    let output = text_of_lines(&print_task_readiness(&readiness));
    assert!(output.contains("all is well"));
    assert!(output.contains("mlx-vlm"));
}

#[test]
fn discoveries_name_what_was_found() {
    let discovery = LlamaDiscovery {
        mode: LlamaCppMode::Cuda,
        discovery: Discovery {
            source: "managed".to_string(),
            path: Some("/opt/llama-server".to_string()),
            attempts: vec![DiscoveryAttempt {
                label: "managed".to_string(),
                path: Some("/opt/llama-server".to_string()),
                usable: true,
                detail: "ok".to_string(),
            }],
        },
        help_ok: true,
    };
    assert!(print_backend_discovery(&discovery).contains("/opt/llama-server"));
    let check = |ok| DoctorCheck {
        name: "cuda".to_string(),
        ok,
        detail: String::new(),
    };
    assert_ne!(
        doctor_check_status(&check(true)),
        doctor_check_status(&check(false))
    );
}

#[test]
fn the_preferred_candidate_has_the_highest_priority() {
    let candidate = |id: &str, available, priority| RuntimeCandidate {
        id: id.to_string(),
        backend: "media-companion".to_string(),
        accelerator: "cuda".to_string(),
        available,
        priority,
        support: Vec::new(),
    };
    let all = vec![
        candidate("a", true, 1),
        candidate("b", true, 7),
        candidate("c", false, 9),
    ];
    assert_eq!(parameter_support_candidate(&all), Some(1));
    assert_eq!(parameter_support_candidate(&Vec::new()), None);
    assert_eq!(
        retain_candidates(all, BackendArg::Auto, true)
            .unwrap()
            .len(),
        3
    );
    assert_eq!(
        parameters_task(Some(InferenceTask::TextToSpeech), "text-to-speech", None),
        Ok(InferenceTask::TextToSpeech)
    );
}

#[test]
fn workloads_are_requested_and_told() {
    let request = workload_estimate_request(
        "flux".to_string(),
        InferenceTask::ImageGeneration,
        true,
        "image",
        BackendArg::Cuda,
        None,
        &WorkloadEstimateArgs {
            width: Some(1024),
            height: None,
            frames: None,
            duration: None,
            batch_size: None,
            sample_rate: None,
            channels: None,
            steps: Some(30),
        },
    );
    assert_eq!(request.model, "flux");
    assert!(request
        .parameters
        .iter()
        .any(|(path, value)| path == "image.width" && matches!(value, ParameterValue::Integer(1024))));
    assert!(request.parameters.iter().any(|(path, _)| path == "image.steps"));
    let report = WorkloadReport {
        task: "image-generation".to_string(),
        fit: "fits".to_string(),
        confidence: "exact".to_string(),
        download_size_bytes: Some(1024),
        weight_payload_bytes: None,
        accelerator_peak_bytes: None,
        host_peak_bytes: None,
        output_size_bytes: None,
        warnings: vec!["slow".to_string()],
        recommendations: Vec::new(),
        assumptions: vec!["one image".to_string()],
    };
    let shown = text_of_lines(&print_workload_estimate(&report, true));
    assert!(shown.contains("1.00 KiB"));
    assert!(shown.contains("slow"));
    assert!(shown.contains("one image"));
    assert!(!text_of_lines(&print_workload_estimate(&report, false)).contains("one image"));
}

#[test]
fn benchmarks_are_told_run_by_run() {
    let report = BenchReport {
        model: "tiny".to_string(),
        runs: 1,
        warmups: 0,
        max_tokens: 128,
        temperature: "0".to_string(),
        seed: 42,
        results: vec![
            BenchBackendReport {
                backend: "llama.cpp server CUDA".to_string(),
                runtime: None,
                samples: vec![BenchSample {
                    rate: "12.00".to_string(),
                    completion_tokens: 24,
                    first_token: "0.100".to_string(),
                    total: "2.000".to_string(),
                }],
                median_rate: Some("12.00".to_string()),
                median_total: Some("2.000".to_string()),
                median_first_token: Some("0.100".to_string()),
                error: None,
            },
            BenchBackendReport {
                backend: "llama legacy".to_string(),
                runtime: None,
                samples: Vec::new(),
                median_rate: None,
                median_total: None,
                median_first_token: None,
                error: Some("not compiled".to_string()),
            },
        ],
    };
    assert_eq!(
        print_bench_report(&report, false),
        vec![
            "Benchmark: tiny",
            "runs: 1, warmups: 0, max tokens: 128, temperature: 0, seed: 42",
            "",
            "backend: llama.cpp server CUDA",
            "median eval rate: 12.00 tokens/s",
            "median total: 2.000",
            "median first token: 0.100",
            "  run  1:   12.00 tok/s, 24 token(s), first 0.100, total 2.000",
            "",
            "backend: llama legacy",
            "error: not compiled",
        ]
    );
}

#[test]
fn summaries_and_routing_name_the_model() {
    let manifest = test_manifest("tiny", ModelStorage::Managed);
    let shown = text_of_lines(&print_manifest_summary("imported", &manifest, &Vec::new()));
    assert!(shown.contains("tiny"));
    let story = RoutingStory {
        requested: BackendArg::Auto,
        requested_backend: RequestedBackend::Auto,
        artifact: "none".to_string(),
        capabilities: request_capabilities(false),
        considered: vec![ConsideredRuntime {
            runtime_id: RuntimeId::LlamaServerCpu,
            runtime: BackendRuntime::LlamaServer,
            display_name: "llama.cpp server CPU".to_string(),
            accepted: true,
            reason: "available".to_string(),
            install_target: None,
            details: RuntimeDetails::Nothing,
        }],
        planned: Some(SelectedRuntime {
            runtime_id: RuntimeId::LlamaServerCpu,
            runtime: BackendRuntime::LlamaServer,
            display_name: "llama.cpp server CPU".to_string(),
            reason: "available".to_string(),
        }),
        selected: BackendChoice::LlamaServer(LlamaCppMode::Cpu),
        platform: Platform {
            operating_system: "linux".to_string(),
            architecture: "x86_64".to_string(),
            strix_halo: false,
        },
    };
    assert_eq!(
        print_routing_debug(&story, &manifest)[4..],
        [
            "request capabilities:",
            "  text_generation: yes",
            "  image_input: no",
            "  embeddings: no",
            "  streaming: yes",
            "candidate runtimes:",
            "candidate: llama.cpp server CPU (primary runtime) -> accepted: available",
            "selected runtime: llama.cpp server CPU",
            "selected role: primary runtime",
            "reason: available",
        ]
    );
}

#[test]
fn rejected_runtimes_are_told_of_at_length() {
    let rejected = |runtime_id, details| ConsideredRuntime {
        runtime_id,
        runtime: BackendRuntime::OnnxRuntime,
        display_name: "the runtime".to_string(),
        accepted: false,
        reason: "no runner".to_string(),
        install_target: None,
        details,
    };
    let onnx = || RuntimeDetails::Onnx {
        discovery: found("none", None),
        availability: OnnxRuntimeAvailability::Unavailable,
        reason: "nothing found".to_string(),
    };
    let story = RoutingStory {
        requested: BackendArg::Auto,
        requested_backend: RequestedBackend::Auto,
        artifact: "none".to_string(),
        capabilities: request_capabilities(false),
        considered: vec![
            rejected(RuntimeId::OnnxRuntimeCpu, onnx()),
            rejected(RuntimeId::CandleCpu, onnx()),
            rejected(
                RuntimeId::BurnCpu,
                RuntimeDetails::Burn(BurnProbeReport {
                    available: false,
                    reason: "probe failed".to_string(),
                    architecture: "llama".to_string(),
                    checks: vec![DoctorCheck {
                        name: "weights".to_string(),
                        ok: false,
                        detail: "missing".to_string(),
                    }],
                }),
            ),
        ],
        planned: None,
        selected: BackendChoice::LlamaServer(LlamaCppMode::Cpu),
        platform: Platform {
            operating_system: "linux".to_string(),
            architecture: "x86_64".to_string(),
            strix_halo: false,
        },
    };
    let manifest = test_manifest("tiny", ModelStorage::Managed);
    let told = "candidate: the runtime (primary runtime) -> rejected: no runner";
    let lines = print_routing_debug(&story, &manifest);
    assert_eq!(
        lines[10..lines.len() - 1],
        [
            told,
            "  status: unavailable",
            "  reason: nothing found",
            "  tried:",
            "  - managed venv: /managed/venv (missing)",
            told,
            told,
            "  status: unavailable",
            "  reason: probe failed",
            "  architecture: llama",
            "  checks:",
            "  - weights: failed (missing)",
        ]
    );
}

#[test]
fn models_are_diagnosed_for_a_task() {
    let mut manifest = test_manifest("tiny", ModelStorage::Managed);
    manifest.metadata.tasks = Vec::new();
    assert_eq!(
        diagnosed_task(None, "alias", &manifest),
        Err("model 'alias' does not declare an inference task".to_string())
    );
    assert_eq!(
        diagnosed_task(Some(InferenceTask::TextToSpeech), "alias", &manifest),
        Ok(InferenceTask::TextToSpeech)
    );
    let mut able = test_manifest("able", ModelStorage::Managed);
    able.metadata.tasks = vec![InferenceTask::ImageGeneration, InferenceTask::TextToSpeech];
    assert_eq!(
        diagnosed_task(None, "able", &able),
        Ok(InferenceTask::ImageGeneration)
    );
    assert_eq!(example_model(Some(&able)), "able");
    assert_eq!(example_model(None), "MODEL");
    let all = vec![manifest, able];
    assert_eq!(
        models_for_task(&all, InferenceTask::TextToSpeech),
        vec!["able"]
    );
    let request = || {
        workload_estimate_request(
            "able".to_string(),
            InferenceTask::TextToSpeech,
            true,
            "tts",
            BackendArg::Cuda,
            None,
            &WorkloadEstimateArgs {
                width: None,
                height: None,
                frames: None,
                duration: None,
                batch_size: None,
                sample_rate: None,
                channels: None,
                steps: None,
            },
        )
    };
    let open = request_on_runtime(request(), None);
    assert_eq!(open.backend, "cuda");
    assert_eq!(open.fallback_policy, None);
    let alone = request_on_runtime(request(), Some("qwen-tts"));
    assert_eq!(alone.backend, "qwen-tts");
    assert_eq!(alone.fallback_policy.as_deref(), Some("none"));
    assert_eq!(alone.model, "able");
    assert_eq!(alone.prompt.as_deref(), Some("<estimate>"));
}

#[test]
fn candidates_are_chosen_before_sources_are_asked_for() {
    let candidate = |id: &str, available, priority| RuntimeCandidate {
        id: id.to_string(),
        backend: "media-companion".to_string(),
        accelerator: "Mps".to_string(),
        available,
        priority,
        support: Vec::new(),
    };
    let all = || vec![candidate("a", false, 9), candidate("b", true, 1)];
    assert_eq!(
        choose_candidates(all(), BackendArg::Cuda, true, true).unwrap_err(),
        "no runtime matching backend 'cuda' supports model/task"
    );
    assert_eq!(
        choose_candidates(Vec::new(), BackendArg::Cuda, false, true).unwrap_err(),
        "--sources requires an installed MODEL"
    );
    let shown = choose_candidates(all(), BackendArg::Metal, true, true).unwrap();
    assert_eq!(shown.candidates.len(), 2);
    assert_eq!(shown.support, Some(1));
}

fn found(source: &str, path: Option<&str>) -> Discovery {
    Discovery {
        source: source.to_string(),
        path: path.map(str::to_string),
        attempts: vec![DiscoveryAttempt {
            label: "managed venv".to_string(),
            path: Some("/managed/venv".to_string()),
            usable: false,
            detail: "missing".to_string(),
        }],
    }
}

#[test]
fn backends_are_listed_with_their_runtimes() {
    assert_eq!(
        listed_llama_modes(),
        vec![
            LlamaCppMode::Cuda,
            LlamaCppMode::Rocm,
            LlamaCppMode::Vulkan,
            LlamaCppMode::Metal,
            LlamaCppMode::Cpu,
        ]
    );
    assert_eq!(
        listed_onnx_modes(),
        vec![
            OnnxRuntimeMode::Cuda,
            OnnxRuntimeMode::Rocm,
            OnnxRuntimeMode::Cpu,
        ]
    );
    let inventory = BackendInventory {
        llama: vec![LlamaDiscovery {
            mode: LlamaCppMode::Cuda,
            discovery: found("PATH", Some("/bin/llama-server")),
            help_ok: true,
        }],
        burn: None,
        onnx: vec![OnnxDiscovery {
            mode: OnnxRuntimeMode::Cpu,
            discovery: found("none", None),
            managed_path: "/managed/onnx".to_string(),
        }],
        vllm: VllmDiscovery {
            discovery: found("none", None),
            installed: "no".to_string(),
            health: "missing".to_string(),
            managed_path: "/managed/vllm".to_string(),
        },
        runtimes: vec![RegisteredRuntime {
            display_name: "vLLM CUDA".to_string(),
            runtime: BackendRuntime::Vllm,
            implemented: true,
            accelerators: vec!["Cuda".to_string()],
            vision_language: true,
            install_target: Some("vllm".to_string()),
        }],
        platform: Platform {
            operating_system: "linux".to_string(),
            architecture: "x86_64".to_string(),
            strix_halo: false,
        },
    };
    let shown = text_of_lines(&print_backend_list(&inventory));
    assert!(shown.starts_with("llama-server discovery\n"));
    assert!(shown.contains("/bin/llama-server"));
    assert!(shown.contains("ONNX Runtime discovery"));
    assert!(shown.contains("/managed/venv"));
    assert!(!shown.contains("Burn runtime"));
    let row = shown
        .lines()
        .find(|line| line.starts_with("vLLM CUDA"))
        .unwrap();
    assert_eq!(
        row,
        format!(
            "{:<24} {:<12} {:<12} {:<8} {}",
            "vLLM CUDA", "implemented", "Cuda", "yes", "vllm"
        )
    );
}

#[test]
fn doctors_tell_what_they_found() {
    let host = Host {
        macos: false,
        linux: true,
        windows: false,
        strix_halo: false,
        burn_cuda: false,
        burn_cpu: false,
        candle_cuda: false,
        llama_legacy_cuda: false,
        llama_legacy_vulkan: false,
        metal: false,
    };
    let diagnosis = BackendDiagnosis {
        executable: Ok("/bin/werk".to_string()),
        cache: "/cache".to_string(),
        cuda_cache: "/cache/cuda".to_string(),
        rocm_cache: "/cache/rocm".to_string(),
        metal_cache: "/cache/metal".to_string(),
        checks: vec![DoctorCheck {
            name: "curl".to_string(),
            ok: true,
            detail: "found".to_string(),
        }],
        vllm_checks: Vec::new(),
        runtimes: vec![RuntimeState {
            name: "ONNX Runtime CPU".to_string(),
            availability: OnnxRuntimeAvailability::Unavailable,
            discovery: found("none", None),
            reason: "no runner".to_string(),
        }],
        burn: None,
    };
    let brief = text_of_lines(&print_backend_doctor(&diagnosis, host, false));
    let long = text_of_lines(&print_backend_doctor(&diagnosis, host, true));
    assert!(brief.contains("/bin/werk"));
    assert!(brief.contains("curl"));
    assert!(long.contains("  reason: no runner"));
    assert!(!brief.contains("  tried:"));
    assert!(!long.contains("Burn"));

    let with_burn = BackendDiagnosis {
        burn: Some(BurnDiagnosis {
            checks: vec![DoctorCheck {
                name: "burn".to_string(),
                ok: false,
                detail: "best-effort on WSL".to_string(),
            }],
            runtimes: vec![BurnRuntime {
                name: "Burn CPU".to_string(),
                label: "cpu".to_string(),
                available: true,
                detail: "in process".to_string(),
            }],
        }),
        ..diagnosis
    };
    let brief = text_of_lines(&print_backend_doctor(&with_burn, host, false));
    let long = text_of_lines(&print_backend_doctor(&with_burn, host, true));
    assert!(brief.contains(&format!("{:<24} {:<7} best-effort on WSL\n", "burn", "missing")));
    assert!(brief.contains(&format!("{:<24} {:<12} in process\n", "Burn CPU", "ready")));
    assert!(!brief.contains("probe-gated"));
    assert!(long.contains("  Burn cpu is an in-process probe-gated runtime\n"));

    let companion = CompanionReport {
        available: false,
        summary: "no launcher".to_string(),
        launcher: None,
        checks: vec![
            CompanionCheck {
                name: "diffusers".to_string(),
                available: false,
                required: true,
                detail: "missing".to_string(),
            },
            CompanionCheck {
                name: "torch".to_string(),
                available: true,
                required: true,
                detail: "2.0".to_string(),
            },
        ],
    };
    let task = Some(TaskDiagnosis {
        task: "image-generation".to_string(),
        models: vec!["flux".to_string(), "tiny-sd".to_string()],
    });
    let model = Some(ModelDiagnosis {
        id: "flux".to_string(),
        task: "image-generation".to_string(),
        plan: Ok(ModelPlan {
            layout: "diffusers".to_string(),
            fit: "Fits".to_string(),
            selected_runtime: None,
            readiness: None,
            candidates: Vec::new(),
        }),
    });
    let shown = text_of_lines(&print_inference_doctor(
        Vec::new(),
        &companion,
        Some("DIFFUSERS"),
        &task,
        &model,
    ));
    assert!(shown.contains("Media companion: unavailable (no launcher)"));
    assert!(shown.contains("diffusers"));
    assert!(!shown.contains("torch"));
    assert!(shown.contains("Task image-generation: 2 installed model(s) (flux, tiny-sd)"));
    assert!(shown.contains(
        "Model flux: task=image-generation, layout=diffusers, fit=Fits, runtime=none"
    ));
    let manifest = test_manifest("tiny", ModelStorage::Managed);
    let shown = text_of_lines(&print_perf_doctor(
        &manifest,
        BackendChoice::LlamaServer(LlamaCppMode::Cpu),
        "",
        None,
    ));
    assert!(shown.contains("tiny"));
}

#[test]
fn parameters_and_artifacts_are_tabulated() {
    let descriptors = vec![ParameterDescriptor {
        path: "image.steps".to_string(),
        value_type: "integer".to_string(),
        category: "sampling".to_string(),
        cli_flag: "--steps".to_string(),
        default: Some("20".to_string()),
    }];
    let candidate = RuntimeCandidate {
        id: "media-companion-cuda".to_string(),
        backend: "media-companion".to_string(),
        accelerator: "Cuda".to_string(),
        available: true,
        priority: 1,
        support: vec![("image.steps".to_string(), "native".to_string())],
    };
    let shown = text_of_lines(&print_parameters(
        "image-generation",
        &descriptors,
        Some(&candidate),
        None,
    ));
    assert!(shown.starts_with("Parameters for image-generation\n"));
    assert!(shown.contains(&format!(
        "{:<34} {:<12} {:<16} {:<18} {:<15} {}",
        "image.steps", "integer", "sampling", "--steps", "native", "20"
    )));
    let artifact = ModelArtifact {
        kind: ArtifactKind::Onnx,
        status: ArtifactStatus::Ready,
        path: "artifacts/onnx".to_string(),
        detail: None,
    };
    assert!(
        text_of_lines(&print_artifact_result("Built", "tiny", &artifact)).contains("artifacts/onnx")
    );
    assert!(text_of_lines(&print_artifact_list("tiny", &Vec::new())).contains("tiny"));
    let manifest = test_manifest("tiny", ModelStorage::Managed);
    assert!(!artifact_debug_label(&manifest, Some("/x/onnx")).is_empty());
}

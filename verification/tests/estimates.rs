use werk_cli::binary64::{format_bytes, scale_bytes, Ratio};
use werk_cli::estimate::{
    classify_against_limit, estimate_model_files_bytes, estimate_result, estimate_weight_accounting,
    estimate_weight_accounting_without_store, join_manifest_relative,
    safetensors_index_weight_accounting_from_value, EstimateConfidence, EstimateResult,
};
use werk_cli::estimate_report::{
    estimate_model_memory, estimate_model_or_huggingface, estimate_source_url,
    format_estimate_report, latest_estimate_observation, looks_like_huggingface_repo_id,
    EstimateObservation, EstimateOrigin, EstimateReport, StoreLookup, SystemMemory,
};
use werk_cli::json::{parse_json, Json};
use werk_cli::kv_cache::{
    dtype_bytes, kv_cache_estimate, kv_cache_fallback_bytes, read_estimate_config,
    runtime_overhead_bytes, EstimateConfig,
};
use werk_cli::manifest::{
    manifest_matches_list_filters, InferenceTask, ListFilters, ModelFile, ModelFormat,
    ModelManifest, ModelMetadata, ModelSource, ModelStorage,
};
use werk_cli::memory::{
    linux_meminfo_kib, linux_system_memory, macos_system_memory, parse_macos_vm_page_size,
    vm_stat_adds_up,
};
use werk_cli::remote::{
    estimate_huggingface_model, huggingface_response_body, normalize_remote_hf_file_path,
    parse_remote_hf_files, parse_remote_huggingface_model, percent_encode_hf_path,
    refuse_gated_model, remote_detect_format_for_file_path, remote_file_url, remote_hf_manifest,
    remote_index_path, remote_model_format, remote_model_url,
    validate_huggingface_repo_for_estimate, RemoteEstimate, RemoteHfFile, RemoteHfModel,
};

const GIB: u64 = 1024 * 1024 * 1024;

fn test_metadata() -> ModelMetadata {
    ModelMetadata {
        repository_layout: "unknown".to_string(),
        family: None,
        tasks: Vec::new(),
        input_modalities: Vec::new(),
        output_modalities: Vec::new(),
        components: 0,
        precision: None,
        quantization: None,
        compatible_runtimes: Vec::new(),
    }
}

fn test_manifest(format: ModelFormat, architecture: Option<&str>) -> ModelManifest {
    ModelManifest {
        id: "test-model".to_string(),
        source: ModelSource::LocalPath {
            path: "test".to_string(),
        },
        storage: ModelStorage::Managed,
        format,
        architecture: architecture.map(str::to_string),
        tokenizer_path: None,
        config_path: None,
        model_path: Some("files/model.bin".to_string()),
        backend: "test".to_string(),
        created_unix: 1,
        files: Vec::new(),
        artifacts: Vec::new(),
        metadata: test_metadata(),
    }
}

fn model_file(path: &str, size: u64) -> ModelFile {
    ModelFile {
        path: path.to_string(),
        size,
        checksum: "crc32:00000000".to_string(),
    }
}

fn test_manifest_with_weight(
    format: ModelFormat,
    architecture: Option<&str>,
    path: &str,
    size: u64,
) -> ModelManifest {
    let mut manifest = test_manifest(format, architecture);
    manifest.model_path = Some(path.to_string());
    manifest.files = vec![model_file(path, size)];
    manifest
}

fn estimate(manifest: &ModelManifest, total: Option<u64>, available: Option<u64>) -> EstimateReport {
    estimate_model_memory(
        manifest,
        None,
        None,
        None,
        false,
        SystemMemory {
            total_bytes: total,
            available_bytes: available,
        },
    )
    .unwrap()
}

fn remote_hf_test_model(repo: &str, config: Option<Json>, files: &[(&str, u64)]) -> RemoteHfModel {
    RemoteHfModel {
        repo: repo.to_string(),
        config,
        files: files
            .iter()
            .map(|(path, size)| RemoteHfFile {
                path: (*path).to_string(),
                size: *size,
            })
            .collect(),
        gated: false,
    }
}

fn llama_config() -> Option<Json> {
    Some(parse_json(r#"{"model_type": "llama"}"#).unwrap())
}

#[test]
fn estimate_small_model_fits() {
    let manifest = test_manifest_with_weight(
        ModelFormat::SafeTensors,
        Some("llama"),
        "files/model.safetensors",
        2 * GIB,
    );
    let report = estimate(&manifest, Some(32 * GIB), Some(16 * GIB));

    assert_eq!(report.result, EstimateResult::Fits);
}

#[test]
fn estimate_huggingface_repo_id_detection_is_conservative() {
    assert!(looks_like_huggingface_repo_id("tiiuae/Falcon3-7B-Instruct"));
    assert!(looks_like_huggingface_repo_id("org/repo"));
    assert!(!looks_like_huggingface_repo_id("local-model"));
    assert!(!looks_like_huggingface_repo_id("/tmp/model"));
    assert!(!looks_like_huggingface_repo_id(
        "https://huggingface.co/org/repo"
    ));
}

#[test]
fn estimate_missing_plain_model_keeps_pull_hint() {
    let err =
        estimate_model_or_huggingface(StoreLookup::NotInstalled, "local-missing", None).unwrap_err();

    assert_eq!(
        err,
        "model 'local-missing' is not installed; run `werk pull local-missing` first"
    );
}

#[test]
fn estimate_near_limit_warns() {
    let manifest = test_manifest_with_weight(
        ModelFormat::SafeTensors,
        Some("llama"),
        "files/model.safetensors",
        5 * GIB,
    );
    let report = estimate(&manifest, Some(16 * GIB), Some(10 * GIB));

    assert_eq!(report.result, EstimateResult::Warning);
}

#[test]
fn estimate_above_limit_is_likely_oom() {
    let manifest = test_manifest_with_weight(
        ModelFormat::SafeTensors,
        Some("llama"),
        "files/model.safetensors",
        5 * GIB,
    );
    let report = estimate(&manifest, Some(16 * GIB), Some(8 * GIB));

    assert_eq!(report.result, EstimateResult::LikelyOom);
}

#[test]
fn estimate_memory_heavy_architectures_use_higher_kv_cache() {
    let normal = kv_cache_fallback_bytes(10 * GIB, Some("llama"));
    for architecture in ["jamba", "mamba", "mixtral", "deepseek-moe"] {
        assert!(
            kv_cache_fallback_bytes(10 * GIB, Some(architecture)) > normal,
            "{architecture} should use the memory-heavy KV estimate"
        );
    }
}

#[test]
fn estimate_unknown_available_memory_falls_back_to_total_thresholds() {
    let manifest = test_manifest_with_weight(
        ModelFormat::SafeTensors,
        Some("llama"),
        "files/model.safetensors",
        6 * GIB,
    );
    let report = estimate(&manifest, Some(16 * GIB), None);

    assert_eq!(report.result, EstimateResult::Warning);
}

#[test]
fn estimate_format_bytes_uses_gib_style_output() {
    assert_eq!(format_bytes(GIB), "1.00 GiB");
}

#[test]
fn estimate_gguf_counts_selected_model_file_only() {
    let mut manifest = test_manifest(ModelFormat::Gguf, Some("llama"));
    manifest.model_path = Some("files/model.Q4_K_M.gguf".to_string());
    manifest.files = vec![
        model_file("files/model.Q4_K_M.gguf", 4 * GIB),
        model_file("files/model.Q8_0.gguf", 8 * GIB),
    ];

    assert_eq!(estimate_model_files_bytes(&manifest), 4 * GIB);
}

#[test]
fn estimate_weight_filtering_ignores_metadata_files() {
    let mut manifest = test_manifest(ModelFormat::SafeTensors, Some("llama"));
    manifest.model_path = Some("files/model.safetensors".to_string());
    manifest.files = vec![
        model_file("files/model.safetensors", 3 * GIB),
        model_file("files/tokenizer.json", 1_000),
        model_file("files/tokenizer_config.json", 1_000),
        model_file("files/special_tokens_map.json", 1_000),
        model_file("files/generation_config.json", 1_000),
        model_file("files/config.json", 1_000),
        model_file("files/README.md", 1_000),
        model_file("files/LICENSE", 1_000),
        model_file("files/merges.txt", 1_000),
        model_file("files/vocab.json", 1_000),
        model_file("files/chat_template.jinja", 1_000),
    ];

    let accounting = estimate_weight_accounting_without_store(&manifest);

    assert_eq!(accounting.total_bytes(), 3 * GIB);
    assert_eq!(accounting.counted.len(), 1);
    assert!(accounting
        .ignored
        .iter()
        .any(|file| file.path.ends_with("tokenizer.json")));
    assert!(accounting
        .ignored
        .iter()
        .any(|file| file.path.ends_with("README.md")));
}

#[test]
fn estimate_safetensors_index_counts_referenced_shards() {
    let mut manifest = test_manifest(ModelFormat::SafeTensors, Some("llama"));
    manifest.model_path = Some("files/model.safetensors".to_string());
    manifest.files = vec![
        model_file("files/model.safetensors.index.json", 128),
        model_file("files/model-00001-of-00002.safetensors", 2 * GIB),
        model_file("files/model-00002-of-00002.safetensors", 2 * GIB),
        model_file("files/unreferenced.safetensors", 10 * GIB),
        model_file("files/tokenizer.json", 256),
    ];
    let index = r#"{"weight_map":{"a":"model-00001-of-00002.safetensors","b":"model-00002-of-00002.safetensors"}}"#;

    let accounting = estimate_weight_accounting(&manifest, Some(index));

    assert_eq!(accounting.total_bytes(), 4 * GIB);
    assert_eq!(accounting.confidence, EstimateConfidence::High);
    assert!(accounting
        .ignored
        .iter()
        .any(|file| file.path == "files/unreferenced.safetensors"));
}

#[test]
fn estimate_kv_cache_formula_computes_expected_bytes() {
    let config = EstimateConfig {
        hidden_size: Some(2048),
        num_hidden_layers: Some(24),
        num_attention_heads: Some(32),
        num_key_value_heads: Some(8),
        head_dim: None,
        max_position_embeddings: Some(8192),
        dtype: Some("bfloat16".to_string()),
        ..EstimateConfig::default()
    };

    let estimate = kv_cache_estimate(4 * GIB, Some("llama"), &Some(config));

    assert_eq!(estimate.bytes, 24 * 8 * 64 * 2 * 8192 * 2);
    assert_eq!(estimate.confidence, EstimateConfidence::High);
    assert!(estimate.config_used);
}

#[test]
fn estimate_kv_cache_formula_with_defaults_is_medium_confidence() {
    let config = EstimateConfig {
        hidden_size: Some(2048),
        num_hidden_layers: Some(24),
        num_attention_heads: Some(32),
        ..EstimateConfig::default()
    };

    let estimate = kv_cache_estimate(4 * GIB, Some("llama"), &Some(config));

    assert_eq!(estimate.confidence, EstimateConfidence::Medium);
    assert!(estimate.config_used);
}

#[test]
fn estimate_fallback_heuristic_marks_confidence_low() {
    let estimate = kv_cache_estimate(4 * GIB, Some("llama"), &None);

    assert_eq!(estimate.bytes, scale_bytes(4 * GIB, Ratio::Percent35));
    assert_eq!(estimate.bytes, (4.0 * GIB as f64 * 0.35).ceil() as u64);
    assert_eq!(estimate.confidence, EstimateConfidence::Low);
    assert!(!estimate.config_used);
}

#[test]
fn estimate_memory_heavy_config_keeps_low_confidence() {
    let config = EstimateConfig {
        hidden_size: Some(4096),
        num_hidden_layers: Some(32),
        num_attention_heads: Some(32),
        num_key_value_heads: Some(8),
        max_position_embeddings: Some(4096),
        dtype: Some("bfloat16".to_string()),
        model_type: Some("jamba".to_string()),
        ..EstimateConfig::default()
    };

    let estimate = kv_cache_estimate(10 * GIB, Some("jamba"), &Some(config));

    assert_eq!(estimate.bytes, scale_bytes(10 * GIB, Ratio::Percent60));
    assert_eq!(estimate.confidence, EstimateConfidence::Low);
    assert!(!estimate.config_used);
}

#[test]
fn estimate_smol_lm_like_config_uses_formula_not_weight_fraction() {
    let mut manifest = test_manifest_with_weight(
        ModelFormat::SafeTensors,
        Some("llama"),
        "files/model.safetensors",
        3 * GIB,
    );
    manifest.config_path = Some("files/config.json".to_string());
    let config = r#"{
        "model_type": "llama",
        "hidden_size": 2048,
        "num_hidden_layers": 24,
        "num_attention_heads": 32,
        "num_key_value_heads": 32,
        "max_position_embeddings": 8192,
        "torch_dtype": "bfloat16"
    }"#;

    let report = estimate_model_memory(
        &manifest,
        None,
        Some(config),
        None,
        false,
        SystemMemory {
            total_bytes: Some(48 * GIB),
            available_bytes: Some(32 * GIB),
        },
    )
    .unwrap();

    assert!(report.config_used);
    assert_eq!(report.confidence, EstimateConfidence::High);
    assert_eq!(report.kv_cache_bytes, 24 * 32 * 64 * 2 * 8192 * 2);
    assert_eq!(
        report.estimated_total_bytes,
        report.model_files_bytes + report.runtime_overhead_bytes + report.kv_cache_bytes
    );
}

#[test]
fn estimate_output_formatting_ends_with_newline() {
    let manifest = test_manifest_with_weight(
        ModelFormat::Gguf,
        Some("llama"),
        "files/model.Q4_K_M.gguf",
        GIB,
    );
    let report = estimate(&manifest, Some(16 * GIB), Some(8 * GIB));

    assert!(format_estimate_report(&report, true).ends_with('\n'));
}

#[test]
fn remote_hf_metadata_parses_lfs_file_sizes() {
    let metadata = parse_json(
        r#"{
            "siblings": [
                {"rfilename": "model.safetensors", "lfs": {"size": 1234}},
                {"rfilename": "tokenizer.json", "size": "5678"}
            ]
        }"#,
    )
    .unwrap();

    let files = parse_remote_hf_files(&metadata);

    assert_eq!(files.len(), 2);
    assert_eq!(files[0].path, "model.safetensors");
    assert_eq!(files[0].size, 1234);
    assert_eq!(files[1].path, "tokenizer.json");
    assert_eq!(files[1].size, 5678);
}

#[test]
fn remote_hf_manifest_prefers_balanced_gguf_quant() {
    let remote = remote_hf_test_model(
        "unsloth/Tiny-GGUF",
        llama_config(),
        &[
            ("tiny.Q2_K.gguf", 2 * GIB),
            ("tiny.Q4_K_M.gguf", 4 * GIB),
            ("tiny.Q8_0.gguf", 8 * GIB),
            ("tokenizer.json", 1024),
        ],
    );

    let manifest = remote_hf_manifest(&remote, None, "llama.cpp").unwrap();

    assert_eq!(manifest.format, ModelFormat::Gguf);
    assert_eq!(manifest.architecture.as_deref(), Some("llama"));
    assert_eq!(
        manifest.model_path.as_deref(),
        Some("files/tiny.Q4_K_M.gguf")
    );
    assert!(matches!(
        manifest.source,
        ModelSource::HuggingFace { ref repo } if repo == "unsloth/Tiny-GGUF"
    ));
}

#[test]
fn remote_hf_manifest_respects_explicit_file() {
    let remote = remote_hf_test_model(
        "unsloth/Tiny-GGUF",
        llama_config(),
        &[("tiny.Q4_K_M.gguf", 4 * GIB), ("tiny.Q8_0.gguf", 8 * GIB)],
    );

    let manifest = remote_hf_manifest(&remote, Some("files/tiny.Q8_0.gguf"), "llama.cpp").unwrap();

    assert_eq!(manifest.format, ModelFormat::Gguf);
    assert_eq!(manifest.model_path.as_deref(), Some("files/tiny.Q8_0.gguf"));
    assert_eq!(manifest.backend, "llama.cpp");
    assert_eq!(remote_model_format(&remote, None), Ok(ModelFormat::Gguf));
    assert_eq!(
        remote_model_format(&remote, Some("model.onnx")),
        Ok(ModelFormat::Onnx)
    );
    assert!(remote_model_format(&remote, Some("../model.onnx")).is_err());
}

#[test]
fn remote_hf_safetensors_index_counts_referenced_shards() {
    let remote = remote_hf_test_model(
        "org/sharded",
        llama_config(),
        &[
            ("model.safetensors.index.json", 128),
            ("model-00001-of-00002.safetensors", 2 * GIB),
            ("model-00002-of-00002.safetensors", 2 * GIB),
            ("unreferenced.safetensors", 10 * GIB),
            ("tokenizer.json", 1024),
        ],
    );
    let manifest = remote_hf_manifest(&remote, None, "llama.cpp").unwrap();
    let index = parse_json(
        r#"{
            "weight_map": {
                "a": "model-00001-of-00002.safetensors",
                "b": "model-00002-of-00002.safetensors"
            }
        }"#,
    )
    .unwrap();

    let accounting = safetensors_index_weight_accounting_from_value(
        &manifest,
        "files/model.safetensors.index.json",
        &index,
    )
    .unwrap();

    assert_eq!(accounting.total_bytes(), 4 * GIB);
    assert_eq!(accounting.confidence, EstimateConfidence::High);
    assert!(accounting
        .ignored
        .iter()
        .any(|file| file.path == "files/unreferenced.safetensors"));
}

#[test]
fn estimate_source_url_reports_huggingface_source() {
    let mut manifest = test_manifest(ModelFormat::SafeTensors, Some("llama"));
    manifest.source = ModelSource::HuggingFace {
        repo: "org/model".to_string(),
    };

    assert_eq!(
        estimate_source_url(&manifest).as_deref(),
        Some("https://huggingface.co/org/model")
    );
}

#[test]
fn scaled_bytes_follow_double_precision() {
    for bytes in [
        0u64,
        1,
        3,
        7,
        1023,
        4 * GIB,
        10 * GIB + 12345,
        (1u64 << 53) + 1,
        u64::MAX / 3,
        u64::MAX,
    ] {
        assert_eq!(
            scale_bytes(bytes, Ratio::Percent35),
            (bytes as f64 * 0.35).ceil() as u64
        );
        assert_eq!(
            scale_bytes(bytes, Ratio::Percent60),
            (bytes as f64 * 0.60).ceil() as u64
        );
    }
}

#[test]
fn byte_sizes_are_shown_in_their_largest_unit() {
    assert_eq!(format_bytes(0), "0 B");
    assert_eq!(format_bytes(1023), "1023 B");
    assert_eq!(format_bytes(1024), "1.00 KiB");
    assert_eq!(format_bytes(1536), "1.50 KiB");
    assert_eq!(format_bytes(3 * GIB + GIB / 4), "3.25 GiB");
    assert_eq!(
        format_bytes(123_456_789),
        format!("{:.2} MiB", 123_456_789f64 / 1024.0 / 1024.0)
    );
}

#[test]
fn limits_are_split_by_their_ratios() {
    assert_eq!(
        estimate_result(4 * GIB, Some(32 * GIB), Some(16 * GIB)),
        EstimateResult::Fits
    );
    assert_eq!(
        estimate_result(20 * GIB, Some(32 * GIB), Some(16 * GIB)),
        EstimateResult::LikelyOom
    );
    assert_eq!(
        classify_against_limit(60, 100, Ratio::Percent60, Ratio::Percent35),
        EstimateResult::Fits
    );
}

#[test]
fn installed_models_are_estimated_from_the_store() {
    assert_eq!(
        estimate_model_or_huggingface(StoreLookup::Found, "local", None),
        Ok(EstimateOrigin::Installed)
    );
    assert_eq!(
        estimate_model_or_huggingface(StoreLookup::NotInstalled, "org/repo", None),
        Ok(EstimateOrigin::Remote)
    );
    assert_eq!(
        estimate_model_or_huggingface(StoreLookup::Failed("broken".to_string()), "org/repo", None),
        Err("broken".to_string())
    );
}

#[test]
fn the_latest_observation_of_a_model_counts() {
    let seen = |model: &str, bytes: Option<u64>, timestamp: Option<u64>| EstimateObservation {
        model: model.to_string(),
        measured_peak_memory_bytes: bytes,
        timestamp,
    };
    let observations = vec![
        seen("a", Some(1), Some(10)),
        seen("a", Some(2), Some(30)),
        seen("a", Some(3), Some(20)),
        seen("b", Some(4), Some(40)),
    ];
    assert_eq!(latest_estimate_observation(&observations, "a"), Some(2));
    assert_eq!(latest_estimate_observation(&observations, "c"), None);
}

#[test]
fn configurations_are_read_where_they_nest() {
    let config =
        read_estimate_config(Some(r#"{"text_config": {"hidden_size": 512}, "torch_dtype": "float32"}"#))
            .unwrap();
    assert_eq!(config.hidden_size, Some(512));
    assert_eq!(dtype_bytes(config.dtype.as_deref()), 4);
    assert_eq!(dtype_bytes(Some("bfloat16")), 2);
    assert!(read_estimate_config(Some("not json")).is_none());
    assert!(read_estimate_config(None).is_none());
}

#[test]
fn runtimes_cost_memory_of_their_own() {
    assert!(runtime_overhead_bytes(ModelFormat::SafeTensors, 8 * GIB) > 0);
    let manifest = test_manifest_with_weight(
        ModelFormat::SafeTensors,
        Some("llama"),
        "files/model.safetensors",
        8 * GIB,
    );
    let report = estimate(&manifest, Some(64 * GIB), None);
    assert_eq!(
        report.runtime_overhead_bytes,
        runtime_overhead_bytes(ModelFormat::SafeTensors, 8 * GIB)
    );
}

#[test]
fn totals_beyond_the_machine_give_no_estimate() {
    let mut manifest = test_manifest(ModelFormat::SafeTensors, Some("llama"));
    manifest.model_path = None;
    manifest.files = vec![
        model_file("files/a.safetensors", u64::MAX),
        model_file("files/b.safetensors", u64::MAX),
    ];
    assert!(estimate_model_memory(
        &manifest,
        None,
        None,
        None,
        false,
        SystemMemory {
            total_bytes: None,
            available_bytes: None,
        },
    )
    .is_none());
}

#[test]
fn repository_names_and_paths_are_checked() {
    assert!(validate_huggingface_repo_for_estimate("org/repo").is_ok());
    assert!(validate_huggingface_repo_for_estimate("org/../repo").is_err());
    assert_eq!(percent_encode_hf_path("a b/c"), "a%20b/c");
    assert_eq!(
        remote_model_url("org/repo"),
        "https://huggingface.co/api/models/org/repo?blobs=true"
    );
    assert!(remote_file_url("org/repo", "config.json")
        .unwrap()
        .ends_with("org/repo/resolve/main/config.json"));
    assert_eq!(
        normalize_remote_hf_file_path("files/model.gguf").unwrap(),
        "model.gguf"
    );
    assert!(normalize_remote_hf_file_path("../model.gguf").is_err());
    assert_eq!(
        join_manifest_relative("files", "model.gguf"),
        "files/model.gguf"
    );
    assert_eq!(
        remote_detect_format_for_file_path("x/model.gguf"),
        ModelFormat::Gguf
    );
}

#[test]
fn gated_models_need_a_token() {
    let metadata = parse_json(r#"{"gated": "manual", "siblings": []}"#).unwrap();
    let remote = parse_remote_huggingface_model("org/gated", &metadata, None);
    assert!(remote.gated);
    assert!(refuse_gated_model(&remote, false).is_err());
    assert!(refuse_gated_model(&remote, true).is_ok());
    assert!(huggingface_response_body("").is_err());
}

#[test]
fn remote_models_are_estimated_from_their_listing() {
    let remote = remote_hf_test_model(
        "unsloth/Tiny-GGUF",
        llama_config(),
        &[("tiny.Q4_K_M.gguf", 4 * GIB), ("tiny.Q8_0.gguf", 8 * GIB)],
    );
    let system = SystemMemory {
        total_bytes: Some(64 * GIB),
        available_bytes: Some(32 * GIB),
    };
    let RemoteEstimate::Report(report) =
        estimate_huggingface_model(&remote, Some("tiny.Q8_0.gguf"), None, "llama.cpp", false, false, system)
    else {
        panic!("the model was not estimated")
    };
    assert_eq!(report.weight_files_bytes, 8 * GIB);
    assert!(matches!(
        estimate_huggingface_model(&remote, Some("missing.gguf"), None, "llama.cpp", false, false, system),
        RemoteEstimate::Refused(_)
    ));
}

#[test]
fn indexes_are_read_where_they_can_matter() {
    let files = [
        ("model.safetensors.index.json", 128),
        ("model-00001-of-00002.safetensors", GIB),
        ("model.onnx", GIB),
    ];
    let mut remote = remote_hf_test_model("org/sharded", llama_config(), &files);
    assert_eq!(
        remote_index_path(&remote, None, false).as_deref(),
        Some("model.safetensors.index.json")
    );
    assert_eq!(remote_index_path(&remote, Some("model.onnx"), false), None);
    assert_eq!(remote_index_path(&remote, Some("missing"), false), None);
    remote.gated = true;
    assert_eq!(remote_index_path(&remote, None, false), None);
    assert!(remote_index_path(&remote, None, true).is_some());
}

#[test]
fn reports_have_words_for_their_results() {
    assert_eq!(EstimateResult::Fits.json_word(), "ok");
    assert_eq!(EstimateResult::Warning.json_word(), "warning");
    assert_eq!(EstimateResult::LikelyOom.json_word(), "likely_oom");
    assert_eq!(EstimateConfidence::High.json_word(), "high");
    assert_eq!(EstimateConfidence::Medium.json_word(), "medium");
    assert_eq!(EstimateConfidence::Low.json_word(), "low");
}

#[test]
fn linux_memory_is_read_from_meminfo() {
    let text = "MemTotal:       16384 kB\nMemAvailable:    8192 kB\n";
    assert_eq!(linux_meminfo_kib(text, "MemTotal"), Some(16384));
    let memory = linux_system_memory(Some(text));
    assert_eq!(memory.total_bytes, Some(16384 * 1024));
    assert_eq!(memory.available_bytes, Some(8192 * 1024));
    assert_eq!(linux_system_memory(None).total_bytes, None);
}

#[test]
fn macos_memory_is_read_from_vm_stat() {
    let vm_stat = "Mach Virtual Memory Statistics: (page size of 16384 bytes)\nPages free:                               100.\nPages active:                             50.\nPages inactive:                           20.\nPages speculative:                        5.\n";
    assert_eq!(parse_macos_vm_page_size(vm_stat), Some(16384));
    assert!(vm_stat_adds_up(None, vm_stat, None));
    let vast = "Mach Virtual Memory Statistics: (page size of 16384 bytes)\nPages free: 1.\nPages active: 18446744073709551615.\n";
    assert!(!vm_stat_adds_up(None, vast, None));
    assert!(vm_stat_adds_up(Some("17179869184"), vast, None));
    let stated = macos_system_memory(Some("17179869184"), Some(vast), None);
    assert_eq!(stated.total_bytes, Some(17179869184));
    assert_eq!(stated.available_bytes, Some(16384));
    let memory = macos_system_memory(Some("17179869184\n"), Some(vm_stat), None);
    assert_eq!(memory.total_bytes, Some(17179869184));
    assert_eq!(memory.available_bytes, Some((100 + 20 + 5) * 16384));
}

#[test]
fn filters_narrow_the_list_of_models() {
    let mut manifest = test_manifest(ModelFormat::SafeTensors, Some("flux"));
    manifest.metadata.tasks = vec![InferenceTask::ImageGeneration];
    let open = |task| ListFilters {
        task,
        input: None,
        output: None,
        family: None,
        layout: None,
        backend: None,
    };
    assert!(manifest_matches_list_filters(&manifest, &open(None)));
    assert!(manifest_matches_list_filters(
        &manifest,
        &open(Some(InferenceTask::ImageGeneration))
    ));
    assert!(!manifest_matches_list_filters(
        &manifest,
        &open(Some(InferenceTask::TextToSpeech))
    ));
}

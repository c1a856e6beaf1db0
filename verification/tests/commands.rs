use werk_cli::args::{
    command_backend_install_verbose, command_or_default, device_arg_label, requested_backend_label,
    resolve_api_keys, should_print_startup_banner_for, BackendArg, BackendInstallArg,
    CandleDeviceMode, ChatTemplateArg, CommandKind, DeviceArg, KvCacheTypeArg, LlamaCppMode,
    LlamaKvCacheType, LlamaRuntimeArgs, OnnxRuntimeMode, RuntimeDemotionTierArg,
    RuntimeMemoryTierArg, RuntimeStateCommands, RuntimeStateTierArg, StreamGranularity,
    StreamGranularityArg,
};
use werk_cli::backend::BackendChoice;
use werk_cli::bench::{bench_request, bench_schedule, check_bench_runs};
use werk_cli::chat_session::single_request_messages;
use werk_cli::commands::{
    check_default_image_model, check_estimate_options, check_sources, checked_huggingface_token,
    huggingface_logout_message, huggingface_status_message, install_plan, installed_message,
    list_backend_filter, matching_models, removed_message, selected_file_message,
    serve_route_message, InstallPlan,
};
use werk_cli::manifest::{
    InferenceTask, ListFilters, ModelFormat, ModelManifest, ModelMetadata, ModelSource,
    ModelStorage,
};
use werk_cli::progress::{
    format_temp_list, format_temp_purge_summary, parse_git_percent, update_pull_progress,
    PullProgress, TempPurgeSummary,
};
use werk_cli::runtime_control::{
    runtime_prune_selector, runtime_state_action_request, StateAction, StateSelector, StateTier,
};

#[test]
fn temp_purge_output_matches_the_cli_contract() {
    assert_eq!(
        format_temp_purge_summary(
            &TempPurgeSummary {
                entries: 0,
                bytes: Some(0),
            },
            false,
        ),
        "Nothing to purge."
    );
    assert_eq!(
        format_temp_purge_summary(
            &TempPurgeSummary {
                entries: 0,
                bytes: None,
            },
            true,
        ),
        "Dry run: nothing to purge."
    );
    assert_eq!(
        format_temp_purge_summary(
            &TempPurgeSummary {
                entries: 1,
                bytes: Some(1024),
            },
            true,
        ),
        "Dry run: would purge 1 temporary entry (1.00 KiB); nothing was deleted."
    );
    assert_eq!(
        format_temp_purge_summary(
            &TempPurgeSummary {
                entries: 2,
                bytes: None,
            },
            false,
        ),
        "Purged 2 temporary entries."
    );
}

#[test]
fn temp_list_output_matches_the_cli_contract() {
    assert_eq!(format_temp_list(&Vec::new()), "No temporary entries.");
    assert_eq!(
        format_temp_list(&vec![
            "store/tmp/first.tmp".to_string(),
            "store/tmp/pull-model-import".to_string(),
        ]),
        "store/tmp/first.tmp\nstore/tmp/pull-model-import"
    );
}

#[test]
fn runtime_prune_requires_one_explicit_selector_and_defaults_to_preview() {
    assert!(runtime_prune_selector(Vec::new(), None, None, None, false, false).is_err());
    assert!(runtime_prune_selector(
        vec!["st_one".to_string()],
        Some("model".to_string()),
        None,
        None,
        false,
        false,
    )
    .is_err());
    assert!(runtime_prune_selector(Vec::new(), None, None, None, true, false).is_err());
    assert_eq!(
        runtime_prune_selector(Vec::new(), None, None, None, true, true).unwrap(),
        StateSelector::All { confirm: true }
    );
}

#[test]
fn prune_selectors_carry_what_was_asked_for() {
    assert_eq!(
        runtime_prune_selector(vec!["st_one".to_string()], None, None, None, false, false).unwrap(),
        StateSelector::Ids {
            ids: vec!["st_one".to_string()]
        }
    );
    assert_eq!(
        runtime_prune_selector(
            Vec::new(),
            Some("org/model".to_string()),
            Some(RuntimeStateTierArg::Disk),
            Some(17),
            false,
            false,
        )
        .unwrap(),
        StateSelector::Filter {
            model_id: Some("org/model".to_string()),
            tier: Some(StateTier::Disk),
            older_than_unix_ms: Some(17),
        }
    );
}

#[test]
fn state_actions_are_previews_unless_executed() {
    let request = runtime_state_action_request(RuntimeStateCommands::Promote {
        target: RuntimeMemoryTierArg::Vram,
        execute: true,
        allow_experimental: true,
    });
    assert_eq!(request.action, StateAction::Promote);
    assert_eq!(request.target_tier, Some(StateTier::Vram));
    assert!(!request.dry_run);
    assert!(request.allow_experimental);

    let request = runtime_state_action_request(RuntimeStateCommands::Demote {
        target: RuntimeDemotionTierArg::Disk,
        execute: false,
        allow_experimental: false,
    });
    assert_eq!(request.action, StateAction::Demote);
    assert_eq!(request.target_tier, Some(StateTier::Disk));
    assert!(request.dry_run);

    let request = runtime_state_action_request(RuntimeStateCommands::Evict { execute: false });
    assert_eq!(request.action, StateAction::Evict);
    assert_eq!(request.target_tier, None);
    assert!(request.dry_run);
}

#[test]
fn managed_backend_install_output_requires_verbose_or_debug_command() {
    assert!(!command_backend_install_verbose(CommandKind::Chat {
        verbose: false,
        debug: false,
    }));
    assert!(command_backend_install_verbose(CommandKind::Chat {
        verbose: true,
        debug: false,
    }));
    assert!(command_backend_install_verbose(CommandKind::Run {
        verbose: false,
        debug: true,
        json: false,
    }));
}

#[test]
fn startup_banner_is_limited_to_interactive_terminal_commands() {
    let serve = CommandKind::Serve { verbose: false };
    assert!(should_print_startup_banner_for(serve, true, true));
    assert!(!should_print_startup_banner_for(serve, false, true));

    let run = CommandKind::Run {
        verbose: false,
        debug: false,
        json: false,
    };
    assert!(should_print_startup_banner_for(run, true, true));
    assert!(!should_print_startup_banner_for(run, false, true));

    let chat = CommandKind::Chat {
        verbose: false,
        debug: false,
    };
    assert!(should_print_startup_banner_for(chat, true, true));
    assert!(!should_print_startup_banner_for(chat, true, false));

    for media in [
        CommandKind::Image {
            verbose: false,
            debug: false,
        },
        CommandKind::Video {
            verbose: false,
            debug: false,
        },
        CommandKind::Audio {
            verbose: false,
            debug: false,
        },
    ] {
        assert!(should_print_startup_banner_for(media, true, true));
        assert!(should_print_startup_banner_for(media, true, false));
        assert!(!should_print_startup_banner_for(media, false, true));
    }

    let bench = CommandKind::Bench { debug: false };
    assert!(!should_print_startup_banner_for(bench, true, true));

    assert!(!should_print_startup_banner_for(
        CommandKind::List,
        true,
        true
    ));
    assert!(!should_print_startup_banner_for(
        CommandKind::Inspect,
        true,
        true
    ));
    assert_eq!(
        command_or_default(None),
        CommandKind::Serve { verbose: false }
    );
}

#[test]
fn media_debug_and_verbose_enable_backend_install_details() {
    for (verbose, debug) in [(true, false), (false, true), (true, true)] {
        assert!(command_backend_install_verbose(CommandKind::Image {
            verbose,
            debug
        }));
        assert!(command_backend_install_verbose(CommandKind::Video {
            verbose,
            debug
        }));
        assert!(command_backend_install_verbose(CommandKind::Audio {
            verbose,
            debug
        }));
    }
    assert!(!command_backend_install_verbose(CommandKind::Image {
        verbose: false,
        debug: false,
    }));
}

#[test]
fn arguments_convert_to_their_settings() {
    assert_eq!(
        CandleDeviceMode::from(DeviceArg::Metal),
        CandleDeviceMode::Metal
    );
    assert_eq!(
        StreamGranularity::from(StreamGranularityArg::Chunk),
        StreamGranularity::Chunk
    );
    assert_eq!(
        LlamaKvCacheType::from(KvCacheTypeArg::Q8_0),
        LlamaKvCacheType::Q8_0
    );
    assert_eq!(device_arg_label(DeviceArg::Cuda), "cuda");
    assert_eq!(requested_backend_label(BackendArg::Vulkan), "vulkan");
    assert_eq!(ChatTemplateArg::NoTemplate.template_name(), "none");
    let mut args = LlamaRuntimeArgs::default();
    args.batch_size = Some(128);
    args.kv_cache_type = Some(KvCacheTypeArg::F32);
    let options = args.to_options();
    assert_eq!(options.batch_size, Some(128));
    assert_eq!(options.kv_cache_type, Some(LlamaKvCacheType::F32));
    assert_eq!(options.ctx_size, None);
}

#[test]
fn install_targets_name_one_runtime_each() {
    assert_eq!(
        BackendInstallArg::LlamaRocm.mode(),
        Some(LlamaCppMode::Rocm)
    );
    assert_eq!(BackendInstallArg::LlamaRocm.onnx_mode(), None);
    assert_eq!(
        BackendInstallArg::OnnxRocm.onnx_mode(),
        Some(OnnxRuntimeMode::Rocm)
    );
    assert_eq!(BackendInstallArg::QwenTts.mode(), None);
    assert!(matches!(
        install_plan(BackendInstallArg::LlamaCuda),
        InstallPlan::LlamaServer(LlamaCppMode::Cuda)
    ));
    assert!(matches!(
        install_plan(BackendInstallArg::OnnxCpu),
        InstallPlan::OnnxRuntime(OnnxRuntimeMode::Cpu)
    ));
    assert!(matches!(
        install_plan(BackendInstallArg::Vllm),
        InstallPlan::Vllm
    ));
    assert!(
        installed_message(install_plan(BackendInstallArg::Vllm), "", "/opt/vllm")
            .contains("/opt/vllm")
    );
}

#[test]
fn api_keys_come_from_the_option_and_the_file() {
    assert_eq!(
        resolve_api_keys(Some("sk-test"), Vec::new(), false).unwrap(),
        vec!["sk-test".to_string()]
    );
    assert!(resolve_api_keys(None, Vec::new(), true).unwrap().is_empty());
    let keys = resolve_api_keys(None, vec!["a".to_string(), "b".to_string()], false).unwrap();
    assert_eq!(keys, vec!["a".to_string(), "b".to_string()]);
}

#[test]
fn options_that_do_not_fit_together_are_refused() {
    assert!(check_estimate_options(true, true).is_err());
    assert!(check_estimate_options(true, false).is_ok());
    assert!(check_estimate_options(false, true).is_ok());
    assert!(check_sources(true, false).is_err());
    assert!(check_sources(true, true).is_ok());
    assert!(check_bench_runs(0).is_err());
    assert!(check_bench_runs(1).is_ok());
}

#[test]
fn warmups_run_before_the_measured_runs() {
    assert_eq!(bench_schedule(1, 2), vec![false, true, true]);
    assert!(bench_schedule(0, 0).is_empty());
}

#[test]
fn tokens_are_trimmed_and_never_empty() {
    assert_eq!(checked_huggingface_token("  hf_test\n").unwrap(), "hf_test");
    assert!(checked_huggingface_token("  \n").is_err());
    assert_ne!(
        huggingface_logout_message(true),
        huggingface_logout_message(false)
    );
    assert!(huggingface_status_message(Some("environment")).contains("environment"));
}

#[test]
fn a_single_request_joins_the_words_of_its_prompt() {
    let messages = single_request_messages(
        &vec!["hello".to_string(), "world".to_string()],
        &Vec::new(),
    );
    assert_eq!(messages.len(), 1);
    assert_eq!(messages[0].role, "user");
}

#[test]
fn git_percentages_are_read_and_bounded() {
    assert_eq!(
        parse_git_percent("Receiving objects:  42% (10/24)"),
        Some(42)
    );
    assert_eq!(parse_git_percent("Receiving objects: 420%"), Some(100));
    assert_eq!(parse_git_percent("remote: Enumerating objects"), None);
    let update = update_pull_progress(PullProgress::GitProgress {
        line: "Receiving objects:  42% (10/24)".to_string(),
    });
    assert_eq!(update.position, Some(42));
    let update = update_pull_progress(PullProgress::Started {
        url: "https://example.org/repo".to_string(),
    });
    assert_eq!(update.position, Some(0));
}

fn test_manifest(id: &str, tasks: Vec<InferenceTask>) -> ModelManifest {
    ModelManifest {
        id: id.to_string(),
        source: ModelSource::LocalPath {
            path: "test".to_string(),
        },
        storage: ModelStorage::Managed,
        format: ModelFormat::Gguf,
        architecture: None,
        tokenizer_path: None,
        config_path: None,
        model_path: Some("files/model.gguf".to_string()),
        backend: "llama-server".to_string(),
        created_unix: 1,
        files: Vec::new(),
        artifacts: Vec::new(),
        metadata: ModelMetadata {
            repository_layout: "unknown".to_string(),
            family: None,
            tasks,
            input_modalities: Vec::new(),
            output_modalities: Vec::new(),
            components: 0,
            precision: None,
            quantization: None,
            compatible_runtimes: Vec::new(),
        },
    }
}

#[test]
fn default_image_models_generate_images() {
    assert!(
        check_default_image_model(&test_manifest("flux", vec![InferenceTask::ImageGeneration]))
            .is_ok()
    );
    assert_eq!(
        check_default_image_model(&test_manifest("tiny", Vec::new())).unwrap_err(),
        "default image model 'tiny' does not declare image-generation"
    );
}

#[test]
fn listings_keep_the_models_that_match() {
    let all = vec![
        test_manifest("a", vec![InferenceTask::ImageGeneration]),
        test_manifest("b", Vec::new()),
        test_manifest("c", vec![InferenceTask::ImageGeneration]),
    ];
    let filters = ListFilters {
        task: Some(InferenceTask::ImageGeneration),
        input: None,
        output: None,
        family: None,
        layout: None,
        backend: None,
    };
    assert_eq!(matching_models(&all, &filters), vec![0, 2]);
    assert_eq!(list_backend_filter(BackendArg::Auto), None);
    assert_eq!(list_backend_filter(BackendArg::Mlx), Some("mlx"));
}

#[test]
fn changes_of_the_store_are_reported() {
    let manifest = test_manifest("tiny", Vec::new());
    assert_eq!(
        removed_message(&manifest, "/store/tiny"),
        "Removed tiny (Gguf) from /store/tiny"
    );
    assert_eq!(
        selected_file_message(&manifest),
        "Selected files/model.gguf for tiny"
    );
    assert_eq!(
        serve_route_message(&manifest, BackendChoice::Vllm),
        "[werk serve] route model=tiny backend=vLLM CUDA"
    );
}

#[test]
fn benchmarks_send_the_prompt_as_the_only_message() {
    let request = bench_request("hello", &vec!["END".to_string()], 64, 42, false);
    assert_eq!(request.prompt, "hello");
    assert_eq!(request.messages.len(), 1);
    assert_eq!(request.stop, vec!["END".to_string()]);
    assert_eq!(request.settings.seed, Some(42));
    assert_eq!(request.settings.max_tokens, 64);
    assert!(request.image_urls.is_empty());
}

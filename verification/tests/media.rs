use werk_cli::args::{BackendArg, ChatTemplateArg, DeviceArg};
use werk_cli::backend::BackendChoice;
use werk_cli::fields::{get_field, has_field};
use werk_cli::json::{parse_json, Json};
use werk_cli::manifest::{
    InferenceTask, InputModality, ModelFormat, ModelManifest, ModelMetadata, ModelSource,
    ModelStorage, OutputModality,
};
use werk_cli::media_execution::{execute_media_args, requested_media_output, MediaArguments};
use werk_cli::media_params::{
    media_parameters, merge_media_value, normalize_media_parameter_path,
    normalize_negative_bool_pairs, own_parameters, parse_structured_spec, structured_media_files,
};
use werk_cli::media_request::{
    asked_parameter_policy, audio_negative_prompt_rule, audio_operation, audio_prompt_label,
    audio_prompt_rule, canonical_bool, image_prompt_rule, media_routing, path_input,
    prepare_audio_generation, prepare_audio_transcription_task, primary_text_need,
    resolve_optional_text, resolve_primary_text, run_audio_command, run_image_command,
    run_video_command, song_prompt_rule, speech_operation_name, string_input, AudioCommand,
    AudioConditioning, ImageCommand, InferenceInputSource, OverrideBool, PromptRule, RoutingArgs,
    SongPrompt, SpeechToTextTask, SwitchPair, TextNeed, VideoCommand,
};
use werk_cli::media_run::{hear_media_run, MediaRun, MediaRunArgs};
use werk_cli::run_inference::{
    apply_media_parameters, bind_request_model, check_conversation, check_question,
    check_run_options, default_task, is_text_task, merge_routing, parse_input, read_request,
    resolve_max_tokens, resolve_run_task, resolve_stream, seed_parameter, tool_calling_config,
    ConversationTraits, RunBackend, RunFlags,
};

fn fields(text: &str) -> Vec<(String, Json)> {
    match parse_json(text).unwrap() {
        Json::Object(fields) => fields,
        _ => panic!("an object was expected"),
    }
}

fn number(value: Option<&Json>) -> &str {
    match value {
        Some(Json::Number(number)) => &number.text,
        other => panic!("a number was expected: {other:?}"),
    }
}

fn text(value: Option<&Json>) -> &str {
    value.and_then(Json::as_str).unwrap()
}

fn off() -> SwitchPair {
    SwitchPair {
        on: false,
        off: false,
    }
}

fn strict() -> Result<String, String> {
    Ok("strict".to_string())
}

fn routing_args() -> RoutingArgs {
    RoutingArgs {
        accelerator: None,
        precision: None,
        quantization: None,
        profile: None,
        quality: None,
        performance_preference: None,
        fallback_policy: None,
        parameter_policy: None,
        cpu_offload: off(),
        sequential_offload: off(),
        component_offload: off(),
        disk_offload: off(),
        attention_backend: None,
        compile: off(),
        timeout: None,
    }
}

fn test_manifest(tasks: Vec<InferenceTask>) -> ModelManifest {
    ModelManifest {
        id: "test-model".to_string(),
        source: ModelSource::LocalPath {
            path: "test".to_string(),
        },
        storage: ModelStorage::Managed,
        format: ModelFormat::SafeTensors,
        architecture: None,
        tokenizer_path: None,
        config_path: None,
        model_path: None,
        backend: "test".to_string(),
        created_unix: 1,
        files: Vec::new(),
        artifacts: Vec::new(),
        metadata: ModelMetadata {
            repository_layout: "unknown".to_string(),
            family: None,
            tasks,
            input_modalities: Vec::new(),
            output_modalities: Vec::new(),
            components: 0,
            precision: None,
            quantization: None,
            compatible_runtimes: Vec::new(),
        },
    }
}

#[test]
fn media_arguments_become_canonical_typed_overrides() {
    let raw = fields(
        r#"{
            "model": "flux",
            "prompt": "test",
            "width": 640,
            "no_image_vae_tiling": true,
            "controls_json": "[{\"type\":\"depth\",\"weight\":0.8}]",
            "no_allow_cpu_offload": true
        }"#,
    );
    let parameters = media_parameters(
        raw,
        fields(r#"{"image.seed": 17}"#),
        &Vec::new(),
        InferenceTask::ImageGeneration,
        "image",
    )
    .unwrap();
    assert_eq!(number(get_field(&parameters, "image.width")), "640");
    assert_eq!(
        get_field(&parameters, "image.vae_tiling"),
        Some(&Json::Bool(false))
    );
    assert!(matches!(
        get_field(&parameters, "image.controls"),
        Some(Json::List(values)) if matches!(values.first(), Some(Json::Object(_)))
    ));
    assert_eq!(number(get_field(&parameters, "image.seed")), "17");
    assert!(!has_field(&parameters, "image.prompt"));
    assert!(!has_field(&parameters, "image.verbose"));
    assert!(!has_field(&parameters, "image.debug"));

    let mut args = routing_args();
    args.cpu_offload.off = true;
    let routing = media_routing(&args, BackendArg::Cuda, Some(DeviceArg::Cuda), strict()).unwrap();
    assert_eq!(routing.backend, None);
    assert_eq!(routing.accelerator.as_deref(), Some("cuda"));
    assert_eq!(routing.device.as_deref(), Some("cuda"));
    assert_eq!(routing.allow_cpu_offload, OverrideBool::Disabled);

    let mlx = media_routing(&args, BackendArg::Mlx, None, strict()).unwrap();
    assert_eq!(mlx.backend.as_deref(), Some("mlx"));
    assert_eq!(mlx.accelerator, None);
}

#[test]
fn audio_lyrics_remain_a_canonical_parameter_override() {
    let parameters = media_parameters(
        fields(
            r#"{"model": "music-model", "prompt": "slow synthwave", "lyrics": "we cross the night"}"#,
        ),
        Vec::new(),
        &Vec::new(),
        InferenceTask::MusicGeneration,
        "audio",
    )
    .unwrap();
    assert_eq!(
        text(get_field(&parameters, "audio.lyrics")),
        "we cross the night"
    );
    assert!(!has_field(&parameters, "audio.prompt"));
}

#[test]
fn qwen3_tts_cli_controls_become_canonical_tts_parameters() {
    let parameters = media_parameters(
        fields(
            r#"{
                "model": "qwen3-tts",
                "text": "Hallo Welt",
                "language": "de",
                "speaking_style": "Warm, ruhig und natürlich",
                "seed": 17,
                "format": "wav"
            }"#,
        ),
        Vec::new(),
        &Vec::new(),
        InferenceTask::TextToSpeech,
        "tts",
    )
    .unwrap();
    assert_eq!(text(get_field(&parameters, "tts.language")), "de");
    assert_eq!(
        text(get_field(&parameters, "tts.speaking_style")),
        "Warm, ruhig und natürlich"
    );
    assert_eq!(number(get_field(&parameters, "tts.seed")), "17");
    assert_eq!(text(get_field(&parameters, "tts.output_format")), "wav");
    assert!(!has_field(&parameters, "tts.text"));
}

#[test]
fn audio_translation_and_classification_build_canonical_parameters() {
    let (task, operation) = prepare_audio_transcription_task(None, true).unwrap();
    assert_eq!(task, InferenceTask::SpeechTranslation);
    assert_eq!(operation, Some(SpeechToTextTask::Translate));
    let parameters = media_parameters(
        fields(
            r#"{"model": "whisper", "input_audio": "speech.wav", "language": "de", "task": "translate"}"#,
        ),
        Vec::new(),
        &Vec::new(),
        InferenceTask::SpeechTranslation,
        "stt",
    )
    .unwrap();
    assert_eq!(text(get_field(&parameters, "stt.operation")), "translate");
    assert_eq!(text(get_field(&parameters, "stt.language")), "de");

    assert!(prepare_audio_transcription_task(Some(SpeechToTextTask::Transcribe), true).is_err());
    assert_eq!(
        prepare_audio_transcription_task(Some(SpeechToTextTask::Translate), false)
            .unwrap()
            .0,
        InferenceTask::SpeechTranslation
    );

    let parameters = media_parameters(
        fields(
            r#"{"model": "classifier", "input_audio": "clip.wav", "top_k": 5, "output_format": "json", "accelerator": "cuda"}"#,
        ),
        Vec::new(),
        &Vec::new(),
        InferenceTask::AudioEventDetection,
        "audio",
    )
    .unwrap();
    assert_eq!(number(get_field(&parameters, "audio.top_k")), "5");
    assert_eq!(text(get_field(&parameters, "audio.output_format")), "json");
    let mut args = routing_args();
    args.accelerator = Some("cuda".to_string());
    let routing = media_routing(&args, BackendArg::Auto, None, strict()).unwrap();
    assert_eq!(routing.accelerator.as_deref(), Some("cuda"));

    let parameters = media_parameters(
        fields(
            r#"{"model": "m", "prompt": "What is happening?", "max_new_tokens": 64, "temperature": 0.2, "top_p": 0.9}"#,
        ),
        Vec::new(),
        &Vec::new(),
        InferenceTask::AudioUnderstanding,
        "audio",
    )
    .unwrap();
    assert_eq!(number(get_field(&parameters, "audio.max_new_tokens")), "64");
    assert_eq!(number(get_field(&parameters, "audio.temperature")), "0.2");
    assert_eq!(number(get_field(&parameters, "audio.top_p")), "0.9");

    let parameters = media_parameters(
        fields(
            r#"{"model": "m", "no_normalize": true, "pooling": "mean", "output_format": "json"}"#,
        ),
        Vec::new(),
        &Vec::new(),
        InferenceTask::AudioEmbedding,
        "audio",
    )
    .unwrap();
    assert_eq!(
        get_field(&parameters, "audio.normalize"),
        Some(&Json::Bool(false))
    );
    assert_eq!(text(get_field(&parameters, "audio.pooling")), "mean");
}

#[test]
fn run_media_inputs_parameters_routing_and_model_binding_use_canonical_schema() {
    let input = parse_input("image:mask_image=https://example.org/a.png?x=1").unwrap();
    assert_eq!(input.role, "mask_image");
    assert!(matches!(input.source, InferenceInputSource::Url { .. }));
    assert!(parse_input("audio=").is_err());
    let mut routing = fields(r#"{"accelerator": null, "precision": null}"#);
    let mut parameters = Vec::new();
    apply_media_parameters(
        &mut routing,
        &mut parameters,
        fields(
            r#"{"image.steps": 20, "routing.precision": "float16", "routing.accelerator": "cuda"}"#,
        ),
    )
    .unwrap();
    assert_eq!(text(get_field(&routing, "precision")), "float16");
    assert_eq!(number(get_field(&parameters, "image.steps")), "20");
    assert!(apply_media_parameters(
        &mut routing,
        &mut parameters,
        fields(r#"{"routing.typo": true}"#)
    )
    .is_err());
    let mut raw = fields(r#"{"task":"image_generation","prompt":"mountains"}"#);
    bind_request_model(&mut raw, "test-model").unwrap();
    assert_eq!(text(get_field(&raw, "model")), "test-model");
    assert!(bind_request_model(&mut raw, "other").is_err());
}

#[test]
fn run_media_task_inference_rejects_ambiguity() {
    let mut manifest = test_manifest(vec![InferenceTask::ImageGeneration]);
    assert_eq!(
        default_task(&manifest).unwrap(),
        InferenceTask::ImageGeneration
    );
    manifest.metadata.tasks.push(InferenceTask::ImageEditing);
    assert!(default_task(&manifest).is_err());
    manifest.metadata.tasks.push(InferenceTask::TextGeneration);
    assert_eq!(
        default_task(&manifest).unwrap(),
        InferenceTask::TextGeneration
    );
}

#[test]
fn structured_values_are_written_as_fields() {
    let value = parse_structured_spec("type=depth, weight=0.8").unwrap();
    assert_eq!(text(value.get("type")), "depth");
    assert_eq!(number(value.get("weight")), "0.8");
    assert_eq!(
        parse_structured_spec("depth").unwrap_err(),
        "expected comma-separated key=value fields"
    );
    assert!(parse_structured_spec("=1").is_err());
    assert!(parse_structured_spec("a=1,a=2").is_err());
    assert!(parse_structured_spec("a=").is_err());
}

#[test]
fn structured_files_are_named_and_read() {
    let raw = fields(r#"{"loras": ["path=a,weight=1"], "loras_file": "more.json"}"#);
    assert_eq!(structured_media_files(&raw), vec!["more.json".to_string()]);
    let parameters = media_parameters(
        raw,
        Vec::new(),
        &vec![Ok("[{\"path\":\"b\"}]".to_string())],
        InferenceTask::ImageGeneration,
        "image",
    )
    .unwrap();
    assert!(matches!(
        get_field(&parameters, "image.loras"),
        Some(Json::List(items)) if items.len() == 2
    ));
    let raw = fields(r#"{"loras_file": "more.json"}"#);
    assert!(media_parameters(
        raw,
        Vec::new(),
        &vec![Err("no such file".to_string())],
        InferenceTask::ImageGeneration,
        "image",
    )
    .is_err());
    let raw = fields(r#"{"controls_json": "{broken"}"#);
    assert!(media_parameters(
        raw,
        Vec::new(),
        &Vec::new(),
        InferenceTask::ImageGeneration,
        "image",
    )
    .is_err());
}

#[test]
fn negative_switches_turn_their_pair_off() {
    let mut raw = fields(r#"{"no_tiling": true, "video.no_loop": true, "exclude_audio": true}"#);
    normalize_negative_bool_pairs(&mut raw);
    assert_eq!(get_field(&raw, "tiling"), Some(&Json::Bool(false)));
    assert_eq!(get_field(&raw, "video.loop"), Some(&Json::Bool(false)));
    assert_eq!(get_field(&raw, "include_audio"), Some(&Json::Bool(false)));
    assert!(!has_field(&raw, "no_tiling"));
    assert!(!has_field(&raw, "exclude_audio"));
}

#[test]
fn lists_grow_and_other_values_are_replaced() {
    let mut raw = fields(r#"{"a": [1], "b": 1}"#);
    merge_media_value(&mut raw, "a".to_string(), parse_json("[2]").unwrap());
    merge_media_value(&mut raw, "b".to_string(), parse_json("2").unwrap());
    assert!(matches!(get_field(&raw, "a"), Some(Json::List(items)) if items.len() == 2));
    assert_eq!(number(get_field(&raw, "b")), "2");
}

#[test]
fn parameter_names_are_canonical() {
    assert_eq!(
        normalize_media_parameter_path(InferenceTask::ImageGeneration, "image", "guidance-scale"),
        "image.guidance_scale"
    );
    assert_eq!(
        normalize_media_parameter_path(InferenceTask::ImageGeneration, "image", "image_vae_tiling"),
        "image.vae_tiling"
    );
    assert_eq!(
        normalize_media_parameter_path(InferenceTask::ImageGeneration, "image", "video.fps"),
        "video.fps"
    );
    let mut raw = fields(r#"{"model": "m", "profile": "fast", "steps": 4}"#);
    own_parameters(&mut raw);
    assert_eq!(raw.len(), 1);
    assert_eq!(raw[0].0, "steps");
}

#[test]
fn texts_come_from_the_first_source_that_has_one() {
    assert_eq!(
        primary_text_need(Some("hi"), false, None, None, true, true),
        TextNeed::Settled
    );
    assert_eq!(
        primary_text_need(None, true, None, None, true, true),
        TextNeed::File
    );
    assert_eq!(
        resolve_primary_text(Some("hi"), None, None, true, "prompt"),
        Ok(Some("hi".to_string()))
    );
    assert!(resolve_primary_text(None, None, None, true, "prompt").is_err());
    assert_eq!(
        resolve_primary_text(None, None, None, false, "prompt"),
        Ok(None)
    );
    assert_eq!(
        resolve_optional_text(None, Some("from a file")).as_deref(),
        Some("from a file")
    );
}

#[test]
fn inputs_know_where_they_come_from() {
    assert!(matches!(
        string_input(InputModality::Image, "initial_image", "data:image/png;base64,AAAA").source,
        InferenceInputSource::Base64 { .. } | InferenceInputSource::Url { .. }
    ));
    assert!(matches!(
        path_input(InputModality::Audio, "source", "clip.wav").source,
        InferenceInputSource::Path { path } if path == "clip.wav"
    ));
}

#[test]
fn image_commands_are_tasks_with_inputs() {
    let plan = run_image_command(&ImageCommand::Edit {
        image: "source.png".to_string(),
        mask: None,
    })
    .unwrap();
    assert_eq!(plan.task, InferenceTask::ImageEditing);
    assert_eq!(plan.inputs.len(), 1);
    let plan = run_image_command(&ImageCommand::Edit {
        image: "source.png".to_string(),
        mask: Some("mask.png".to_string()),
    })
    .unwrap();
    assert_eq!(plan.task, InferenceTask::ImageInpainting);
    assert_eq!(plan.inputs.len(), 2);
    assert!(run_image_command(&ImageCommand::Generate {
        init_image: None,
        mask: Some("mask.png".to_string()),
    })
    .is_err());
    assert_eq!(
        image_prompt_rule(&ImageCommand::Generate {
            init_image: None,
            mask: None
        }),
        PromptRule::Required
    );
}

#[test]
fn video_and_audio_commands_are_tasks_with_inputs() {
    let plan = run_video_command(&VideoCommand::Animate {
        image: "first.png".to_string(),
    });
    assert_eq!(plan.task, InferenceTask::ImageToVideo);
    assert_eq!(plan.inputs.len(), 1);
    let plan = run_audio_command(
        &AudioCommand::Separate {
            input_audio: "song.wav".to_string(),
        },
        None,
    )
    .unwrap();
    assert_eq!(plan.task, InferenceTask::StemSeparation);
    assert_eq!(plan.inputs.len(), 1);
    assert!(matches!(
        prepare_audio_generation(None, Some("la la"), true),
        SongPrompt::Text(text) if text == "la la"
    ));
    assert!(matches!(
        prepare_audio_generation(Some("a waltz".to_string()), Some("la la"), true),
        SongPrompt::Text(text) if text == "a waltz"
    ));
    assert!(matches!(
        prepare_audio_generation(None, None, false),
        SongPrompt::Nothing
    ));
    assert!(matches!(
        prepare_audio_generation(None, None, true),
        SongPrompt::Ask
    ));
}

#[test]
fn switches_override_only_where_given() {
    assert_eq!(canonical_bool(false, false), OverrideBool::Inherit);
    assert_eq!(canonical_bool(true, false), OverrideBool::Enabled);
    assert_eq!(canonical_bool(false, true), OverrideBool::Disabled);
}

#[test]
fn requests_are_read_within_their_limit() {
    assert!(read_request(&b"{\"model\": \"m\"}".to_vec())
        .unwrap()
        .is_object());
    assert!(read_request(&b"{broken".to_vec())
        .unwrap_err()
        .starts_with("invalid request JSON: "));
    let mut raw = fields(r#"{"model": 7}"#);
    assert!(bind_request_model(&mut raw, "m").is_err());
}

#[test]
fn tasks_of_a_run_are_resolved_in_order() {
    let manifest = test_manifest(vec![InferenceTask::ImageGeneration]);
    assert_eq!(
        resolve_run_task(&manifest, None, None, false),
        Ok(InferenceTask::ImageGeneration)
    );
    assert_eq!(
        resolve_run_task(&manifest, Some(InferenceTask::ImageGeneration), None, false),
        Ok(InferenceTask::ImageGeneration)
    );
    assert!(is_text_task(InferenceTask::TextGeneration));
    assert!(!is_text_task(InferenceTask::ImageGeneration));
    assert_eq!(
        seed_parameter(OutputModality::Video).map(str::to_string),
        Ok("video.seed".to_string())
    );
    assert_eq!(
        seed_parameter(OutputModality::Text),
        Err(
            "--seed does not apply to this ".to_string()
                + "task; use its canonical parameter schema"
        )
    );
}

#[test]
fn run_options_must_suit_the_kind_of_work() {
    let none = RunFlags {
        persistence: false,
        stream: false,
        stream_granularity: false,
        temperature: false,
        top_p: false,
        chat_template: false,
        max_tokens: false,
        no_history: false,
        inputs: false,
        parameters: false,
        output: false,
    };
    assert!(check_run_options(none, InferenceTask::TextGeneration).is_ok());
    assert!(check_run_options(none, InferenceTask::ImageGeneration).is_ok());
    assert!(check_run_options(
        RunFlags {
            stream: true,
            ..none
        },
        InferenceTask::ImageGeneration
    )
    .is_err());
    assert!(check_run_options(
        RunFlags {
            inputs: true,
            ..none
        },
        InferenceTask::TextGeneration
    )
    .is_err());
}

#[test]
fn settings_of_a_run_are_merged() {
    assert_eq!(
        merge_routing("backend", Some("mlx".to_string()), None),
        Ok(Some("mlx".to_string()))
    );
    assert!(merge_routing(
        "backend",
        Some("mlx".to_string()),
        Some("vllm".to_string())
    )
    .is_err());
    assert_eq!(resolve_max_tokens(Some(7), Some(8), Some(9)), 7);
    assert_eq!(resolve_max_tokens(None, Some(8), Some(9)), 8);
    assert_eq!(resolve_max_tokens(None, None, Some(9)), 9);
    assert_eq!(resolve_max_tokens(None, None, None), 256);
    assert!(resolve_stream(true, false, None));
    assert!(resolve_stream(false, false, Some(true)));
}

#[test]
fn conversations_need_messages() {
    assert!(check_question(false, true, true, None).is_ok());
    assert!(check_question(true, false, true, None).is_ok());
    assert_eq!(
        check_question(false, false, false, Some("bad options")),
        Err("text/vision requires a prompt or --request".to_string())
    );
    assert_eq!(
        check_question(true, false, false, Some("bad options")),
        Err("chat messages must not be empty".to_string())
    );
    assert_eq!(
        check_question(true, false, true, Some("bad options")),
        Err("bad options".to_string())
    );
}

#[test]
fn conversations_are_refused_for_the_first_reason() {
    let plain = ConversationTraits {
        has_images: false,
        requires_tools: false,
        has_runtime_options: false,
    };
    let with_tools = ConversationTraits {
        requires_tools: true,
        ..plain
    };
    let with_options = ConversationTraits {
        has_runtime_options: true,
        ..plain
    };
    let auto = Ok(RunBackend::Choice(BackendChoice::Auto));
    let vllm = Ok(RunBackend::Choice(BackendChoice::Vllm));
    let unknown = Err("no such backend".to_string());
    assert_eq!(
        check_conversation(plain, Some(ChatTemplateArg::Generic), &vllm, Some(false)),
        vllm
    );
    assert_eq!(
        check_conversation(with_tools, Some(ChatTemplateArg::Generic), &unknown, None),
        Err(
            "tool conversations require the backend/model chat template; omit --chat-template or use model"
                .to_string()
        )
    );
    assert_eq!(
        check_conversation(
            ConversationTraits {
                has_images: true,
                ..with_options
            },
            None,
            &unknown,
            None
        ),
        Err("werk.omlx options currently support text chat only".to_string())
    );
    assert_eq!(check_conversation(plain, None, &unknown, None), unknown);
    assert_eq!(
        check_conversation(with_options, None, &vllm, None),
        Err("werk.omlx controls require the auto or omlx backend".to_string())
    );
    for asked in [auto, Ok(RunBackend::Omlx)] {
        assert_eq!(
            check_conversation(with_options, None, &asked, None),
            Ok(RunBackend::Omlx)
        );
    }
    assert_eq!(
        check_conversation(with_tools, Some(ChatTemplateArg::Model), &vllm, Some(true)),
        vllm
    );
    assert_eq!(check_conversation(with_tools, None, &vllm, None), vllm);
    assert_eq!(
        check_conversation(with_tools, None, &vllm, Some(false)),
        Err("selected backend does not support OpenAI tool calling for this model".to_string())
    );
}

#[test]
fn tools_are_configured_where_any_of_them_is_set() {
    assert!(tool_calling_config(None, None, None).is_none());
    let config = tool_calling_config(None, None, Some(false)).unwrap();
    assert!(config.tools.is_none() && config.tool_choice.is_none());
    assert_eq!(config.parallel_tool_calls, Some(false));
    let config = tool_calling_config(None, Some(Json::Text("auto".to_string())), None).unwrap();
    assert_eq!(text(config.tool_choice.as_ref()), "auto");
    assert!(tool_calling_config(Some(Json::List(Vec::new())), None, None).is_some());
}

#[test]
fn audio_commands_say_whether_they_take_a_prompt() {
    let input = || "clip.wav".to_string();
    let conditioning = || AudioConditioning {
        source_audio: None,
        reference_audio: None,
        instrumental_audio: None,
        vocal_audio: None,
        melody_audio: None,
        rhythm_audio: None,
        chord_audio: None,
        continues: false,
    };
    for speech in [AudioCommand::GenerateSpeech, AudioCommand::Speak] {
        assert_eq!(audio_prompt_rule(&speech, false), PromptRule::Required);
        assert_eq!(audio_prompt_label(&speech), "text");
        assert_eq!(audio_negative_prompt_rule(&speech), PromptRule::Unused);
    }
    for song in [
        AudioCommand::GenerateMusic {
            conditioning: conditioning(),
        },
        AudioCommand::GenerateSound {
            conditioning: conditioning(),
        },
        AudioCommand::GenerateAny {
            model_named: true,
            conditioning: conditioning(),
        },
    ] {
        assert_eq!(audio_prompt_rule(&song, true), PromptRule::Optional);
        assert_eq!(audio_prompt_label(&song), "prompt");
        assert_eq!(audio_negative_prompt_rule(&song), PromptRule::WhereGiven);
    }
    assert_eq!(song_prompt_rule(false), PromptRule::Optional);
    assert_eq!(song_prompt_rule(true), PromptRule::WhereGiven);
    for recording in [
        AudioCommand::AnalyzeUnderstand {
            input_audio: input(),
        },
        AudioCommand::Embed {
            input_audio: input(),
        },
    ] {
        assert_eq!(audio_prompt_rule(&recording, true), PromptRule::Required);
        assert_eq!(audio_prompt_rule(&recording, false), PromptRule::Optional);
        assert_eq!(
            audio_negative_prompt_rule(&recording),
            PromptRule::WhereGiven
        );
    }
    for alone in [
        AudioCommand::Transcribe {
            input_audio: input(),
            operation: None,
        },
        AudioCommand::Translate {
            input_audio: input(),
            operation: None,
        },
        AudioCommand::TransformVoice {
            input_audio: input(),
            reference_audio: None,
        },
        AudioCommand::TransformSeparate {
            input_audio: input(),
        },
        AudioCommand::Separate {
            input_audio: input(),
        },
    ] {
        assert_eq!(audio_prompt_rule(&alone, true), PromptRule::Unused);
        assert_eq!(audio_negative_prompt_rule(&alone), PromptRule::Unused);
    }
}

#[test]
fn transcriptions_carry_their_operation() {
    let transcribe = |operation| AudioCommand::Transcribe {
        input_audio: "speech.wav".to_string(),
        operation,
    };
    let translate = |operation| AudioCommand::Translate {
        input_audio: "speech.wav".to_string(),
        operation,
    };
    let translation = Some(SpeechToTextTask::Translate);
    assert_eq!(audio_operation(&transcribe(None)), Ok(None));
    assert_eq!(audio_operation(&transcribe(translation)), Ok(translation));
    assert_eq!(audio_operation(&translate(None)), Ok(translation));
    let refused = translate(Some(SpeechToTextTask::Transcribe));
    assert_eq!(
        audio_operation(&refused),
        Err("audio translate conflicts with --task transcribe".to_string())
    );
    assert_eq!(
        run_audio_command(&refused, None).unwrap_err(),
        "audio translate conflicts with --task transcribe"
    );
    assert_eq!(audio_operation(&AudioCommand::Speak), Ok(None));
    assert_eq!(
        speech_operation_name(SpeechToTextTask::Translate),
        "translate"
    );
    assert_eq!(
        speech_operation_name(SpeechToTextTask::Transcribe),
        "transcribe"
    );
}

#[test]
fn unknown_parameter_policies_are_refused() {
    let mut args = routing_args();
    assert_eq!(asked_parameter_policy(&args), "strict");
    args.parameter_policy = Some("lenient".to_string());
    assert_eq!(asked_parameter_policy(&args), "lenient");
    let unknown = || Err("unknown parameter policy 'lenient'".to_string());
    assert_eq!(
        media_routing(&args, BackendArg::Auto, None, unknown()).unwrap_err(),
        "unknown parameter policy 'lenient'"
    );
    let routing = media_routing(&args, BackendArg::Auto, None, Ok("best".to_string())).unwrap();
    assert_eq!(routing.parameter_policy, "best");
    args.accelerator = Some("cuda".to_string());
    assert_eq!(
        media_routing(&args, BackendArg::Auto, Some(DeviceArg::Cpu), unknown()).unwrap_err(),
        "conflicting media accelerator selections: --accelerator cuda and --device cpu"
    );
}

#[test]
fn media_requests_hold_what_the_arguments_say() {
    let plan = run_image_command(&ImageCommand::Generate {
        init_image: None,
        mask: None,
    })
    .unwrap();
    let raw = fields(r#"{"width": 640, "output": "a.png"}"#);
    assert_eq!(requested_media_output(&raw).as_deref(), Some("a.png"));
    let request = execute_media_args(
        "flux",
        plan,
        Some("orbital station".to_string()),
        None,
        MediaArguments {
            raw,
            set: Vec::new(),
            files: Vec::new(),
            namespace: "image".to_string(),
        },
        &routing_args(),
        BackendArg::Auto,
        None,
        strict(),
    )
    .unwrap();
    assert_eq!(request.model, "flux");
    assert_eq!(request.prompt.as_deref(), Some("orbital station"));
    assert_eq!(number(get_field(&request.parameters, "image.width")), "640");
    assert!(!has_field(&request.parameters, "image.output"));
}

fn bare_run() -> MediaRun {
    MediaRun {
        inputs: Vec::new(),
        routing: fields(r#"{"accelerator": null, "backend": null, "device": null, "precision": null}"#),
        parameters: Vec::new(),
    }
}

fn run_args(inputs: &[&str], seed: Option<u64>, settings: &str) -> MediaRunArgs {
    MediaRunArgs {
        inputs: inputs.iter().map(|input| input.to_string()).collect(),
        images: vec!["a.png".to_string()],
        seed,
        settings: fields(settings),
    }
}

#[test]
fn requests_hear_the_command_line() {
    let selected = media_routing(&routing_args(), BackendArg::Cuda, None, strict()).unwrap();
    let heard = hear_media_run(
        bare_run(),
        OutputModality::Image,
        run_args(
            &["audio=clip.wav"],
            Some(17),
            r#"{"image.steps": 20, "routing.precision": "float16"}"#,
        ),
        selected,
    )
    .unwrap();
    assert_eq!(heard.inputs.len(), 2);
    assert_eq!(heard.inputs[0].role, "audio");
    assert_eq!(heard.inputs[1].role, "image");
    assert_eq!(number(get_field(&heard.parameters, "image.seed")), "17");
    assert_eq!(number(get_field(&heard.parameters, "image.steps")), "20");
    assert_eq!(text(get_field(&heard.routing, "precision")), "float16");
    assert_eq!(text(get_field(&heard.routing, "accelerator")), "cuda");
}

#[test]
fn requests_that_do_not_fit_are_refused() {
    let auto = || media_routing(&routing_args(), BackendArg::Auto, None, strict()).unwrap();
    let refused = |modality, args, selected| {
        hear_media_run(bare_run(), modality, args, selected).unwrap_err()
    };
    assert_eq!(
        refused(
            OutputModality::Image,
            run_args(&["clip.wav"], None, "{}"),
            auto()
        ),
        "--input requires MODALITY[:ROLE]=PATH_OR_URL"
    );
    assert!(refused(OutputModality::Text, run_args(&[], Some(1), "{}"), auto())
        .starts_with("--seed does not apply"));
    assert_eq!(
        refused(
            OutputModality::Image,
            run_args(&[], None, r#"{"routing.typo": true}"#),
            auto()
        ),
        "unknown routing parameter 'routing.typo'"
    );
    let cuda = media_routing(&routing_args(), BackendArg::Cuda, None, strict()).unwrap();
    assert_eq!(
        refused(
            OutputModality::Image,
            run_args(&[], None, r#"{"routing.accelerator": "rocm"}"#),
            cuda
        ),
        "conflicting media accelerator in request and CLI"
    );
    assert_eq!(
        refused(
            OutputModality::Image,
            run_args(&[], None, r#"{"routing.device": 7}"#),
            auto()
        ),
        "invalid routing override"
    );
}

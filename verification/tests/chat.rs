use werk_cli::args::{ChatTemplateArg, LlamaCppMode, OnnxRuntimeMode, StreamGranularity};
use werk_cli::backend::BackendChoice;
use werk_cli::chat::{
    chat_context_size, chat_template_options_for_backend, cli_message_content_tokens,
    estimate_chat_prompt_tokens, generation_request_messages, merged_diagnostics,
    prompt_diagnostics, trim_chat_history_to_context, ChatTemplateInfo, ChatTemplateSource,
    PromptSpec,
};
use werk_cli::chat_loop::{
    chat_greeting, chat_input, forgotten_notice, request_messages_for_turn, stored_after_turn,
    Answer, AssistantPendingSpinner, ChatInput, Conversation, StreamEvent, TurnOutcome,
};
use werk_cli::chat_session::{
    generate_request, keeps_backend_session, ChatPhase, ChatSession, GenerationSettings, Heard,
};
use werk_cli::images::{
    cli_image_path, image_mime_type, str_is_web_address, vision_input_limit,
    DEFAULT_MAX_VISION_INPUT_BYTES, ImageIntake, ImageStep,
};
use werk_cli::json::parse_json;
use werk_cli::manifest::{ModelFormat, ModelManifest, ModelMetadata, ModelSource, ModelStorage};
use werk_cli::messages::{
    image_urls_from_messages, vision_user_message, ChatCompletionFunctionCall,
    ChatCompletionToolCall, ChatMessage, MessageContent,
};
use werk_cli::stats::{write_verbose_stats, GenerationTimes};
use werk_cli::tool_calls::{
    ChatCompletionFunctionDelta, ChatCompletionToolCallDelta, MAX_TOOL_CALLS, ToolCallAccumulator,
};

fn test_manifest(format: ModelFormat, architecture: Option<&str>) -> ModelManifest {
    ModelManifest {
        id: "test-model".to_string(),
        source: ModelSource::LocalPath {
            path: "test".to_string(),
        },
        storage: ModelStorage::Managed,
        format,
        architecture: architecture.map(str::to_string),
        tokenizer_path: None,
        config_path: None,
        model_path: Some("files/model.bin".to_string()),
        backend: "test".to_string(),
        created_unix: 1,
        files: Vec::new(),
        artifacts: Vec::new(),
        metadata: ModelMetadata {
            repository_layout: "unknown".to_string(),
            family: None,
            tasks: Vec::new(),
            input_modalities: Vec::new(),
            output_modalities: Vec::new(),
            components: 0,
            precision: None,
            quantization: None,
            compatible_runtimes: Vec::new(),
        },
    }
}

fn text_message(role: &str, text: &str) -> ChatMessage {
    ChatMessage {
        role: role.to_string(),
        content: Some(MessageContent::Text(text.to_string())),
        name: None,
        tool_calls: None,
        tool_call_id: None,
    }
}

fn text_of(message: &ChatMessage) -> &str {
    match message.content.as_ref() {
        Some(MessageContent::Text(text)) => text,
        _ => panic!("the message has no text"),
    }
}

/// Renders the one user message that the template tests send.
fn prompt_for_backend(
    manifest: &ModelManifest,
    messages: &[ChatMessage],
    backend: BackendChoice,
    override_arg: Option<ChatTemplateArg>,
) -> PromptSpec {
    let options = chat_template_options_for_backend(manifest, backend, override_arg);
    let source = match options.override_name {
        Some("model") => ChatTemplateSource::Model,
        Some("none") => ChatTemplateSource::Nobody,
        Some(_) => ChatTemplateSource::Werk,
        None => options.default_source,
    };
    let name = match (source, options.override_name) {
        (_, Some(name)) => name.to_string(),
        (ChatTemplateSource::Model, None) => "model".to_string(),
        (_, None) => manifest.architecture.clone().unwrap(),
    };
    let text = text_of(&messages[0]);
    let (prompt, stop) = match name.as_str() {
        "generic" => (format!("user: {text}\nassistant: "), Vec::new()),
        "phi3" => (
            format!("<|user|>\n{text}<|end|>\n<|assistant|>\n"),
            vec!["<|end|>".to_string()],
        ),
        _ => (text.to_string(), Vec::new()),
    };
    PromptSpec {
        prompt,
        stop,
        chat_template: ChatTemplateInfo {
            source,
            name,
            applied_by_werk: source == ChatTemplateSource::Werk,
            override_from_cli: options.override_name.map(str::to_string),
        },
        assistant_end_token: None,
    }
}

fn delta(
    index: usize,
    id: Option<&str>,
    name: Option<&str>,
    arguments: &str,
) -> ChatCompletionToolCallDelta {
    ChatCompletionToolCallDelta {
        index,
        id: id.map(str::to_string),
        kind: None,
        function: Some(ChatCompletionFunctionDelta {
            name: name.map(str::to_string),
            arguments: Some(arguments.to_string()),
        }),
    }
}

fn tool_call(id: &str, name: &str) -> ChatCompletionToolCall {
    ChatCompletionToolCall {
        id: id.to_string(),
        kind: "function".to_string(),
        function: ChatCompletionFunctionCall {
            name: name.to_string(),
            arguments: "{}".to_string(),
        },
    }
}

#[test]
fn verbose_stats_report_stop_reason_and_unknown_prompt_eval() {
    let lines = write_verbose_stats(
        Some("ONNX Runtime CPU"),
        12,
        24,
        "stop_sequence",
        &GenerationTimes {
            total: "1.25s".to_string(),
            load: "250.00ms".to_string(),
            warmup: None,
            prompt: None,
            decode: "1.00s".to_string(),
            first_token: Some("500.00ms".to_string()),
            rate: "24.00".to_string(),
        },
        &vec!["effective max new tokens: 256".to_string()],
    );
    let output = lines.join("\n");

    assert!(output.contains("prompt eval duration: N/A"));
    assert!(output.contains("prompt eval rate:"));
    assert!(output.contains("N/A"));
    assert!(output.contains("finish reason:"));
    assert!(output.contains("stop_sequence"));
    assert!(output.contains("effective max new tokens: 256"));
}

#[test]
fn gguf_llama_cpp_defaults_to_model_chat_template() {
    let manifest = test_manifest(ModelFormat::Gguf, Some("llama"));
    let messages = vec![text_message("user", "hello")];
    let prompt = prompt_for_backend(
        &manifest,
        &messages,
        BackendChoice::LlamaServer(LlamaCppMode::Metal),
        None,
    );
    let diagnostics = prompt_diagnostics(&prompt, messages.len(), Some(true));

    assert_eq!(prompt.chat_template.source, ChatTemplateSource::Model);
    assert_eq!(prompt.chat_template.name, "model");
    assert!(!prompt.chat_template.applied_by_werk);
    assert_eq!(prompt.prompt, "hello");
    assert!(diagnostics.contains(&"chat template source: model".to_string()));
    assert!(diagnostics.contains(&"chat template: model".to_string()));
    assert!(diagnostics.contains(&"chat template applied by werk: no".to_string()));
    assert!(!diagnostics.contains(&"chat template: generic".to_string()));
}

#[test]
fn gguf_model_chat_template_keeps_structured_generation_messages() {
    let manifest = test_manifest(ModelFormat::Gguf, Some("llama"));
    let messages = vec![text_message("user", "hello")];
    let prompt = prompt_for_backend(
        &manifest,
        &messages,
        BackendChoice::LlamaServer(LlamaCppMode::Metal),
        None,
    );

    let request_messages = generation_request_messages(&prompt, &messages);

    assert_eq!(request_messages.len(), 1);
    assert_eq!(text_of(&request_messages[0]), "hello");
}

#[test]
fn explicit_generic_chat_template_overrides_gguf_model_default() {
    let manifest = test_manifest(ModelFormat::Gguf, Some("llama"));
    let messages = vec![text_message("user", "hello")];
    let prompt = prompt_for_backend(
        &manifest,
        &messages,
        BackendChoice::LlamaServer(LlamaCppMode::Metal),
        Some(ChatTemplateArg::Generic),
    );

    assert_eq!(prompt.chat_template.source, ChatTemplateSource::Werk);
    assert_eq!(prompt.chat_template.name, "generic");
    assert!(prompt.chat_template.applied_by_werk);
    assert_eq!(
        prompt.chat_template.override_from_cli.as_deref(),
        Some("generic")
    );
    assert!(prompt.prompt.contains("user: hello"));
    assert!(prompt.prompt.ends_with("assistant: "));
}

#[test]
fn werk_applied_chat_template_uses_rendered_prompt_only_for_generation() {
    let manifest = test_manifest(ModelFormat::Gguf, Some("llama"));
    let messages = vec![text_message("user", "hello")];
    let prompt = prompt_for_backend(
        &manifest,
        &messages,
        BackendChoice::LlamaServer(LlamaCppMode::Metal),
        Some(ChatTemplateArg::Generic),
    );

    let request_messages = generation_request_messages(&prompt, &messages);

    assert!(request_messages.is_empty());
}

#[test]
fn explicit_none_chat_template_disables_werk_templating() {
    let manifest = test_manifest(ModelFormat::Gguf, Some("llama"));
    let messages = vec![text_message("user", "hello")];
    let prompt = prompt_for_backend(
        &manifest,
        &messages,
        BackendChoice::LlamaServer(LlamaCppMode::Metal),
        Some(ChatTemplateArg::NoTemplate),
    );

    assert_eq!(prompt.chat_template.source, ChatTemplateSource::Nobody);
    assert_eq!(prompt.chat_template.name, "none");
    assert!(!prompt.chat_template.applied_by_werk);
    assert_eq!(prompt.prompt, "hello");
    assert!(prompt.stop.is_empty());
}

#[test]
fn onnx_phi3_still_uses_werk_phi3_chat_template() {
    let manifest = test_manifest(ModelFormat::Onnx, Some("phi3"));
    let messages = vec![text_message("user", "hello")];
    let prompt = prompt_for_backend(
        &manifest,
        &messages,
        BackendChoice::OnnxRuntime(OnnxRuntimeMode::Cpu),
        None,
    );

    assert_eq!(prompt.chat_template.source, ChatTemplateSource::Werk);
    assert_eq!(prompt.chat_template.name, "phi3");
    assert!(prompt.chat_template.applied_by_werk);
    assert!(prompt.prompt.starts_with("<|user|>"));
    assert!(prompt.stop.contains(&"<|end|>".to_string()));
}

#[test]
fn transformers_compat_uses_model_chat_template_and_messages() {
    let manifest = test_manifest(ModelFormat::SafeTensors, Some("chatglm"));
    let messages = vec![text_message("user", "hello")];
    let prompt = prompt_for_backend(
        &manifest,
        &messages,
        BackendChoice::TransformersCompat,
        None,
    );
    let request_messages = generation_request_messages(&prompt, &messages);

    assert_eq!(prompt.chat_template.source, ChatTemplateSource::Model);
    assert_eq!(prompt.chat_template.name, "model");
    assert!(!prompt.chat_template.applied_by_werk);
    assert_eq!(request_messages.len(), 1);
    assert_eq!(prompt.prompt, "hello");
}

#[test]
fn chat_request_messages_keep_history_by_default() {
    let mut history = vec![text_message("user", "first")];
    let request_messages =
        request_messages_for_turn(&mut history, text_message("user", "second"), true);

    assert_eq!(request_messages.len(), 2);
    assert_eq!(history.len(), 2);
    assert_eq!(text_of(&request_messages[1]), "second");
}

#[test]
fn single_turn_request_messages_only_include_current_user_message() {
    let mut history = vec![
        text_message("user", "first"),
        text_message("assistant", "answer"),
    ];
    let request_messages =
        request_messages_for_turn(&mut history, text_message("user", "second"), false);

    assert_eq!(request_messages.len(), 1);
    assert_eq!(history.len(), 2);
    assert_eq!(text_of(&request_messages[0]), "second");
}

#[test]
fn cli_vision_image_paths_become_portable_data_urls() {
    let mut intake = ImageIntake::new(DEFAULT_MAX_VISION_INPUT_BYTES);
    let ImageStep::Read(path) = intake.offer("/tmp/layout.png", false).unwrap() else {
        panic!("the file was not asked for")
    };
    assert_eq!(path, "/tmp/layout.png");
    intake
        .offer_file(&path, &b"\x89PNG\r\n\x1a\nfixture".to_vec())
        .unwrap();
    assert!(matches!(
        intake
            .offer("https://example.test/reference.png", false)
            .unwrap(),
        ImageStep::Taken
    ));

    assert!(intake.normalized[0].starts_with("data:image/png;base64,"));
    assert_eq!(
        intake.normalized[0],
        "data:image/png;base64,iVBORw0KGgpmaXh0dXJl"
    );
    assert_eq!(intake.normalized[1], "https://example.test/reference.png");
}

#[test]
fn cli_vision_message_preserves_text_then_images_and_counts_visual_tokens() {
    let images = vec![
        "data:image/png;base64,AAAA".to_string(),
        "https://example.test/second.png".to_string(),
    ];
    let message = vision_user_message("Inspect the layout", &images);
    let MessageContent::Parts(parts) = message.content.as_ref().unwrap() else {
        panic!("vision message was flattened")
    };
    assert_eq!(
        parts
            .iter()
            .map(|part| part.kind.as_str())
            .collect::<Vec<_>>(),
        ["text", "image_url", "image_url"]
    );
    assert!(cli_message_content_tokens(message.content.as_ref().unwrap()) >= 2 * 1024);
    assert_eq!(image_urls_from_messages(&vec![message]), images);
}

#[test]
fn run_tool_delta_assembly_handles_parallel_calls_and_rejects_incomplete_metadata() {
    let mut calls = ToolCallAccumulator::default();
    calls
        .extend(vec![
            delta(1, Some("b"), Some("second"), "{"),
            delta(0, Some("a"), Some("first"), "{}"),
        ])
        .unwrap();
    calls.extend(vec![delta(1, None, None, "}")]).unwrap();
    let calls = calls.finish().unwrap();
    assert_eq!(calls[0].id, "a");
    assert_eq!(calls[1].function.arguments, "{}");
    let mut incomplete = ToolCallAccumulator::default();
    incomplete
        .extend(vec![delta(0, None, None, "{}")])
        .unwrap();
    assert!(incomplete.finish().is_err());
}

#[test]
fn run_tool_context_trimming_removes_whole_turns_and_preserves_current_chain() {
    let call_message = || ChatMessage {
        role: "assistant".to_string(),
        content: None,
        name: None,
        tool_calls: Some(vec![tool_call("call_1", "lookup")]),
        tool_call_id: None,
    };
    let result_message = || ChatMessage {
        tool_call_id: Some("call_1".to_string()),
        ..text_message("tool", &"x".repeat(5000))
    };
    let rendered = |messages: &Vec<ChatMessage>| {
        messages
            .iter()
            .map(|message| match message.content.as_ref() {
                Some(MessageContent::Text(text)) => text.len() + 12,
                _ => 12,
            })
            .sum::<usize>()
    };
    let mut messages = vec![
        text_message("system", "instructions"),
        text_message("user", "old"),
        call_message(),
        result_message(),
        text_message("assistant", "old answer"),
        text_message("user", "new"),
    ];
    let removed = trim_chat_history_to_context(rendered, &mut messages, Some(1024), 128).unwrap();
    assert_eq!(removed, 4);
    assert_eq!(messages.len(), 2);
    let mut current = vec![
        text_message("user", "current"),
        call_message(),
        result_message(),
    ];
    assert!(trim_chat_history_to_context(rendered, &mut current, Some(512), 128).is_err());
    assert_eq!(current.len(), 3);
}

#[test]
fn run_failed_or_unfinished_stream_keeps_previous_archive_and_releases_lock() {
    let stored = stored_after_turn(
        Vec::new(),
        vec![text_message("user", "initial")],
        TurnOutcome::Done {
            text: "saved".to_string(),
            tool_calls: Vec::new(),
        },
    )
    .unwrap();
    assert_eq!(stored.len(), 2);
    for outcome in [
        TurnOutcome::Failed("failed".to_string()),
        TurnOutcome::Unfinished,
    ] {
        assert!(stored_after_turn(
            vec![text_message("user", "initial"), text_message("assistant", "saved")],
            vec![text_message("user", "retry")],
            outcome,
        )
        .is_err());
    }
}

#[test]
fn run_persists_tool_only_answers_and_resumes_tool_results() {
    let stored = stored_after_turn(
        Vec::new(),
        vec![text_message("user", "weather?")],
        TurnOutcome::Done {
            text: String::new(),
            tool_calls: vec![tool_call("call_1", "weather")],
        },
    )
    .unwrap();
    assert!(stored[1].content.is_none());
    assert_eq!(stored[1].tool_calls.as_ref().unwrap()[0].id, "call_1");
    let stored = stored_after_turn(
        stored,
        vec![ChatMessage {
            tool_call_id: Some("call_1".to_string()),
            ..text_message("tool", "sunny")
        }],
        TurnOutcome::Done {
            text: "sunny".to_string(),
            tool_calls: Vec::new(),
        },
    )
    .unwrap();
    assert_eq!(stored[2].role, "tool");
    assert_eq!(stored.len(), 4);
}

#[test]
fn run_images_bypass_text_only_sessions_including_restored_images() {
    let sent = vec![
        vision_user_message("describe", &vec!["https://example.org/a.png".to_string()]),
        text_message("assistant", "image"),
        text_message("user", "again"),
    ];
    assert!(!keeps_backend_session(
        &Vec::new(),
        &vec![vision_user_message(
            "describe",
            &vec!["https://example.org/a.png".to_string()]
        )]
    ));
    assert!(!keeps_backend_session(&Vec::new(), &sent));
    assert!(!keeps_backend_session(
        &vec!["https://example.org/a.png".to_string()],
        &Vec::new()
    ));
    assert!(keeps_backend_session(
        &Vec::new(),
        &vec![text_message("user", "again")]
    ));
    let request = generate_request(&model_prompt("again"), &sent, &Vec::new(), settings());
    assert_eq!(
        request.image_urls,
        vec!["https://example.org/a.png".to_string()]
    );
    assert!(request.tool_config.is_none());
}

#[test]
fn tool_calls_have_a_bounded_number_of_places() {
    let mut calls = ToolCallAccumulator::new();
    assert!(calls
        .extend(vec![delta(MAX_TOOL_CALLS, Some("a"), Some("first"), "{}")])
        .is_err());
    let calls = ToolCallAccumulator::new();
    assert!(calls.finish().unwrap().is_empty());
}

#[test]
fn batches_of_deltas_make_no_difference() {
    let mut at_once = ToolCallAccumulator::new();
    at_once
        .extend(vec![
            delta(0, Some("a"), Some("first"), "{\"x\""),
            delta(0, None, None, ":1}"),
        ])
        .unwrap();
    let mut in_turn = ToolCallAccumulator::new();
    in_turn
        .extend(vec![delta(0, Some("a"), Some("first"), "{\"x\"")])
        .unwrap();
    in_turn.extend(vec![delta(0, None, None, ":1}")]).unwrap();
    let at_once = at_once.finish().unwrap();
    let in_turn = in_turn.finish().unwrap();
    assert_eq!(at_once[0].function.arguments, "{\"x\":1}");
    assert_eq!(
        at_once[0].function.arguments,
        in_turn[0].function.arguments
    );
}

#[test]
fn trimming_needs_room_for_the_answer() {
    let rendered = |_: &Vec<ChatMessage>| 3usize;
    let mut messages = vec![text_message("user", "hi")];
    assert_eq!(
        trim_chat_history_to_context(rendered, &mut messages, None, 128),
        Ok(0)
    );
    assert_eq!(
        trim_chat_history_to_context(rendered, &mut messages, Some(4096), 128),
        Ok(0)
    );
    assert!(
        trim_chat_history_to_context(rendered, &mut messages, Some(192), 128)
            .unwrap_err()
            .contains("leaves no prompt space")
    );
    assert!(
        trim_chat_history_to_context(rendered, &mut messages, Some(4096), usize::MAX)
            .unwrap_err()
            .contains("overflowed")
    );
    let large = |_: &Vec<ChatMessage>| 1_000_000usize;
    assert!(
        trim_chat_history_to_context(large, &mut messages, Some(1024), 128)
            .unwrap_err()
            .contains("current message is too large")
    );
    let mut only_system = vec![text_message("system", "rules")];
    assert!(
        trim_chat_history_to_context(large, &mut only_system, Some(1024), 128)
            .unwrap_err()
            .contains("system prompt is too large")
    );
}

#[test]
fn prompts_cost_a_token_for_every_three_bytes() {
    let messages = vec![text_message("user", "hi")];
    assert_eq!(estimate_chat_prompt_tokens(3000, &messages), 1000);
    assert_eq!(estimate_chat_prompt_tokens(3001, &messages), 1001);
}

#[test]
fn contexts_are_taken_from_the_settings_or_the_model() {
    let constraints = parse_json("{\"context_length\": 8192}").unwrap();
    assert_eq!(
        chat_context_size(
            BackendChoice::LlamaServer(LlamaCppMode::Cpu),
            &constraints,
            Some(2048)
        ),
        Some(2048)
    );
}

#[test]
fn diagnostics_are_joined_in_order() {
    assert_eq!(
        merged_diagnostics(&vec!["a".to_string()], &vec!["b".to_string()]),
        vec!["a".to_string(), "b".to_string()]
    );
}

#[test]
fn lines_of_a_chat_are_sorted_out() {
    assert!(matches!(chat_input("   "), ChatInput::Skip));
    assert!(matches!(chat_input("/exit"), ChatInput::Leave));
    assert!(matches!(chat_input(" hello "), ChatInput::Say(text) if text == "hello"));
    assert!(chat_greeting("tiny").contains("tiny"));
    assert!(forgotten_notice(0, Some(4096)).is_none());
    assert!(forgotten_notice(2, Some(4096)).unwrap().contains('2'));
}

#[test]
fn turns_keep_what_was_said() {
    let mut conversation = Conversation {
        messages: Vec::new(),
        history_enabled: true,
        images: Vec::new(),
    };
    let rendered = |messages: &Vec<ChatMessage>| messages.len() * 30;
    let turn = conversation
        .begin_turn(rendered, "hello", Some(4096), 128)
        .unwrap();
    assert_eq!(turn.messages.len(), 1);
    assert_eq!(turn.forgotten, 0);
    conversation.keep_answer("hi there");
    assert_eq!(conversation.messages.len(), 2);
    let turn = conversation
        .begin_turn(rendered, "again", Some(4096), 128)
        .unwrap();
    assert_eq!(turn.messages.len(), 3);
}

#[test]
fn answers_grow_until_they_are_done() {
    let mut answer = Answer::new();
    let notes = vec!["note".to_string()];
    let reaction = answer.receive(
        StreamEvent::Text("hel".to_string()),
        &notes,
        false,
        false,
        true,
    );
    assert_eq!(reaction.out, "hel");
    answer.receive(
        StreamEvent::Text("lo".to_string()),
        &notes,
        false,
        false,
        true,
    );
    assert_eq!(answer.text, "hello");
    assert!(!answer.ended);
    answer.receive(
        StreamEvent::Done {
            finish_reason: "length".to_string(),
            prompt_tokens: 10,
            completion_tokens: 2,
            diagnostics: Vec::new(),
        },
        &notes,
        false,
        false,
        true,
    );
    assert!(answer.timed);
    assert_eq!(answer.prompt_tokens, 10);
    assert!(answer.closing_text(128).contains("128"));
}

#[test]
fn spinners_are_seen_only_where_enabled() {
    let mut spinner = AssistantPendingSpinner::new(true);
    assert!(spinner.tick("|").is_some());
    assert!(spinner.clear().is_some());
    assert!(spinner.clear().is_none());
    let mut silent = AssistantPendingSpinner::new(false);
    assert!(silent.tick("|").is_none());
}

#[test]
fn image_types_are_known_by_their_bytes() {
    assert_eq!(
        image_mime_type("a.bin", &b"\x89PNG\r\n\x1a\nrest".to_vec()).unwrap(),
        "image/png"
    );
    assert_eq!(
        image_mime_type("a.bin", &b"\xff\xd8\xff\xe0".to_vec()).unwrap(),
        "image/jpeg"
    );
    assert!(image_mime_type("a.txt", &b"plain".to_vec()).is_err());
    assert!(str_is_web_address("https://example.org"));
    assert!(!str_is_web_address("layout.png"));
    assert_eq!(cli_image_path("file:///tmp/a.png", false), "/tmp/a.png");
    assert_eq!(vision_input_limit(None), DEFAULT_MAX_VISION_INPUT_BYTES);
    assert_eq!(vision_input_limit(Some("1024")), 1024);
}

#[test]
fn images_stay_within_their_limit() {
    let mut intake = ImageIntake::new(12);
    assert!(intake
        .offer_file("a.png", &b"\x89PNG\r\n\x1a\nfixture".to_vec())
        .is_err());
    assert!(intake.normalized.is_empty());
    assert!(intake.offer("  ", false).is_err());
    assert!(intake.offer("data:text/plain;base64,AAAA", false).is_err());
}

fn settings() -> GenerationSettings {
    GenerationSettings {
        max_tokens: 128,
        seed: Some(17),
        stream_granularity: StreamGranularity::Chunk,
        verbose: false,
        debug: false,
    }
}

fn model_prompt(text: &str) -> PromptSpec {
    PromptSpec {
        prompt: text.to_string(),
        stop: vec!["END".to_string()],
        chat_template: ChatTemplateInfo {
            source: ChatTemplateSource::Model,
            name: "model".to_string(),
            applied_by_werk: false,
            override_from_cli: None,
        },
        assistant_end_token: None,
    }
}

fn done() -> StreamEvent {
    StreamEvent::Done {
        finish_reason: "stop".to_string(),
        prompt_tokens: 10,
        completion_tokens: 2,
        diagnostics: vec!["backend note".to_string()],
    }
}

#[test]
fn sessions_go_turn_by_turn() {
    let rendered = |messages: &Vec<ChatMessage>| messages.len() * 30;
    let mut session = ChatSession::new(true, Vec::new(), Some(4096), settings());
    assert!(matches!(
        session.hear(rendered, Some("   ")),
        Ok(Heard::Nothing)
    ));
    assert!(matches!(
        session.hear(rendered, Some(" first ")),
        Ok(Heard::Turn(None))
    ));
    assert_eq!(session.phase, ChatPhase::Composing);
    assert_eq!(text_of(&session.sent[0]), "first");
    let request = session.compose(&model_prompt("first"));
    assert_eq!(request.prompt, "first");
    assert_eq!(request.messages.len(), 1);
    assert_eq!(request.stop, vec!["END".to_string()]);
    assert_eq!(request.settings, settings());
    assert!(session
        .receive(StreamEvent::Text("answer".to_string()), false, true)
        .closing
        .is_none());
    let step = session.receive(done(), false, true);
    assert_eq!(step.closing.as_deref(), Some("\n"));
    assert_eq!(session.phase, ChatPhase::Listening);
    assert!(session
        .answer
        .diagnostics
        .contains(&"backend note".to_string()));
    assert!(matches!(
        session.hear(rendered, Some("second")),
        Ok(Heard::Turn(None))
    ));
    assert_eq!(session.sent.len(), 3);
    assert_eq!(text_of(&session.sent[1]), "answer");
    session.compose(&model_prompt("second"));
    session.receive(StreamEvent::Failed("gone".to_string()), false, true);
    assert_eq!(session.conversation.messages.len(), 3);
    assert!(matches!(
        session.hear(rendered, Some("/quit")),
        Ok(Heard::Left)
    ));
    assert_eq!(session.phase, ChatPhase::Over);
}

#[test]
fn sessions_without_a_history_keep_nothing() {
    let rendered = |messages: &Vec<ChatMessage>| messages.len() * 30;
    let images = vec!["https://example.org/a.png".to_string()];
    let mut session = ChatSession::new(false, images, Some(4096), settings());
    session.hear(rendered, Some("first")).unwrap();
    let request = session.compose(&model_prompt("first"));
    assert_eq!(
        request.image_urls,
        vec!["https://example.org/a.png".to_string()]
    );
    session.receive(StreamEvent::Text("answer".to_string()), false, true);
    session.receive(StreamEvent::Closed, false, true);
    assert!(session.conversation.messages.is_empty());
    assert!(matches!(session.hear(rendered, None), Ok(Heard::Left)));
}

#[test]
fn sessions_end_where_no_room_can_be_made() {
    let large = |_: &Vec<ChatMessage>| 1_000_000usize;
    let mut session = ChatSession::new(true, Vec::new(), Some(1024), settings());
    assert!(session.hear(large, Some("hello")).is_err());
    assert_eq!(session.phase, ChatPhase::Over);
}

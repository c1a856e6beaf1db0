use std::collections::HashMap;
use std::path::Path;
use werk_cli::messages::{
    vision_user_message, ChatCompletionFunctionCall, ChatCompletionToolCall, ChatMessage,
    MessageContent,
};
use werk_cli::persistence::{
    check_archive, check_archive_size, check_open, needs_archive, open_history, save_at,
    session_fingerprint, session_paths, staging_name, validate_directory, validate_label,
    validate_messages, validate_owner_and_mode, validate_regular_private, BoundedBytes, ChatArchive,
    FileFacts, MAX_ARCHIVE_BYTES, MAX_MESSAGES, MAX_TTL_SECONDS, PersistenceMode, PersistencePolicy,
    ReuseMode,
};

fn text(role: &str, content: &str) -> ChatMessage {
    ChatMessage {
        role: role.to_string(),
        content: Some(MessageContent::Text(content.to_string())),
        name: None,
        tool_calls: None,
        tool_call_id: None,
    }
}

fn messages() -> Vec<ChatMessage> {
    vec![
        vision_user_message("Look", &vec!["data:image/png;base64,AAAA".to_string()]),
        ChatMessage {
            role: "assistant".to_string(),
            content: None,
            name: Some("helper".to_string()),
            tool_calls: Some(vec![ChatCompletionToolCall {
                id: "call_1".to_string(),
                kind: "function".to_string(),
                function: ChatCompletionFunctionCall {
                    name: "lookup".to_string(),
                    arguments: "{}".to_string(),
                },
            }]),
            tool_call_id: None,
        },
        ChatMessage {
            tool_call_id: Some("call_1".to_string()),
            ..text("tool", "found")
        },
        text("assistant", "done"),
    ]
}

fn print() -> String {
    session_fingerprint("owner/model", "default")
}

fn saved(now: u64, ttl: Option<u64>) -> ChatArchive {
    save_at(messages(), &print(), ttl, now).unwrap()
}

fn with_reuse(reuse: ReuseMode) -> PersistencePolicy {
    PersistencePolicy {
        reuse,
        ..PersistencePolicy::default()
    }
}

#[test]
fn portable_full_history_survives_restarts_and_retains_message_fields() {
    let policy = PersistencePolicy::default();
    let opened = open_history(policy, None, &print(), 100).unwrap();
    assert!(opened.messages.is_empty());
    assert!(!opened.resumed);
    assert_eq!(check_open("default", "owner/model", policy), Ok(true));
    let opened = open_history(policy, Some(Ok(saved(101, None))), &print(), 102).unwrap();
    assert!(opened.resumed);
    assert_eq!(format!("{:?}", opened.messages), format!("{:?}", messages()));
}

#[test]
fn sessions_and_models_are_isolated_without_path_interpolation() {
    let own = session_paths("/root", &print());
    let mut disk = HashMap::new();
    disk.insert(own.archive.clone(), saved(101, None));
    for (name, model) in [("../default", "owner/model"), ("default", "other/model")] {
        let policy = PersistencePolicy::default();
        assert_eq!(check_open(name, model, policy), Ok(true));
        let fingerprint = session_fingerprint(model, name);
        let other = session_paths("/root", &fingerprint);
        let found = disk.remove(&other.archive).map(Ok);
        let history = open_history(policy, found, &fingerprint, 102).unwrap();
        assert!(history.messages.is_empty());
        assert_ne!(other.archive, own.archive);
        assert_ne!(other.lock, own.lock);
        assert_ne!(other.cache, own.cache);
        assert_eq!(
            Path::new(&other.archive).parent(),
            Path::new(&own.archive).parent()
        );
    }
    assert!(disk.contains_key(&own.archive));
}

#[test]
fn native_cache_directory_is_private_stable_and_requires_disk_mode() {
    let paths = session_paths("/root", &print());
    assert_eq!(
        paths.cache,
        paths.archive.strip_suffix(".json").unwrap().to_string() + ".cache"
    );
    assert_eq!(
        paths.lock,
        paths.archive.strip_suffix(".json").unwrap().to_string() + ".lock"
    );
    let memory = PersistencePolicy {
        mode: PersistenceMode::Memory,
        ..PersistencePolicy::default()
    };
    assert_eq!(check_open("default", "owner/model", memory), Ok(false));
}

#[test]
fn required_missing_or_expired_history_fails_and_prefer_expiry_is_explicit() {
    let required = with_reuse(ReuseMode::Required);
    assert!(open_history(required, None, &print(), 100)
        .unwrap_err()
        .contains("not found"));
    let opened = open_history(required, Some(Ok(saved(100, Some(5)))), &print(), 104).unwrap();
    assert!(!opened.messages.is_empty());
    assert!(
        open_history(required, Some(Ok(saved(100, Some(5)))), &print(), 105)
            .unwrap_err()
            .contains("expired")
    );
    let opened = open_history(
        PersistencePolicy::default(),
        Some(Ok(saved(100, Some(5)))),
        &print(),
        105,
    )
    .unwrap();
    assert!(opened.messages.is_empty());
    assert!(opened.notice.unwrap().contains("expired"));
}

#[test]
fn disabled_reuse_preserves_existing_file_until_completed_turn_is_saved() {
    let disabled = with_reuse(ReuseMode::Disabled);
    assert!(!needs_archive(disabled, true));
    let opened = open_history(disabled, None, &print(), 101).unwrap();
    assert!(opened.messages.is_empty());
    let mut unfinished = messages();
    unfinished.pop();
    assert!(save_at(unfinished, &print(), None, 101).is_err());
    let mut empty_answer = messages();
    empty_answer.last_mut().unwrap().content = Some(MessageContent::Text(String::new()));
    assert!(save_at(empty_answer, &print(), None, 101).is_err());
    let replacement = vec![messages().pop().unwrap()];
    let archive = save_at(replacement, &print(), None, 102).unwrap();
    let opened = open_history(
        PersistencePolicy::default(),
        Some(Ok(archive)),
        &print(),
        103,
    )
    .unwrap();
    assert_eq!(opened.messages.len(), 1);
}

#[test]
fn corrupt_archive_is_not_silently_overwritten() {
    let error = open_history(
        PersistencePolicy::default(),
        Some(Err("invalid chat archive".to_string())),
        &print(),
        101,
    )
    .unwrap_err();
    assert!(error.contains("invalid"));
}

#[test]
fn schema_identity_and_size_are_validated_before_reuse() {
    let mut malformed = saved(100, None);
    malformed.schema_version = 999;
    assert!(check_archive(&malformed, &print()).is_err());
    assert!(open_history(
        PersistencePolicy::default(),
        Some(Ok(malformed)),
        &print(),
        101
    )
    .is_err());
    let mut malformed = saved(100, None);
    malformed.session_fingerprint = "other".to_string();
    assert!(open_history(
        PersistencePolicy::default(),
        Some(Ok(malformed)),
        &print(),
        101
    )
    .is_err());
    assert!(check_archive_size(MAX_ARCHIVE_BYTES as u64).is_ok());
    assert!(check_archive_size(MAX_ARCHIVE_BYTES as u64 + 1).is_err());
}

#[test]
fn oversized_save_preserves_the_previous_archive() {
    let mut bytes = BoundedBytes::new();
    assert_eq!(bytes.write(b"abc"), Ok(3));
    assert!(bytes.write(&vec![b'x'; MAX_ARCHIVE_BYTES]).is_err());
    assert_eq!(bytes.bytes, b"abc");
    let many = (0..MAX_MESSAGES + 1)
        .map(|_| text("assistant", "done"))
        .collect::<Vec<_>>();
    assert!(save_at(many, &print(), None, 101).is_err());
}

#[test]
fn memory_and_ephemeral_modes_do_not_write_to_disk_and_pinning_is_explicitly_rejected() {
    for mode in [PersistenceMode::Memory, PersistenceMode::Ephemeral] {
        let policy = PersistencePolicy {
            mode,
            ..PersistencePolicy::default()
        };
        assert_eq!(check_open("default", "owner/model", policy), Ok(false));
        let opened = open_history(policy, None, &print(), 100).unwrap();
        assert!(!opened.resumed);
        assert!(opened.messages.is_empty());
        let required = PersistencePolicy {
            mode,
            reuse: ReuseMode::Required,
            ..PersistencePolicy::default()
        };
        assert!(check_open("default", "owner/model", required).is_err());
    }
    assert!(check_open(
        "default",
        "owner/model",
        PersistencePolicy {
            pin: true,
            ..PersistencePolicy::default()
        }
    )
    .is_err());
}

#[test]
fn links_and_shared_permissions_cannot_redirect_or_expose_archives() {
    let private = FileFacts {
        is_link: false,
        is_file: true,
        is_directory: false,
        hard_links: Some(1),
        owned: Some(true),
        mode: Some(0o100600),
    };
    assert!(validate_regular_private(private).is_ok());
    assert!(validate_regular_private(FileFacts {
        is_link: true,
        is_file: false,
        ..private
    })
    .is_err());
    assert!(validate_regular_private(FileFacts {
        hard_links: Some(2),
        ..private
    })
    .is_err());
    assert!(validate_regular_private(FileFacts {
        mode: Some(0o100644),
        ..private
    })
    .is_err());
    assert!(validate_owner_and_mode(FileFacts {
        owned: Some(false),
        ..private
    })
    .is_err());
}

#[test]
fn native_cache_directory_rejects_symlinks() {
    let directory = FileFacts {
        is_link: false,
        is_file: false,
        is_directory: true,
        hard_links: Some(2),
        owned: Some(true),
        mode: Some(0o040700),
    };
    assert!(validate_directory(directory).is_ok());
    assert!(validate_directory(FileFacts {
        is_link: true,
        is_directory: false,
        ..directory
    })
    .is_err());
}

#[test]
fn fingerprints_are_digests_of_both_names() {
    assert_eq!(
        session_fingerprint("m", "s"),
        "ef9e6d52aa8233004085480a9c38b36987633de7e04e4500e48d67b0bc4dfe5a"
    );
    assert_ne!(
        session_fingerprint("ab", "c"),
        session_fingerprint("a", "bc")
    );
}

#[test]
fn labels_and_lifetimes_are_bounded() {
    assert!(validate_label("default", "session", 256).is_ok());
    assert!(validate_label("", "session", 256).is_err());
    assert!(validate_label("a\nb", "session", 256).is_err());
    assert!(validate_label(&"x".repeat(257), "session", 256).is_err());
    let with_ttl = |ttl| PersistencePolicy {
        ttl_seconds: Some(ttl),
        ..PersistencePolicy::default()
    };
    assert!(check_open("s", "m", with_ttl(MAX_TTL_SECONDS)).is_ok());
    assert!(check_open("s", "m", with_ttl(MAX_TTL_SECONDS + 1)).is_err());
    assert!(check_open("s", "m", with_ttl(0)).is_err());
}

#[test]
fn unfinished_conversations_are_not_valid() {
    assert!(validate_messages(&messages()).is_ok());
    assert!(validate_messages(&vec![text("user", "hi")]).is_err());
    assert!(validate_messages(&Vec::new()).is_err());
}

#[test]
fn staging_files_are_hidden_beside_the_archive() {
    let name = staging_name("abc", &vec![0x01, 0xfe]);
    assert!(name.contains("abc"));
    assert!(name.contains("01fe"));
}

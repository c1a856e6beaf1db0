use std::collections::HashSet;

use werk_cli::json::Json;
use werk_cli::media_execution::record_publication;
use werk_cli::outputs::{
    check_moves, cli_output_extension, cli_output_slug, copy_failure_message,
    default_cli_output_file_name, destination_is_directory, ensure_cli_publication_path,
    ensure_managed_cli_sources, move_failure_message, path_is_within, print_inference_result,
    publish_cli_outputs, publish_directory, publish_target, rollback_moves, withdrawn_copies,
    AncestorSearch, DestinationFacts, InferenceResult, MoveTarget, OutputFile, PublishSource,
    SourceKind,
};

fn output(id: &str, path: &str, mime_type: &str) -> OutputFile {
    OutputFile {
        id: id.to_string(),
        path: path.to_string(),
        mime_type: mime_type.to_string(),
        size_bytes: 15,
        width: Some(16),
        height: Some(16),
        duration: None,
        seed: Some(1),
        metadata: Json::Null,
    }
}

fn test_inference_result(id: &str, path: &str) -> InferenceResult {
    InferenceResult {
        id: id.to_string(),
        task: "image-generation".to_string(),
        model: "test-model".to_string(),
        runtime: "test-runtime".to_string(),
        outputs: vec![output(&format!("{id}-0"), path, "image/png")],
        warnings: Vec::new(),
    }
}

fn movable(source: &str, target: &str) -> MoveTarget {
    MoveTarget {
        source: source.to_string(),
        target: target.to_string(),
        source_kind: SourceKind::RegularFile,
        target_exists: false,
    }
}

fn file(path: &str, target_exists: bool) -> PublishSource {
    PublishSource {
        path: path.to_string(),
        is_file: true,
        target_exists,
    }
}

const ABSENT: DestinationFacts = DestinationFacts {
    exists: false,
    is_directory: false,
};

#[test]
fn cli_output_slug_is_portable_bounded_and_has_a_fallback() {
    assert_eq!(cli_output_slug("../CON: Tiny SD 🤖", 48), "con-tiny-sd");
    assert_eq!(cli_output_slug("🤖", 48), "model");
    assert_eq!(cli_output_slug(&"A".repeat(100), 48).len(), 48);
    let slug = cli_output_slug("a -- b__c --", 48);
    assert_eq!(slug, "a-b-c");
    assert_eq!(cli_output_slug(&slug, 48), slug);
    assert_eq!(cli_output_slug("model", 0), "model");
}

#[test]
fn missing_cli_output_uses_a_friendly_file_in_the_managed_output_root() {
    let source = "/home/outputs/out-1784968751-807fe1a83ad7fb22/image_generation-opaque-1.png";
    let mut result = test_inference_result("out-1784968751-807fe1a83ad7fb22", source);
    result.model = "Segmind/Tiny SD".to_string();
    assert_eq!(
        default_cli_output_file_name(&result, 0, source),
        "segmind-tiny-sd-image-generation-1784968751-807fe1a83ad7fb22.png"
    );
}

#[test]
fn default_cli_output_names_multiple_files_uniquely() {
    let first = "/home/outputs/out-1784968752-a5a791686518b221/opaque-a.png";
    let second = "/home/outputs/out-1784968752-a5a791686518b221/opaque-b.webp";
    let mut result = test_inference_result("out-1784968752-a5a791686518b221", first);
    result.model = "tiny-sd".to_string();
    result.outputs.push(output(
        "out-1784968752-a5a791686518b221-1",
        second,
        "image/webp",
    ));
    assert_eq!(
        default_cli_output_file_name(&result, 0, first),
        "tiny-sd-image-generation-1784968752-a5a791686518b221-01.png"
    );
    assert_eq!(
        default_cli_output_file_name(&result, 1, second),
        "tiny-sd-image-generation-1784968752-a5a791686518b221-02.webp"
    );
}

#[test]
fn default_cli_output_collision_preserves_the_managed_result() {
    let error = check_moves(&vec![MoveTarget {
        target_exists: true,
        ..movable("/home/outputs/out/opaque.png", "/home/outputs/taken.png")
    }])
    .unwrap_err();
    assert!(error.contains("refusing to overwrite"));
}

#[test]
fn default_cli_output_rejects_an_empty_backend_result() {
    let error = check_moves(&Vec::new()).unwrap_err();
    assert!(error.contains("without producing an output file"));
}

#[test]
fn explicit_cli_output_replaces_managed_artifact_without_leaving_a_duplicate() {
    let source = "/home/outputs/out-cli-publish/generated.png";
    let mut result = test_inference_result("out-cli-publish", source);
    let moves = publish_cli_outputs(
        &vec![file(source, false)],
        "/home/published.png",
        ABSENT,
    )
    .unwrap();
    assert_eq!(
        moves,
        vec![(source.to_string(), "/home/published.png".to_string())]
    );
    let paths = moves.into_iter().map(|(_, target)| target).collect();
    record_publication(&mut result, paths, true, None);
    assert_eq!(result.outputs[0].path, "/home/published.png");
}

#[test]
fn failed_cli_publish_preserves_the_managed_result() {
    let error = publish_cli_outputs(
        &vec![file("/home/outputs/out-cli-failure/generated.png", true)],
        "/home/existing.png",
        DestinationFacts {
            exists: true,
            is_directory: false,
        },
    )
    .unwrap_err();
    assert!(error.contains("refusing to overwrite"));
}

#[test]
fn cli_output_rejects_destinations_inside_the_managed_store() {
    let error =
        ensure_cli_publication_path("/home/outputs", "/home/outputs/loose.png").unwrap_err();
    assert!(error.contains("--output must be outside the managed output store"));
    assert!(ensure_cli_publication_path("/home/outputs", "/home/loose.png").is_ok());
}

#[test]
fn paths_are_resolved_by_their_nearest_directory() {
    let mut search = AncestorSearch::new("/data/link/new/deep/a.png");
    for cursor in ["/data/link/new/deep", "/data/link/new", "/data/link"] {
        assert_eq!(search.step(false, "a.png"), Ok(false));
        assert_eq!(search.cursor, cursor);
    }
    assert_eq!(search.step(true, "a.png"), Ok(true));
    assert_eq!(search.cursor, "/data/link");
    assert_eq!(search.resolved("/disk"), "/disk/new/deep/a.png");
    assert_eq!(search.resolved("/"), "/new/deep/a.png");

    let mut whole = AncestorSearch::new("/data");
    assert_eq!(whole.step(true, "/data"), Ok(true));
    assert_eq!(whole.resolved("/disk"), "/disk");

    let mut lost = AncestorSearch::new("/gone/..");
    assert_eq!(
        lost.step(false, "gone/.."),
        Err("cannot resolve output path gone/..".to_string())
    );
}

#[test]
fn failed_copies_withdraw_what_was_published() {
    let copies = publish_cli_outputs(
        &vec![
            file("/home/outputs/out/a.png", false),
            file("/home/outputs/out/b.png", false),
            file("/home/outputs/out/c.png", false),
        ],
        "/home/published",
        ABSENT,
    )
    .unwrap();
    assert_eq!(withdrawn_copies(&copies, 0), vec!["/home/published/a.png"]);
    let removed = withdrawn_copies(&copies, 2);
    assert_eq!(
        removed,
        vec![
            "/home/published/c.png",
            "/home/published/a.png",
            "/home/published/b.png",
        ]
    );
    let before: HashSet<String> = copies.iter().map(|(source, _)| source.clone()).collect();
    let mut files = before.clone();
    files.extend(copies.iter().map(|(_, target)| target.clone()));
    for path in removed {
        files.remove(&path);
    }
    assert_eq!(files, before);
    assert_eq!(
        copy_failure_message(&copies[2].0, &copies[2].1),
        "failed to copy managed output /home/outputs/out/c.png to /home/published/c.png"
    );
}

#[test]
fn duplicate_cli_output_names_fail_before_any_file_is_copied() {
    let error = publish_cli_outputs(
        &vec![
            file("/home/outputs/out/first/generated.png", false),
            file("/home/outputs/out/second/generated.png", false),
        ],
        "/home/published",
        ABSENT,
    )
    .unwrap_err();
    assert!(error.contains("same destination"));
}

#[test]
fn moves_need_regular_files() {
    assert!(check_moves(&vec![movable("a.png", "b.png")]).is_ok());
    for source_kind in [SourceKind::Missing, SourceKind::Other] {
        assert!(check_moves(&vec![MoveTarget {
            source_kind,
            ..movable("a.png", "b.png")
        }])
        .is_err());
    }
    assert!(check_moves(&vec![movable("a.png", "c.png"), movable("b.png", "c.png")]).is_err());
}

#[test]
fn failed_moves_are_taken_back() {
    let targets = vec![movable("a", "x"), movable("b", "y"), movable("c", "z")];
    let undone = rollback_moves(&targets, 2);
    assert_eq!(undone.len(), 2);
    assert!(undone.contains(&("x".to_string(), "a".to_string())));
    assert!(undone.contains(&("y".to_string(), "b".to_string())));
    assert!(rollback_moves(&targets, 0).is_empty());
    let message = move_failure_message("c", "z", &vec!["x".to_string()]);
    assert!(message.contains('c') && message.contains('x'));
}

#[test]
fn extensions_follow_the_file_or_its_type() {
    assert_eq!(cli_output_extension("a.PNG", "image/png"), "png");
    assert_eq!(cli_output_extension("opaque", "image/webp"), "webp");
    assert_eq!(cli_output_extension("opaque", "application/x-odd"), "bin");
}

#[test]
fn several_files_go_to_a_directory() {
    assert!(destination_is_directory(2, "out", ABSENT));
    assert!(!destination_is_directory(1, "out.png", ABSENT));
    assert!(destination_is_directory(
        1,
        "out",
        DestinationFacts {
            exists: true,
            is_directory: true
        }
    ));
    assert_eq!(
        publish_target("/a/b.png", "/out", true).as_deref(),
        Some("/out/b.png")
    );
    assert_eq!(
        publish_target("/a/b.png", "/out.png", false).as_deref(),
        Some("/out.png")
    );
    assert_eq!(publish_directory("/out", true).as_deref(), Some("/out"));
    assert_eq!(
        publish_directory("/home/a.png", false).as_deref(),
        Some("/home")
    );
}

#[test]
fn sources_stay_within_their_result() {
    assert!(path_is_within("/a/b/c", "/a/b"));
    assert!(!path_is_within("/a/bc", "/a/b"));
    assert!(ensure_managed_cli_sources("out-1", "/o/out-1", &vec!["/o/out-1/a.png".to_string()])
        .is_ok());
    assert!(
        ensure_managed_cli_sources("out-1", "/o/out-1", &vec!["/o/out-2/a.png".to_string()])
            .is_err()
    );
}

#[test]
fn results_are_shown_with_their_files() {
    let result = test_inference_result("out-1", "/o/out-1/a.png");
    let shown = print_inference_result(&result, false);
    assert!(shown.contains("/o/out-1/a.png"));
}

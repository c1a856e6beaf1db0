//! What is said of a model and of what was made from it.

use vstd::prelude::*;

use crate::backend::{format_debug_name, format_title};
use crate::binary64::{bytes_text, format_bytes};
use crate::estimate_report::{or_unknown, text_or_unknown};
use crate::manifest::{
    artifact_status_label, artifact_status_name, ArtifactKind, ArtifactStatus, ModelArtifact,
    ModelFile, ModelFormat, ModelManifest,
};
use crate::media_diagnostics::capped64;
use crate::model_list::{join_display, or_dash};
use crate::report_lines::{add_column, add_line, add_lines, column, empty_row, line, no_lines};
use crate::text::{decimal, join2, join3, join5, join_strings, joined, opt_view, usize_text, views};

verus! {

pub open spec fn files_size(files: Seq<ModelFile>) -> nat
    decreases files.len(),
{
    if files.len() == 0 {
        0
    } else {
        files_size(files.drop_last()) + files.last().size as nat
    }
}

fn size_of_files(files: &Vec<ModelFile>) -> (r: u64)
    ensures
        r == capped64(files_size(files@)),
{
    let mut total: u64 = 0;
    let mut i: usize = 0;
    assert(files@.take(0) =~= Seq::empty());
    while i < files.len()
        invariant
            i <= files@.len(),
            total == capped64(files_size(files@.take(i as int))),
        decreases files@.len() - i,
    {
        assert(files@.take(i + 1).drop_last() =~= files@.take(i as int));
        total = total.saturating_add(files[i].size);
        i = i + 1;
    }
    assert(files@.take(i as int) =~= files@);
    total
}

/// What is said of a model that was installed. `tasks` are the names of its
/// tasks.
pub open spec fn summary_lines(action: Seq<char>, m: ModelManifest, tasks: Seq<Seq<char>>) -> Seq<
    Seq<char>,
> {
    line(
        action + " "@ + m.id@ + " ("@ + format_title(m.format) + ", architecture: "@ + or_unknown(
            opt_view(m.architecture),
        ) + ")"@,
    ) + line(
        "  family="@ + or_unknown(opt_view(m.metadata.family)) + " layout="@
            + m.metadata.repository_layout@ + " tasks="@ + or_dash(tasks),
    ) + line(
        "  components="@ + decimal(m.metadata.components as nat) + " size="@ + bytes_text(
            capped64(files_size(m.files@)),
        ) + " precision="@ + or_unknown(opt_view(m.metadata.precision)) + " quantization="@
            + match opt_view(m.metadata.quantization) {
            Some(name) => name,
            None => "none"@,
        },
    ) + line(
        "  compatible runtimes="@ + if m.metadata.compatible_runtimes@.len() == 0 {
            "unknown"@
        } else {
            joined(views(m.metadata.compatible_runtimes@), ","@)
        },
    )
}

pub fn print_manifest_summary(action: &str, manifest: &ModelManifest, tasks: &Vec<String>) -> (r:
    Vec<String>)
    ensures
        views(r@) == summary_lines(action@, *manifest, views(tasks@)),
{
    let mut r = no_lines();
    let architecture = text_or_unknown(&manifest.architecture);
    let mut first = join5(
        action,
        " ",
        manifest.id.as_str(),
        " (",
        format_debug_name(manifest.format),
    );
    first.push_str(", architecture: ");
    first.push_str(architecture.as_str());
    first.push_str(")");
    let ghost head = first@;
    add_line(&mut r, first);
    assert(views(r@) =~= line(head));
    let family = text_or_unknown(&manifest.metadata.family);
    let listed = join_display(tasks);
    let mut second = join5(
        "  family=",
        family.as_str(),
        " layout=",
        manifest.metadata.repository_layout.as_str(),
        " tasks=",
    );
    second.push_str(listed.as_str());
    add_line(&mut r, second);
    let components = usize_text(manifest.metadata.components);
    let size = format_bytes(size_of_files(&manifest.files));
    let precision = text_or_unknown(&manifest.metadata.precision);
    let mut third = join5(
        "  components=",
        components.as_str(),
        " size=",
        size.as_str(),
        " precision=",
    );
    third.push_str(precision.as_str());
    third.push_str(" quantization=");
    match &manifest.metadata.quantization {
        Some(name) => {
            third.push_str(name.as_str());
        },
        None => {
            third.push_str("none");
        },
    }
    add_line(&mut r, third);
    if manifest.metadata.compatible_runtimes.len() == 0 {
        add_line(&mut r, join2("  compatible runtimes=", "unknown"));
    } else {
        let runtimes = join_strings(&manifest.metadata.compatible_runtimes, ",");
        add_line(&mut r, join2("  compatible runtimes=", runtimes.as_str()));
    }
    r
}

pub open spec fn kind_title(kind: ArtifactKind) -> Seq<char> {
    match kind {
        ArtifactKind::Onnx => "Onnx"@,
        ArtifactKind::Other => "Other"@,
    }
}

fn kind_debug_name(kind: ArtifactKind) -> (r: &'static str)
    ensures
        r@ == kind_title(kind),
{
    match kind {
        ArtifactKind::Onnx => "Onnx",
        ArtifactKind::Other => "Other",
    }
}

pub open spec fn kind_name(kind: ArtifactKind) -> Seq<char> {
    match kind {
        ArtifactKind::Onnx => "onnx"@,
        ArtifactKind::Other => "other"@,
    }
}

fn kind_label(kind: ArtifactKind) -> (r: &'static str)
    ensures
        r@ == kind_name(kind),
{
    match kind {
        ArtifactKind::Onnx => "onnx",
        ArtifactKind::Other => "other",
    }
}

/// What is said of something that was made from a model.
pub open spec fn artifact_lines(action: Seq<char>, model: Seq<char>, a: ModelArtifact) -> Seq<
    Seq<char>,
> {
    line(
        action + " "@ + kind_title(a.kind) + " artifact for "@ + model + ": "@ + a.path@ + " ("@
            + artifact_status_name(a.status) + ")"@,
    ) + match opt_view(a.detail) {
        Some(detail) => line(detail),
        None => Seq::empty(),
    }
}

pub fn print_artifact_result(action: &str, model: &str, artifact: &ModelArtifact) -> (r: Vec<String>)
    ensures
        views(r@) == artifact_lines(action@, model@, *artifact),
{
    let mut r = no_lines();
    let mut text = join5(action, " ", kind_debug_name(artifact.kind), " artifact for ", model);
    text.push_str(": ");
    text.push_str(artifact.path.as_str());
    text.push_str(" (");
    text.push_str(artifact_status_label(artifact.status));
    text.push_str(")");
    let ghost head = text@;
    add_line(&mut r, text);
    assert(views(r@) =~= line(head));
    match &artifact.detail {
        Some(detail) => {
            add_line(&mut r, detail.clone());
        },
        None => {
            assert(views(r@) + Seq::<Seq<char>>::empty() =~= views(r@));
        },
    }
    r
}

pub open spec fn artifact_row(
    kind: Seq<char>,
    status: Seq<char>,
    path: Seq<char>,
    detail: Seq<char>,
) -> Seq<char> {
    column(kind, 12) + column(status, 8) + column(path, 32) + detail
}

fn make_artifact_row(kind: &str, status: &str, path: &str, detail: &str) -> (r: String)
    ensures
        r@ == artifact_row(kind@, status@, path@, detail@),
{
    let mut r = empty_row();
    add_column(&mut r, kind, 12);
    assert(r@ =~= column(kind@, 12));
    add_column(&mut r, status, 8);
    add_column(&mut r, path, 32);
    r.push_str(detail);
    r
}

pub open spec fn row_of_artifact(a: ModelArtifact) -> Seq<char> {
    artifact_row(
        kind_name(a.kind),
        artifact_status_name(a.status),
        a.path@,
        match opt_view(a.detail) {
            Some(detail) => detail,
            None => "-"@,
        },
    )
}

/// The list of what was made from a model.
pub open spec fn artifact_list(model: Seq<char>, artifacts: Seq<ModelArtifact>) -> Seq<Seq<char>> {
    if artifacts.len() == 0 {
        line("No artifacts for "@ + model)
    } else {
        line(artifact_row("KIND"@, "STATUS"@, "PATH"@, "DETAIL"@)) + artifacts.map_values(
            |a: ModelArtifact| row_of_artifact(a),
        )
    }
}

pub fn print_artifact_list(model: &str, artifacts: &Vec<ModelArtifact>) -> (r: Vec<String>)
    ensures
        views(r@) == artifact_list(model@, artifacts@),
{
    let mut r = no_lines();
    if artifacts.len() == 0 {
        add_line(&mut r, join2("No artifacts for ", model));
        assert(views(r@) =~= artifact_list(model@, artifacts@));
        return r;
    }
    add_line(&mut r, make_artifact_row("KIND", "STATUS", "PATH", "DETAIL"));
    assert(views(r@) =~= line(artifact_row("KIND"@, "STATUS"@, "PATH"@, "DETAIL"@)));
    let mut rows: Vec<String> = Vec::new();
    let mut i: usize = 0;
    while i < artifacts.len()
        invariant
            i <= artifacts@.len(),
            rows@.len() == i,
            forall|j: int| 0 <= j < i ==> (#[trigger] rows@[j])@ == row_of_artifact(artifacts@[j]),
        decreases artifacts@.len() - i,
    {
        let a = &artifacts[i];
        let detail = match &a.detail {
            Some(detail) => detail.as_str(),
            None => "-",
        };
        rows.push(
            make_artifact_row(
                kind_label(a.kind),
                artifact_status_label(a.status),
                a.path.as_str(),
                detail,
            ),
        );
        i = i + 1;
    }
    assert(views(rows@) =~= artifacts@.map_values(|a: ModelArtifact| row_of_artifact(a)));
    add_lines(&mut r, rows);
    r
}

pub open spec fn has_failed_onnx(artifacts: Seq<ModelArtifact>) -> bool {
    exists|i: int|
        0 <= i < artifacts.len() && (#[trigger] artifacts[i]).kind is Onnx && artifacts[i].status
            is Failed
}

/// What is said of the ONNX files of a model. `ready` is the path of those that
/// can be used.
pub open spec fn artifact_label(m: ModelManifest, ready: Option<Seq<char>>) -> Seq<char> {
    if !(m.format is SafeTensors) {
        "none"@
    } else {
        match ready {
            Some(path) => "onnx ("@ + path + ")"@,
            None => if has_failed_onnx(m.artifacts@) {
                "onnx failed"@
            } else {
                "none"@
            },
        }
    }
}

pub fn artifact_debug_label(manifest: &ModelManifest, ready: Option<&str>) -> (r: String)
    ensures
        r@ == artifact_label(*manifest, crate::text::opt_str_view(ready)),
{
    if manifest.format != ModelFormat::SafeTensors {
        return "none".to_owned();
    }
    if let Some(path) = ready {
        return join3("onnx (", path, ")");
    }
    let artifacts = &manifest.artifacts;
    let mut i: usize = 0;
    while i < artifacts.len()
        invariant
            i <= artifacts@.len(),
            artifacts@ == manifest.artifacts@,
            manifest.format is SafeTensors,
            ready is None,
            forall|j: int|
                0 <= j < i ==> !((#[trigger] artifacts@[j]).kind is Onnx && artifacts@[j].status
                    is Failed),
        decreases artifacts@.len() - i,
    {
        if artifacts[i].kind == ArtifactKind::Onnx && artifacts[i].status
            == ArtifactStatus::Failed {
            assert(artifacts@[i as int].kind is Onnx);
            return "onnx failed".to_owned();
        }
        i = i + 1;
    }
    "none".to_owned()
}

// ---------------------------------------------------------------------------
// What summaries show
// ---------------------------------------------------------------------------

/// The size of a model is that of its files.
pub proof fn model_sizes_add_up(files: Seq<ModelFile>, f: ModelFile)
    ensures
        files_size(Seq::empty()) == 0,
        files_size(files.push(f)) == files_size(files) + f.size,
{
    assert(files.push(f).drop_last() =~= files);
}

/// An artifact is told of models that can have one: the one that is ready, or that it
/// failed.
pub proof fn artifacts_are_ready_or_failed(m: ModelManifest, path: Seq<char>, i: int)
    ensures
        !(m.format is SafeTensors) ==> artifact_label(m, Some(path)) == "none"@ && artifact_label(
            m,
            None,
        ) == "none"@,
        m.format is SafeTensors ==> artifact_label(m, Some(path)) == "onnx ("@ + path + ")"@,
        m.format is SafeTensors && 0 <= i < m.artifacts@.len() && m.artifacts@[i].kind is Onnx
            && m.artifacts@[i].status is Failed ==> artifact_label(m, None) == "onnx failed"@,
        m.artifacts@.len() == 0 ==> artifact_label(m, None) == "none"@,
        kind_name(ArtifactKind::Onnx) == "onnx"@,
        kind_title(ArtifactKind::Onnx) == "Onnx"@,
{
}

/// Every artifact is listed in a row of its own.
pub proof fn artifacts_are_listed(model: Seq<char>, artifacts: Seq<ModelArtifact>, i: int)
    ensures
        artifacts.len() == 0 ==> artifact_list(model, artifacts) == seq!["No artifacts for "@
            + model],
        0 <= i < artifacts.len() ==> artifact_list(model, artifacts).len() == artifacts.len() + 1,
        0 <= i < artifacts.len() ==> {
            let row = artifact_list(model, artifacts)[i + 1];
            &&& column(kind_name(artifacts[i].kind), 12).is_prefix_of(row)
            &&& artifacts[i].detail is Some ==> artifacts[i].detail->0@.is_suffix_of(row)
        },
{
    if 0 <= i < artifacts.len() {
        let row = artifact_list(model, artifacts)[i + 1];
        let a = artifacts[i];
        assert(row == row_of_artifact(a));
        assert(column(kind_name(a.kind), 12) =~= row.take(
            column(kind_name(a.kind), 12).len() as int,
        ));
        if a.detail is Some {
            assert(a.detail->0@ =~= row.skip(row.len() - a.detail->0@.len()));
        }
    }
}

/// A summary tells what was done to which model.
pub proof fn summaries_name_the_model(action: Seq<char>, m: ModelManifest, tasks: Seq<Seq<char>>)
    ensures
        (action + " "@ + m.id@ + " ("@ + format_title(m.format)).is_prefix_of(
            summary_lines(action, m, tasks)[0],
        ),
        ("  components="@ + decimal(m.metadata.components as nat) + " size="@ + bytes_text(
            capped64(files_size(m.files@)),
        )).is_prefix_of(summary_lines(action, m, tasks)[2]),
        m.metadata.quantization is None ==> "none"@.is_suffix_of(
            summary_lines(action, m, tasks)[2],
        ),
        m.metadata.quantization is Some ==> m.metadata.quantization->0@.is_suffix_of(
            summary_lines(action, m, tasks)[2],
        ),
        m.metadata.compatible_runtimes@.len() == 0 ==> summary_lines(action, m, tasks)[3]
            == "  compatible runtimes="@ + "unknown"@,
        summary_lines(action, m, tasks).len() == 4,
{
    let all = summary_lines(action, m, tasks);
    let first = action + " "@ + m.id@ + " ("@ + format_title(m.format);
    assert(first =~= all[0].take(first.len() as int));
    let third = "  components="@ + decimal(m.metadata.components as nat) + " size="@ + bytes_text(
        capped64(files_size(m.files@)),
    );
    assert(third =~= all[2].take(third.len() as int));
    let last = match opt_view(m.metadata.quantization) {
        Some(name) => name,
        None => "none"@,
    };
    assert(last =~= all[2].skip(all[2].len() - last.len()));
}

} // verus!

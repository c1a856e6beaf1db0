//! What is recorded about an installed model.

use vstd::prelude::*;

use crate::text::{holds, lowered, opt_view, str_contains, str_eq_ignore_case, str_lower};

verus! {

#[derive(Clone, Copy, Debug, PartialEq, Eq, Structural)]
pub enum ModelFormat {
    Gguf,
    SafeTensors,
    PyTorch,
    Onnx,
    Mlx,
    TensorRt,
    OpenVino,
    TensorFlow,
    CoreMl,
    Unknown,
}

/// One file of a model, by its path below the model's directory.
#[derive(Clone, Debug)]
pub struct ModelFile {
    pub path: String,
    pub size: u64,
    pub checksum: String,
}

#[derive(Clone, Debug)]
pub enum ModelSource {
    HuggingFace { repo: String },
    LocalPath { path: String },
}

#[derive(Clone, Debug)]
pub enum ModelStorage {
    Managed,
    External { path: String },
}

#[derive(Clone, Copy, Debug, PartialEq, Eq, Structural)]
pub enum ArtifactStatus {
    Ready,
    Failed,
}

/// What a generated artifact is.
#[derive(Clone, Copy, Debug, PartialEq, Eq, Structural)]
pub enum ArtifactKind {
    Onnx,
    Other,
}

/// Something that was generated from a model's files.
#[derive(Clone, Debug)]
pub struct ModelArtifact {
    pub kind: ArtifactKind,
    pub status: ArtifactStatus,
    pub path: String,
    pub detail: Option<String>,
}

#[derive(Clone, Copy, Debug, PartialEq, Eq, Structural)]
pub enum InputModality {
    Text,
    Image,
    Video,
    Audio,
}

#[derive(Clone, Copy, Debug, PartialEq, Eq, Structural)]
pub enum OutputModality {
    Text,
    Image,
    Video,
    Audio,
    Embedding,
}

/// What a model can be asked to do.
#[derive(Clone, Copy, Debug, PartialEq, Eq, Structural)]
pub enum InferenceTask {
    TextGeneration,
    TextEmbedding,
    ImageUnderstanding,
    ImageGeneration,
    ImageEditing,
    ImageVariation,
    ImageInpainting,
    ImageOutpainting,
    ImageUpscaling,
    VideoGeneration,
    ImageToVideo,
    VideoToVideo,
    VideoExtension,
    VideoInpainting,
    VideoUpscaling,
    FrameInterpolation,
    AudioGeneration,
    MusicGeneration,
    SongContinuation,
    SongVariation,
    TextToSpeech,
    SpeechToText,
    SpeechTranslation,
    AudioEventDetection,
    VoiceActivityDetection,
    SpeakerIdentification,
    SpeakerDiarization,
    LanguageIdentification,
    SpeechEmotionRecognition,
    AudioCaptioning,
    AudioClassification,
    AudioUnderstanding,
    AudioEmbedding,
    VoiceConversion,
    StemGeneration,
    StemSeparation,
    AudioEnhancement,
    AudioEditing,
}

#[derive(Clone, Debug)]
pub struct ModelMetadata {
    /// The name of the repository layout.
    pub repository_layout: String,
    pub family: Option<String>,
    pub tasks: Vec<InferenceTask>,
    pub input_modalities: Vec<InputModality>,
    pub output_modalities: Vec<OutputModality>,
    /// How many components the model has.
    pub components: usize,
    pub precision: Option<String>,
    pub quantization: Option<String>,
    pub compatible_runtimes: Vec<String>,
}

#[derive(Clone, Debug)]
pub struct ModelManifest {
    pub id: String,
    pub source: ModelSource,
    pub storage: ModelStorage,
    pub format: ModelFormat,
    pub architecture: Option<String>,
    pub tokenizer_path: Option<String>,
    pub config_path: Option<String>,
    pub model_path: Option<String>,
    /// The name of the backend that the model was recorded for.
    pub backend: String,
    pub created_unix: u64,
    pub files: Vec<ModelFile>,
    pub artifacts: Vec<ModelArtifact>,
    pub metadata: ModelMetadata,
}

/// The first file with this path.
pub open spec fn file_at(files: Seq<ModelFile>, path: Seq<char>) -> Option<int>
    decreases files.len(),
{
    if files.len() == 0 {
        None
    } else {
        match file_at(files.drop_last(), path) {
            Some(i) => Some(i),
            None => if files.last().path@ == path {
                Some(files.len() - 1)
            } else {
                None
            },
        }
    }
}

pub proof fn lemma_file_at(files: Seq<ModelFile>, path: Seq<char>, i: int)
    requires
        0 <= i < files.len(),
        files[i].path@ == path,
        forall|j: int| 0 <= j < i ==> (#[trigger] files[j]).path@ != path,
    ensures
        file_at(files, path) == Some(i),
    decreases files.len(),
{
    if i < files.len() - 1 {
        lemma_file_at(files.drop_last(), path, i);
    } else {
        lemma_file_at_none(files.drop_last(), path);
    }
}

pub proof fn lemma_file_at_none(files: Seq<ModelFile>, path: Seq<char>)
    requires
        forall|j: int| 0 <= j < files.len() ==> (#[trigger] files[j]).path@ != path,
    ensures
        file_at(files, path) is None,
    decreases files.len(),
{
    if files.len() > 0 {
        lemma_file_at_none(files.drop_last(), path);
    }
}

/// The index of the first file with this path.
pub fn find_file(files: &Vec<ModelFile>, path: &str) -> (r: Option<usize>)
    ensures
        match r {
            Some(i) => i < files@.len() && file_at(files@, path@) == Some(i as int)
                && files@[i as int].path@ == path@,
            None => file_at(files@, path@) is None,
        },
{
    let mut i: usize = 0;
    while i < files.len()
        invariant
            i <= files@.len(),
            forall|j: int| 0 <= j < i ==> (#[trigger] files@[j]).path@ != path@,
        decreases files@.len() - i,
    {
        if crate::text::str_eq(files[i].path.as_str(), path) {
            proof {
                lemma_file_at(files@, path@, i as int);
            }
            return Some(i);
        }
        i = i + 1;
    }
    proof {
        lemma_file_at_none(files@, path@);
    }
    None
}

/// The lower-case name of a format.
pub open spec fn format_name(format: ModelFormat) -> Seq<char> {
    match format {
        ModelFormat::Gguf => "gguf"@,
        ModelFormat::SafeTensors => "safetensors"@,
        ModelFormat::PyTorch => "pytorch"@,
        ModelFormat::Onnx => "onnx"@,
        ModelFormat::Mlx => "mlx"@,
        ModelFormat::TensorRt => "tensorrt"@,
        ModelFormat::OpenVino => "openvino"@,
        ModelFormat::TensorFlow => "tensorflow"@,
        ModelFormat::CoreMl => "coreml"@,
        ModelFormat::Unknown => "unknown"@,
    }
}

pub fn format_label(format: ModelFormat) -> (r: &'static str)
    ensures
        r@ == format_name(format),
{
    match format {
        ModelFormat::Gguf => "gguf",
        ModelFormat::SafeTensors => "safetensors",
        ModelFormat::PyTorch => "pytorch",
        ModelFormat::Onnx => "onnx",
        ModelFormat::Mlx => "mlx",
        ModelFormat::TensorRt => "tensorrt",
        ModelFormat::OpenVino => "openvino",
        ModelFormat::TensorFlow => "tensorflow",
        ModelFormat::CoreMl => "coreml",
        ModelFormat::Unknown => "unknown",
    }
}

pub open spec fn artifact_status_name(status: ArtifactStatus) -> Seq<char> {
    match status {
        ArtifactStatus::Ready => "ready"@,
        ArtifactStatus::Failed => "failed"@,
    }
}

pub fn artifact_status_label(status: ArtifactStatus) -> (r: &'static str)
    ensures
        r@ == artifact_status_name(status),
{
    match status {
        ArtifactStatus::Ready => "ready",
        ArtifactStatus::Failed => "failed",
    }
}

// ---------------------------------------------------------------------------
// Filtering the list of models
// ---------------------------------------------------------------------------

/// The conditions of a listing; a missing one holds of every model.
#[derive(Clone, Debug)]
pub struct ListFilters {
    pub task: Option<InferenceTask>,
    pub input: Option<InputModality>,
    pub output: Option<OutputModality>,
    pub family: Option<String>,
    pub layout: Option<String>,
    pub backend: Option<String>,
}

pub open spec fn same_ignoring_case(a: Option<Seq<char>>, b: Seq<char>) -> bool {
    match a {
        Some(a) => lowered(a) == lowered(b),
        None => false,
    }
}

/// One of the names holds `part`, up to ASCII case.
pub open spec fn some_name_holds(names: Seq<String>, part: Seq<char>) -> bool {
    exists|i: int| 0 <= i < names.len() && holds(lowered((#[trigger] names[i])@), lowered(part))
}

pub open spec fn matches_filters(m: ModelManifest, f: ListFilters) -> bool {
    &&& f.task matches Some(task) ==> m.metadata.tasks@.contains(task)
    &&& f.input matches Some(input) ==> m.metadata.input_modalities@.contains(input)
    &&& f.output matches Some(output) ==> m.metadata.output_modalities@.contains(output)
    &&& f.family matches Some(family) ==> same_ignoring_case(opt_view(m.metadata.family), family@)
    &&& f.layout matches Some(layout) ==> m.metadata.repository_layout@ == layout@
    &&& f.backend matches Some(backend) ==> lowered(m.backend@) == lowered(
        backend@,
    ) || some_name_holds(m.metadata.compatible_runtimes@, backend@)
}

pub fn has_task(tasks: &Vec<InferenceTask>, task: InferenceTask) -> (r: bool)
    ensures
        r == tasks@.contains(task),
{
    let mut i: usize = 0;
    while i < tasks.len()
        invariant
            i <= tasks@.len(),
            forall|j: int| 0 <= j < i ==> tasks@[j] != task,
        decreases tasks@.len() - i,
    {
        if tasks[i] == task {
            assert(tasks@[i as int] == task);
            return true;
        }
        i = i + 1;
    }
    false
}

fn has_input(modalities: &Vec<InputModality>, modality: InputModality) -> (r: bool)
    ensures
        r == modalities@.contains(modality),
{
    let mut i: usize = 0;
    while i < modalities.len()
        invariant
            i <= modalities@.len(),
            forall|j: int| 0 <= j < i ==> modalities@[j] != modality,
        decreases modalities@.len() - i,
    {
        if modalities[i] == modality {
            assert(modalities@[i as int] == modality);
            return true;
        }
        i = i + 1;
    }
    false
}

fn has_output(modalities: &Vec<OutputModality>, modality: OutputModality) -> (r: bool)
    ensures
        r == modalities@.contains(modality),
{
    let mut i: usize = 0;
    while i < modalities.len()
        invariant
            i <= modalities@.len(),
            forall|j: int| 0 <= j < i ==> modalities@[j] != modality,
        decreases modalities@.len() - i,
    {
        if modalities[i] == modality {
            assert(modalities@[i as int] == modality);
            return true;
        }
        i = i + 1;
    }
    false
}

fn any_name_holds(names: &Vec<String>, part: &str) -> (r: bool)
    ensures
        r == some_name_holds(names@, part@),
{
    let part_lower = str_lower(part);
    let mut i: usize = 0;
    while i < names.len()
        invariant
            i <= names@.len(),
            part_lower@ == lowered(part@),
            forall|j: int|
                0 <= j < i ==> !holds(lowered((#[trigger] names@[j])@), lowered(part@)),
        decreases names@.len() - i,
    {
        let name = str_lower(names[i].as_str());
        if str_contains(name.as_str(), part_lower.as_str()) {
            assert(holds(lowered(names@[i as int]@), lowered(part@)));
            return true;
        }
        i = i + 1;
    }
    false
}

fn opt_eq_ignore_case(a: &Option<String>, b: &str) -> (r: bool)
    ensures
        r == same_ignoring_case(opt_view(*a), b@),
{
    match a {
        Some(a) => str_eq_ignore_case(a.as_str(), b),
        None => false,
    }
}

/// Whether a model meets every condition of a listing.
pub fn manifest_matches_list_filters(manifest: &ModelManifest, filters: &ListFilters) -> (r: bool)
    ensures
        r == matches_filters(*manifest, *filters),
{
    let task = match filters.task {
        Some(task) => has_task(&manifest.metadata.tasks, task),
        None => true,
    };
    let input = match filters.input {
        Some(input) => has_input(&manifest.metadata.input_modalities, input),
        None => true,
    };
    let output = match filters.output {
        Some(output) => has_output(&manifest.metadata.output_modalities, output),
        None => true,
    };
    let family = match &filters.family {
        Some(family) => opt_eq_ignore_case(&manifest.metadata.family, family.as_str()),
        None => true,
    };
    let layout = match &filters.layout {
        Some(layout) => crate::text::str_eq(
            manifest.metadata.repository_layout.as_str(),
            layout.as_str(),
        ),
        None => true,
    };
    let backend = match &filters.backend {
        Some(backend) => str_eq_ignore_case(manifest.backend.as_str(), backend.as_str())
            || any_name_holds(&manifest.metadata.compatible_runtimes, backend.as_str()),
        None => true,
    };
    task && input && output && family && layout && backend
}

// ---------------------------------------------------------------------------
// What a listing is for
// ---------------------------------------------------------------------------

/// Filters that leave nothing out.
pub open spec fn open_filters() -> ListFilters {
    ListFilters { task: None, input: None, output: None, family: None, layout: None, backend: None }
}

/// A model is listed exactly where it meets each filter on its own, and without filters
/// every model is.
pub proof fn filters_narrow_one_by_one(m: ModelManifest, f: ListFilters)
    ensures
        matches_filters(m, open_filters()),
        matches_filters(m, f) <==> matches_filters(m, ListFilters { task: f.task, ..open_filters() })
            && matches_filters(m, ListFilters { input: f.input, ..open_filters() })
            && matches_filters(m, ListFilters { output: f.output, ..open_filters() })
            && matches_filters(m, ListFilters { family: f.family, ..open_filters() })
            && matches_filters(m, ListFilters { layout: f.layout, ..open_filters() })
            && matches_filters(m, ListFilters { backend: f.backend, ..open_filters() }),
{
}

/// A filter lists the models that have what it names, and leaves out the others.
pub proof fn filters_list_what_they_name(
    m: ModelManifest,
    task: InferenceTask,
    input: InputModality,
    output: OutputModality,
    name: String,
)
    ensures
        matches_filters(m, ListFilters { task: Some(task), ..open_filters() }) <==> exists|i: int|
            0 <= i < m.metadata.tasks@.len() && m.metadata.tasks@[i] == task,
        matches_filters(m, ListFilters { input: Some(input), ..open_filters() }) <==> exists|i: int|
            0 <= i < m.metadata.input_modalities@.len() && m.metadata.input_modalities@[i] == input,
        matches_filters(m, ListFilters { output: Some(output), ..open_filters() })
            <==> exists|i: int|
            0 <= i < m.metadata.output_modalities@.len() && m.metadata.output_modalities@[i]
                == output,
        matches_filters(m, ListFilters { layout: Some(name), ..open_filters() })
            <==> m.metadata.repository_layout@ == name@,
        matches_filters(m, ListFilters { family: Some(name), ..open_filters() }) <==> (
        m.metadata.family matches Some(family) && lowered(family@) == lowered(name@)),
        lowered(m.backend@) == lowered(name@) ==> matches_filters(
            m,
            ListFilters { backend: Some(name), ..open_filters() },
        ),
        m.metadata.compatible_runtimes@.len() == 0 && lowered(m.backend@) != lowered(name@)
            ==> !matches_filters(m, ListFilters { backend: Some(name), ..open_filters() }),
{
}

/// A model is also listed under a backend that stands in the name of a runtime that can
/// run it, up to case.
pub proof fn runtimes_count_as_backends(m: ModelManifest, name: String, i: int)
    requires
        0 <= i < m.metadata.compatible_runtimes@.len(),
        holds(lowered(m.metadata.compatible_runtimes@[i]@), lowered(name@)),
    ensures
        matches_filters(m, ListFilters { backend: Some(name), ..open_filters() }),
{
    assert(some_name_holds(m.metadata.compatible_runtimes@, name@));
}

/// A format goes by its title in small letters, and an artifact is ready or failed.
pub proof fn formats_have_their_names(format: ModelFormat)
    ensures
        format_name(format) == lowered(crate::backend::format_title(format)),
        artifact_status_name(ArtifactStatus::Ready) == "ready"@,
        artifact_status_name(ArtifactStatus::Failed) == "failed"@,
{
    reveal_strlit("Gguf");
    reveal_strlit("gguf");
    assert("gguf"@ =~= lowered("Gguf"@));
    reveal_strlit("SafeTensors");
    reveal_strlit("safetensors");
    assert("safetensors"@ =~= lowered("SafeTensors"@));
    reveal_strlit("PyTorch");
    reveal_strlit("pytorch");
    assert("pytorch"@ =~= lowered("PyTorch"@));
    reveal_strlit("Onnx");
    reveal_strlit("onnx");
    assert("onnx"@ =~= lowered("Onnx"@));
    reveal_strlit("Mlx");
    reveal_strlit("mlx");
    assert("mlx"@ =~= lowered("Mlx"@));
    reveal_strlit("TensorRt");
    reveal_strlit("tensorrt");
    assert("tensorrt"@ =~= lowered("TensorRt"@));
    reveal_strlit("OpenVino");
    reveal_strlit("openvino");
    assert("openvino"@ =~= lowered("OpenVino"@));
    reveal_strlit("TensorFlow");
    reveal_strlit("tensorflow");
    assert("tensorflow"@ =~= lowered("TensorFlow"@));
    reveal_strlit("CoreMl");
    reveal_strlit("coreml");
    assert("coreml"@ =~= lowered("CoreMl"@));
    reveal_strlit("Unknown");
    reveal_strlit("unknown");
    assert("unknown"@ =~= lowered("Unknown"@));
}

} // verus!

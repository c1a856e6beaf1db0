//! What the media commands ask for: a task, its texts, its inputs, and where it
//! is run.

use vstd::prelude::*;

use crate::args::{
    backend_arg_name, device_arg_label, device_name, requested_backend_label, BackendArg, DeviceArg,
};
use crate::images::{is_web_address, str_is_web_address};
use crate::manifest::{has_task, InferenceTask, InputModality, ModelManifest};
use crate::text::{
    chars_of, clone_opt, first_occurrence, join3, join5, lowered, opt_str_view, opt_view, owned_opt,
    str_eq_ignore_case, str_find, str_starts_with, str_strip_prefix, str_trim, string_between,
    trimmed, without_prefix,
};

verus! {

// ---------------------------------------------------------------------------
// Inputs
// ---------------------------------------------------------------------------

/// Where an input comes from.
#[derive(Debug)]
pub enum InferenceInputSource {
    Url { url: String },
    Base64 { data: String },
    Path { path: String },
    Text { text: String },
}

#[derive(Debug)]
pub struct InferenceInput {
    pub modality: InputModality,
    pub role: String,
    pub source: InferenceInputSource,
    pub mime_type: Option<String>,
}

pub ghost enum SourceView {
    Url(Seq<char>),
    Base64(Seq<char>),
    Path(Seq<char>),
    Text(Seq<char>),
}

pub ghost struct InputView {
    pub modality: InputModality,
    pub role: Seq<char>,
    pub source: SourceView,
    pub mime_type: Option<Seq<char>>,
}

impl InferenceInputSource {
    pub open spec fn view(&self) -> SourceView {
        match self {
            InferenceInputSource::Url { url } => SourceView::Url(url@),
            InferenceInputSource::Base64 { data } => SourceView::Base64(data@),
            InferenceInputSource::Path { path } => SourceView::Path(path@),
            InferenceInputSource::Text { text } => SourceView::Text(text@),
        }
    }
}

impl InferenceInput {
    pub open spec fn view(&self) -> InputView {
        InputView {
            modality: self.modality,
            role: self.role@,
            source: self.source@,
            mime_type: opt_view(self.mime_type),
        }
    }
}

pub open spec fn input_views(inputs: Seq<InferenceInput>) -> Seq<InputView> {
    inputs.map_values(|i: InferenceInput| i@)
}

/// An input from what was written: an address, a data URL, or else a path.
pub open spec fn written_input(modality: InputModality, role: Seq<char>, value: Seq<char>) -> InputView {
    let mark = ";base64,"@;
    if is_web_address(value) {
        InputView { modality, role, source: SourceView::Url(value), mime_type: None }
    } else {
        match first_occurrence(value, mark) {
            Some(at) => if "data:"@.is_prefix_of(value) {
                InputView {
                    modality,
                    role,
                    source: SourceView::Base64(value.skip(at + mark.len())),
                    mime_type: without_prefix(value.take(at), "data:"@),
                }
            } else {
                InputView { modality, role, source: SourceView::Path(value), mime_type: None }
            },
            None => InputView { modality, role, source: SourceView::Path(value), mime_type: None },
        }
    }
}

pub fn string_input(modality: InputModality, role: &str, value: &str) -> (r: InferenceInput)
    ensures
        r@ == written_input(modality, role@, value@),
{
    if str_is_web_address(value) {
        return InferenceInput {
            modality,
            role: role.to_owned(),
            source: InferenceInputSource::Url { url: value.to_owned() },
            mime_type: None,
        };
    }
    if str_starts_with(value, "data:") {
        if let Some(at) = str_find(value, ";base64,") {
            proof {
                reveal_strlit(";base64,");
            }
            let chars = chars_of(value);
            let n: usize = chars.len();
            let header = string_between(&chars, 0, at);
            let data = string_between(&chars, at + 8, n);
            assert(header@ =~= value@.take(at as int));
            assert(data@ =~= value@.skip(at + 8));
            return InferenceInput {
                modality,
                role: role.to_owned(),
                source: InferenceInputSource::Base64 { data },
                mime_type: str_strip_prefix(header.as_str(), "data:"),
            };
        }
    }
    InferenceInput {
        modality,
        role: role.to_owned(),
        source: InferenceInputSource::Path { path: value.to_owned() },
        mime_type: None,
    }
}

/// An input from a path; paths that read as addresses are addresses.
pub fn path_input(modality: InputModality, role: &str, path: &str) -> (r: InferenceInput)
    ensures
        r@ == written_input(modality, role@, path@),
{
    string_input(modality, role, path)
}

// ---------------------------------------------------------------------------
// Texts
// ---------------------------------------------------------------------------

/// A text without the space around it, where anything is left.
pub open spec fn said(text: Option<Seq<char>>) -> Option<Seq<char>> {
    match text {
        Some(text) => if trimmed(text).len() > 0 {
            Some(trimmed(text))
        } else {
            None
        },
        None => None,
    }
}

fn said_text(text: Option<&str>) -> (r: Option<String>)
    ensures
        opt_view(r) == said(opt_str_view(text)),
{
    match text {
        Some(text) => {
            let text = str_trim(text);
            if text.as_str().unicode_len() > 0 {
                Some(text)
            } else {
                None
            }
        },
        None => None,
    }
}

/// Where a text is looked for next.
#[derive(Clone, Copy, Debug, PartialEq, Eq, Structural)]
pub enum TextNeed {
    /// It is there, or nothing is left to look at.
    Settled,
    /// The file that was named.
    File,
    /// Standard input, which is no terminal.
    Pipe,
    /// The user is asked.
    Question,
}

/// Where the main text of a request is looked for: what was given, then a file,
/// then a pipe, then, for a text that is required, the user. `file` and `input`
/// are what was read so far.
pub open spec fn text_need(
    explicit: Option<Seq<char>>,
    file_named: bool,
    file: Option<Seq<char>>,
    input: Option<Seq<char>>,
    on_terminal: bool,
    required: bool,
) -> TextNeed {
    if said(explicit) is Some {
        TextNeed::Settled
    } else if file_named && file is None {
        TextNeed::File
    } else if said(file) is Some || input is Some {
        TextNeed::Settled
    } else if !on_terminal {
        TextNeed::Pipe
    } else if required {
        TextNeed::Question
    } else {
        TextNeed::Settled
    }
}

pub fn primary_text_need(
    explicit: Option<&str>,
    file_named: bool,
    file: Option<&str>,
    input: Option<&str>,
    on_terminal: bool,
    required: bool,
) -> (r: TextNeed)
    ensures
        r == text_need(
            opt_str_view(explicit),
            file_named,
            opt_str_view(file),
            opt_str_view(input),
            on_terminal,
            required,
        ),
{
    if said_text(explicit).is_some() {
        TextNeed::Settled
    } else if file_named && file.is_none() {
        TextNeed::File
    } else if said_text(file).is_some() || input.is_some() {
        TextNeed::Settled
    } else if !on_terminal {
        TextNeed::Pipe
    } else if required {
        TextNeed::Question
    } else {
        TextNeed::Settled
    }
}

/// The main text: the first of the three that says something.
pub open spec fn primary_text(
    explicit: Option<Seq<char>>,
    file: Option<Seq<char>>,
    input: Option<Seq<char>>,
) -> Option<Seq<char>> {
    if said(explicit) is Some {
        said(explicit)
    } else if said(file) is Some {
        said(file)
    } else {
        said(input)
    }
}

pub open spec fn missing_text(label: Seq<char>) -> Seq<char> {
    label + " is required; pass --"@ + label + ", --"@ + label
        + "-file, pipe stdin, or enter it interactively"@
}

pub fn resolve_primary_text(
    explicit: Option<&str>,
    file: Option<&str>,
    input: Option<&str>,
    required: bool,
    label: &str,
) -> (r: Result<Option<String>, String>)
    ensures
        ({
            let text = primary_text(
                opt_str_view(explicit),
                opt_str_view(file),
                opt_str_view(input),
            );
            match r {
                Ok(found) => opt_view(found) == text && (text is Some || !required),
                Err(message) => text is None && required && message@ == missing_text(label@),
            }
        }),
{
    if let Some(text) = said_text(explicit) {
        return Ok(Some(text));
    }
    if let Some(text) = said_text(file) {
        return Ok(Some(text));
    }
    if let Some(text) = said_text(input) {
        return Ok(Some(text));
    }
    if required {
        let mut message = join5(label, " is required; pass --", label, ", --", label);
        message.push_str("-file, pipe stdin, or enter it interactively");
        return Err(message);
    }
    Ok(None)
}

/// Once a text was found nothing more is looked for, and what else could be read
/// would change nothing.
pub proof fn settled_texts_are_final(
    explicit: Option<Seq<char>>,
    file_named: bool,
    file: Option<Seq<char>>,
    more: Option<Seq<char>>,
    on_terminal: bool,
    required: bool,
)
    requires
        said(explicit) is Some || said(file) is Some,
    ensures
        text_need(explicit, file_named, file, None, on_terminal, required) is Settled,
        primary_text(explicit, file, more) == primary_text(explicit, file, None),
{
}

/// A further text: what was given, even if it says nothing, or else the file.
pub open spec fn optional_text(explicit: Option<Seq<char>>, file: Option<Seq<char>>) -> Option<
    Seq<char>,
> {
    if explicit is Some {
        said(explicit)
    } else {
        said(file)
    }
}

pub fn resolve_optional_text(explicit: Option<&str>, file: Option<&str>) -> (r: Option<String>)
    ensures
        opt_view(r) == optional_text(opt_str_view(explicit), opt_str_view(file)),
{
    if explicit.is_some() {
        said_text(explicit)
    } else {
        said_text(file)
    }
}

// ---------------------------------------------------------------------------
// Commands
// ---------------------------------------------------------------------------

/// A task and its inputs.
#[derive(Debug)]
pub struct MediaPlan {
    pub task: InferenceTask,
    pub inputs: Vec<InferenceInput>,
}

/// Whether a command takes a prompt.
#[derive(Clone, Copy, Debug, PartialEq, Eq, Structural)]
pub enum PromptRule {
    /// It is read, and asked for where there is none.
    Required,
    /// It is read, also from what is piped in, and may be missing.
    Optional,
    /// Only what was given outright or in a file counts.
    WhereGiven,
    Unused,
}

#[derive(Debug)]
pub enum ImageCommand {
    Generate { init_image: Option<String>, mask: Option<String> },
    Edit { image: String, mask: Option<String> },
    Upscale { image: String },
}

pub open spec fn opt_input(
    modality: InputModality,
    role: Seq<char>,
    value: Option<Seq<char>>,
) -> Seq<InputView> {
    match value {
        Some(value) => seq![written_input(modality, role, value)],
        None => Seq::empty(),
    }
}

pub open spec fn one_input(modality: InputModality, role: Seq<char>, value: Seq<char>) -> Seq<
    InputView,
> {
    seq![written_input(modality, role, value)]
}

fn add_input(
    inputs: &mut Vec<InferenceInput>,
    modality: InputModality,
    role: &str,
    value: &Option<String>,
)
    ensures
        input_views(final(inputs)@) == input_views(old(inputs)@) + opt_input(
            modality,
            role@,
            opt_view(*value),
        ),
{
    let ghost before = inputs@;
    if let Some(value) = value {
        inputs.push(path_input(modality, role, value.as_str()));
    }
    assert(input_views(inputs@) =~= input_views(before) + opt_input(
        modality,
        role@,
        opt_view(*value),
    ));
}

fn single_input(modality: InputModality, role: &str, value: &str) -> (r: Vec<InferenceInput>)
    ensures
        input_views(r@) == one_input(modality, role@, value@),
{
    let mut r: Vec<InferenceInput> = Vec::new();
    r.push(path_input(modality, role, value));
    assert(input_views(r@) =~= one_input(modality, role@, value@));
    r
}

fn no_inputs() -> (r: Vec<InferenceInput>)
    ensures
        input_views(r@) == Seq::<InputView>::empty(),
{
    let r: Vec<InferenceInput> = Vec::new();
    assert(input_views(r@) =~= Seq::<InputView>::empty());
    r
}

pub open spec fn image_task(command: ImageCommand) -> InferenceTask {
    match command {
        ImageCommand::Generate { init_image, mask } => if mask is Some {
            InferenceTask::ImageInpainting
        } else if init_image is Some {
            InferenceTask::ImageEditing
        } else {
            InferenceTask::ImageGeneration
        },
        ImageCommand::Edit { image, mask } => if mask is Some {
            InferenceTask::ImageInpainting
        } else {
            InferenceTask::ImageEditing
        },
        ImageCommand::Upscale { .. } => InferenceTask::ImageUpscaling,
    }
}

pub open spec fn image_inputs(command: ImageCommand) -> Seq<InputView> {
    let image_kind = InputModality::Image;
    match command {
        ImageCommand::Generate { init_image, mask } => opt_input(
            image_kind,
            "image"@,
            opt_view(init_image),
        ) + opt_input(image_kind, "mask_image"@, opt_view(mask)),
        ImageCommand::Edit { image, mask } => one_input(image_kind, "image"@, image@) + opt_input(
            image_kind,
            "mask_image"@,
            opt_view(mask),
        ),
        ImageCommand::Upscale { image } => one_input(image_kind, "image"@, image@),
    }
}

/// What an image command asks for. A mask of an image that is not there is
/// refused.
pub fn run_image_command(command: &ImageCommand) -> (r: Result<MediaPlan, String>)
    ensures
        match r {
            Ok(plan) => plan.task == image_task(*command) && input_views(plan.inputs@)
                == image_inputs(*command),
            Err(message) => message@ == "--mask requires --init-image for image generation"@,
        },
        r is Err <==> (*command matches ImageCommand::Generate { init_image, mask } && mask is Some
            && init_image is None),
{
    match command {
        ImageCommand::Generate { init_image, mask } => {
            if mask.is_some() && init_image.is_none() {
                return Err("--mask requires --init-image for image generation".to_owned());
            }
            let task = if mask.is_some() {
                InferenceTask::ImageInpainting
            } else if init_image.is_some() {
                InferenceTask::ImageEditing
            } else {
                InferenceTask::ImageGeneration
            };
            let mut inputs = no_inputs();
            add_input(&mut inputs, InputModality::Image, "image", init_image);
            add_input(&mut inputs, InputModality::Image, "mask_image", mask);
            assert(input_views(inputs@) =~= image_inputs(*command));
            Ok(MediaPlan { task, inputs })
        },
        ImageCommand::Edit { image, mask } => {
            let task = if mask.is_some() {
                InferenceTask::ImageInpainting
            } else {
                InferenceTask::ImageEditing
            };
            let mut inputs = single_input(InputModality::Image, "image", image.as_str());
            add_input(&mut inputs, InputModality::Image, "mask_image", mask);
            Ok(MediaPlan { task, inputs })
        },
        ImageCommand::Upscale { image } => Ok(
            MediaPlan {
                task: InferenceTask::ImageUpscaling,
                inputs: single_input(InputModality::Image, "image", image.as_str()),
            },
        ),
    }
}

pub fn image_prompt_rule(command: &ImageCommand) -> (r: PromptRule)
    ensures
        r == if *command is Upscale {
            PromptRule::Optional
        } else {
            PromptRule::Required
        },
{
    match command {
        ImageCommand::Upscale { .. } => PromptRule::Optional,
        _ => PromptRule::Required,
    }
}

#[derive(Debug)]
pub enum VideoCommand {
    Generate { initial_image: Option<String> },
    Animate { image: String },
    Transform { video: String },
    Upscale { source: String },
}

pub open spec fn video_task(command: VideoCommand) -> InferenceTask {
    match command {
        VideoCommand::Generate { initial_image } => if initial_image is Some {
            InferenceTask::ImageToVideo
        } else {
            InferenceTask::VideoGeneration
        },
        VideoCommand::Animate { .. } => InferenceTask::ImageToVideo,
        VideoCommand::Transform { .. } => InferenceTask::VideoToVideo,
        VideoCommand::Upscale { .. } => InferenceTask::VideoUpscaling,
    }
}

pub open spec fn video_inputs(command: VideoCommand) -> Seq<InputView> {
    match command {
        VideoCommand::Generate { initial_image } => opt_input(
            InputModality::Image,
            "initial_image"@,
            opt_view(initial_image),
        ),
        VideoCommand::Animate { image } => one_input(
            InputModality::Image,
            "initial_image"@,
            image@,
        ),
        VideoCommand::Transform { video } => one_input(
            InputModality::Video,
            "source_video"@,
            video@,
        ),
        VideoCommand::Upscale { source } => one_input(
            InputModality::Video,
            "source_video"@,
            source@,
        ),
    }
}

/// What a video command asks for.
pub fn run_video_command(command: &VideoCommand) -> (r: MediaPlan)
    ensures
        r.task == video_task(*command),
        input_views(r.inputs@) == video_inputs(*command),
{
    match command {
        VideoCommand::Generate { initial_image } => {
            let task = if initial_image.is_some() {
                InferenceTask::ImageToVideo
            } else {
                InferenceTask::VideoGeneration
            };
            let mut inputs = no_inputs();
            add_input(&mut inputs, InputModality::Image, "initial_image", initial_image);
            assert(input_views(inputs@) =~= video_inputs(*command));
            MediaPlan { task, inputs }
        },
        VideoCommand::Animate { image } => MediaPlan {
            task: InferenceTask::ImageToVideo,
            inputs: single_input(InputModality::Image, "initial_image", image.as_str()),
        },
        VideoCommand::Transform { video } => MediaPlan {
            task: InferenceTask::VideoToVideo,
            inputs: single_input(InputModality::Video, "source_video", video.as_str()),
        },
        VideoCommand::Upscale { source } => MediaPlan {
            task: InferenceTask::VideoUpscaling,
            inputs: single_input(InputModality::Video, "source_video", source.as_str()),
        },
    }
}

pub fn video_prompt_rule(command: &VideoCommand) -> (r: PromptRule)
    ensures
        r == if *command is Upscale {
            PromptRule::Unused
        } else {
            PromptRule::Required
        },
{
    match command {
        VideoCommand::Upscale { .. } => PromptRule::Unused,
        _ => PromptRule::Required,
    }
}

/// The recordings that guide the making of another.
#[derive(Debug)]
pub struct AudioConditioning {
    pub source_audio: Option<String>,
    pub reference_audio: Option<String>,
    pub instrumental_audio: Option<String>,
    pub vocal_audio: Option<String>,
    pub melody_audio: Option<String>,
    pub rhythm_audio: Option<String>,
    pub chord_audio: Option<String>,
    /// A start or a length was given for a continuation.
    pub continues: bool,
}

#[derive(Clone, Copy, Debug, PartialEq, Eq, Structural)]
pub enum SpeechToTextTask {
    Transcribe,
    Translate,
}

#[derive(Debug)]
pub enum AudioCommand {
    GenerateSpeech,
    GenerateMusic { conditioning: AudioConditioning },
    GenerateSound { conditioning: AudioConditioning },
    /// Without saying what; the model decides.
    GenerateAny { model_named: bool, conditioning: AudioConditioning },
    Speak,
    Transcribe { input_audio: String, operation: Option<SpeechToTextTask> },
    Translate { input_audio: String, operation: Option<SpeechToTextTask> },
    DetectEvent { input_audio: String },
    DetectVoice { input_audio: String },
    DetectSpeaker { input_audio: String },
    DetectLanguage { input_audio: String },
    DetectEmotion { input_audio: String },
    AnalyzeCaption { input_audio: String },
    AnalyzeDiarize { input_audio: String },
    AnalyzeClassify { input_audio: String },
    AnalyzeUnderstand { input_audio: String },
    TransformVoice { input_audio: String, reference_audio: Option<String> },
    TransformSeparate { input_audio: String },
    TransformEnhance { input_audio: String },
    TransformEdit { input_audio: String },
    Embed { input_audio: String },
    Separate { input_audio: String },
}

/// What making a sound without saying what comes to. A source is continued where
/// a continuation was asked for, else varied, else continued, as far as the
/// model can; without a source the model makes music if it can.
pub open spec fn any_audio_task(
    tasks: Option<Seq<InferenceTask>>,
    has_source: bool,
    continues: bool,
) -> InferenceTask {
    match tasks {
        None => InferenceTask::AudioGeneration,
        Some(tasks) => if has_source && continues && tasks.contains(
            InferenceTask::SongContinuation,
        ) {
            InferenceTask::SongContinuation
        } else if has_source && tasks.contains(InferenceTask::SongVariation) {
            InferenceTask::SongVariation
        } else if has_source && tasks.contains(InferenceTask::SongContinuation) {
            InferenceTask::SongContinuation
        } else if tasks.contains(InferenceTask::MusicGeneration) {
            InferenceTask::MusicGeneration
        } else {
            InferenceTask::AudioGeneration
        },
    }
}

pub open spec fn model_tasks(manifest: Option<&ModelManifest>) -> Option<Seq<InferenceTask>> {
    match manifest {
        Some(manifest) => Some(manifest.metadata.tasks@),
        None => None,
    }
}

/// The task of a model that is installed, or of one that is not.
pub fn legacy_audio_generation_task(
    manifest: Option<&ModelManifest>,
    conditioning: &AudioConditioning,
) -> (r: InferenceTask)
    ensures
        r == any_audio_task(
            model_tasks(manifest),
            conditioning.source_audio is Some,
            conditioning.continues,
        ),
{
    let manifest = match manifest {
        Some(manifest) => manifest,
        None => {
            return InferenceTask::AudioGeneration;
        },
    };
    let has_source = conditioning.source_audio.is_some();
    let tasks = &manifest.metadata.tasks;
    if has_source && conditioning.continues && has_task(tasks, InferenceTask::SongContinuation) {
        InferenceTask::SongContinuation
    } else if has_source && has_task(tasks, InferenceTask::SongVariation) {
        InferenceTask::SongVariation
    } else if has_source && has_task(tasks, InferenceTask::SongContinuation) {
        InferenceTask::SongContinuation
    } else if has_task(tasks, InferenceTask::MusicGeneration) {
        InferenceTask::MusicGeneration
    } else {
        InferenceTask::AudioGeneration
    }
}

/// The task of a transcription, and the operation that goes along as a
/// parameter. A translation cannot be asked to transcribe.
pub fn prepare_audio_transcription_task(operation: Option<SpeechToTextTask>, translate: bool) -> (r:
    Result<(InferenceTask, Option<SpeechToTextTask>), String>)
    ensures
        match r {
            Ok((task, after)) => {
                &&& task == if translate || operation == Some(SpeechToTextTask::Translate) {
                    InferenceTask::SpeechTranslation
                } else {
                    InferenceTask::SpeechToText
                }
                &&& after == if translate {
                    Some(SpeechToTextTask::Translate)
                } else {
                    operation
                }
            },
            Err(message) => message@ == "audio translate conflicts with --task transcribe"@,
        },
        r is Err <==> translate && operation == Some(SpeechToTextTask::Transcribe),
{
    if translate {
        if operation == Some(SpeechToTextTask::Transcribe) {
            return Err("audio translate conflicts with --task transcribe".to_owned());
        }
        Ok((InferenceTask::SpeechTranslation, Some(SpeechToTextTask::Translate)))
    } else if operation == Some(SpeechToTextTask::Translate) {
        Ok((InferenceTask::SpeechTranslation, operation))
    } else {
        Ok((InferenceTask::SpeechToText, operation))
    }
}

pub open spec fn conditioning_inputs(c: AudioConditioning) -> Seq<InputView> {
    let kind = InputModality::Audio;
    opt_input(kind, "input_audio"@, opt_view(c.source_audio)) + opt_input(
        kind,
        "reference_audio"@,
        opt_view(c.reference_audio),
    ) + opt_input(kind, "instrumental_audio"@, opt_view(c.instrumental_audio)) + opt_input(
        kind,
        "vocal_audio"@,
        opt_view(c.vocal_audio),
    ) + opt_input(kind, "melody_audio"@, opt_view(c.melody_audio)) + opt_input(
        kind,
        "rhythm_audio"@,
        opt_view(c.rhythm_audio),
    ) + opt_input(kind, "chord_audio"@, opt_view(c.chord_audio))
}

fn inputs_of_conditioning(c: &AudioConditioning) -> (r: Vec<InferenceInput>)
    ensures
        input_views(r@) == conditioning_inputs(*c),
{
    let mut r = no_inputs();
    add_input(&mut r, InputModality::Audio, "input_audio", &c.source_audio);
    assert(input_views(r@) =~= opt_input(
        InputModality::Audio,
        "input_audio"@,
        opt_view(c.source_audio),
    ));
    add_input(&mut r, InputModality::Audio, "reference_audio", &c.reference_audio);
    add_input(&mut r, InputModality::Audio, "instrumental_audio", &c.instrumental_audio);
    add_input(&mut r, InputModality::Audio, "vocal_audio", &c.vocal_audio);
    add_input(&mut r, InputModality::Audio, "melody_audio", &c.melody_audio);
    add_input(&mut r, InputModality::Audio, "rhythm_audio", &c.rhythm_audio);
    add_input(&mut r, InputModality::Audio, "chord_audio", &c.chord_audio);
    r
}

/// What an audio command works on.
pub open spec fn audio_inputs(command: AudioCommand) -> Seq<InputView> {
    let kind = InputModality::Audio;
    match command {
        AudioCommand::GenerateSpeech => Seq::empty(),
        AudioCommand::Speak => Seq::empty(),
        AudioCommand::GenerateMusic { conditioning } => conditioning_inputs(conditioning),
        AudioCommand::GenerateSound { conditioning } => conditioning_inputs(conditioning),
        AudioCommand::GenerateAny { conditioning, .. } => conditioning_inputs(conditioning),
        AudioCommand::Transcribe { input_audio, .. } => one_input(kind, "input_audio"@, input_audio@),
        AudioCommand::Translate { input_audio, .. } => one_input(kind, "input_audio"@, input_audio@),
        AudioCommand::DetectEvent { input_audio } => one_input(kind, "input_audio"@, input_audio@),
        AudioCommand::DetectVoice { input_audio } => one_input(kind, "input_audio"@, input_audio@),
        AudioCommand::DetectSpeaker { input_audio } => one_input(kind, "input_audio"@, input_audio@),
        AudioCommand::DetectLanguage { input_audio } => one_input(
            kind,
            "input_audio"@,
            input_audio@,
        ),
        AudioCommand::DetectEmotion { input_audio } => one_input(kind, "input_audio"@, input_audio@),
        AudioCommand::AnalyzeCaption { input_audio } => one_input(
            kind,
            "input_audio"@,
            input_audio@,
        ),
        AudioCommand::AnalyzeDiarize { input_audio } => one_input(
            kind,
            "input_audio"@,
            input_audio@,
        ),
        AudioCommand::AnalyzeClassify { input_audio } => one_input(
            kind,
            "input_audio"@,
            input_audio@,
        ),
        AudioCommand::AnalyzeUnderstand { input_audio } => one_input(
            kind,
            "input_audio"@,
            input_audio@,
        ),
        AudioCommand::TransformVoice { input_audio, reference_audio } => one_input(
            kind,
            "input_audio"@,
            input_audio@,
        ) + opt_input(kind, "reference_audio"@, opt_view(reference_audio)),
        AudioCommand::TransformSeparate { input_audio } => one_input(
            kind,
            "input_audio"@,
            input_audio@,
        ),
        AudioCommand::TransformEnhance { input_audio } => one_input(
            kind,
            "input_audio"@,
            input_audio@,
        ),
        AudioCommand::TransformEdit { input_audio } => one_input(kind, "input_audio"@, input_audio@),
        AudioCommand::Embed { input_audio } => one_input(kind, "input_audio"@, input_audio@),
        AudioCommand::Separate { input_audio } => one_input(kind, "input_audio"@, input_audio@),
    }
}

/// The task of an audio command, by what the model can do where that decides.
pub open spec fn audio_task(command: AudioCommand, tasks: Option<Seq<InferenceTask>>) -> Result<
    InferenceTask,
    Seq<char>,
> {
    match command {
        AudioCommand::GenerateSpeech => Ok(InferenceTask::TextToSpeech),
        AudioCommand::Speak => Ok(InferenceTask::TextToSpeech),
        AudioCommand::GenerateMusic { .. } => Ok(InferenceTask::MusicGeneration),
        AudioCommand::GenerateSound { .. } => Ok(InferenceTask::AudioGeneration),
        AudioCommand::GenerateAny { model_named, conditioning } => if model_named {
            Ok(any_audio_task(tasks, conditioning.source_audio is Some, conditioning.continues))
        } else {
            Err("audio generate requires speech, music, sound, or a legacy MODEL argument"@)
        },
        AudioCommand::Transcribe { operation, .. } => if operation == Some(
            SpeechToTextTask::Translate,
        ) {
            Ok(InferenceTask::SpeechTranslation)
        } else {
            Ok(InferenceTask::SpeechToText)
        },
        AudioCommand::Translate { operation, .. } => if operation == Some(
            SpeechToTextTask::Transcribe,
        ) {
            Err("audio translate conflicts with --task transcribe"@)
        } else {
            Ok(InferenceTask::SpeechTranslation)
        },
        AudioCommand::DetectEvent { .. } => Ok(InferenceTask::AudioEventDetection),
        AudioCommand::DetectVoice { .. } => Ok(InferenceTask::VoiceActivityDetection),
        AudioCommand::DetectSpeaker { .. } => Ok(InferenceTask::SpeakerIdentification),
        AudioCommand::DetectLanguage { .. } => Ok(InferenceTask::LanguageIdentification),
        AudioCommand::DetectEmotion { .. } => Ok(InferenceTask::SpeechEmotionRecognition),
        AudioCommand::AnalyzeCaption { .. } => Ok(InferenceTask::AudioCaptioning),
        AudioCommand::AnalyzeDiarize { .. } => Ok(InferenceTask::SpeakerDiarization),
        AudioCommand::AnalyzeClassify { .. } => Ok(InferenceTask::AudioClassification),
        AudioCommand::AnalyzeUnderstand { .. } => Ok(InferenceTask::AudioUnderstanding),
        AudioCommand::TransformVoice { .. } => Ok(InferenceTask::VoiceConversion),
        AudioCommand::TransformSeparate { .. } => Ok(InferenceTask::StemSeparation),
        AudioCommand::TransformEnhance { .. } => Ok(InferenceTask::AudioEnhancement),
        AudioCommand::TransformEdit { .. } => Ok(InferenceTask::AudioEditing),
        AudioCommand::Embed { .. } => Ok(InferenceTask::AudioEmbedding),
        AudioCommand::Separate { .. } => Ok(InferenceTask::StemSeparation),
    }
}

fn on_recording(task: InferenceTask, input_audio: &String) -> (r: MediaPlan)
    ensures
        r.task == task,
        input_views(r.inputs@) == one_input(InputModality::Audio, "input_audio"@, input_audio@),
{
    MediaPlan {
        task,
        inputs: single_input(InputModality::Audio, "input_audio", input_audio.as_str()),
    }
}

/// What an audio command asks for. The manifest is that of the model, where it
/// is installed.
pub fn run_audio_command(command: &AudioCommand, manifest: Option<&ModelManifest>) -> (r: Result<
    MediaPlan,
    String,
>)
    ensures
        match r {
            Ok(plan) => audio_task(*command, model_tasks(manifest)) == Ok::<
                InferenceTask,
                Seq<char>,
            >(plan.task) && input_views(plan.inputs@) == audio_inputs(*command),
            Err(message) => audio_task(*command, model_tasks(manifest)) == Err::<
                InferenceTask,
                Seq<char>,
            >(message@),
        },
{
    match command {
        AudioCommand::GenerateSpeech => Ok(
            MediaPlan { task: InferenceTask::TextToSpeech, inputs: no_inputs() },
        ),
        AudioCommand::Speak => Ok(
            MediaPlan { task: InferenceTask::TextToSpeech, inputs: no_inputs() },
        ),
        AudioCommand::GenerateMusic { conditioning } => Ok(
            MediaPlan {
                task: InferenceTask::MusicGeneration,
                inputs: inputs_of_conditioning(conditioning),
            },
        ),
        AudioCommand::GenerateSound { conditioning } => Ok(
            MediaPlan {
                task: InferenceTask::AudioGeneration,
                inputs: inputs_of_conditioning(conditioning),
            },
        ),
        AudioCommand::GenerateAny { model_named, conditioning } => {
            if !*model_named {
                return Err(
                    "audio generate requires speech, music, sound, or a legacy MODEL argument".to_owned(),
                );
            }
            Ok(
                MediaPlan {
                    task: legacy_audio_generation_task(manifest, conditioning),
                    inputs: inputs_of_conditioning(conditioning),
                },
            )
        },
        AudioCommand::Transcribe { input_audio, operation } => {
            match prepare_audio_transcription_task(*operation, false) {
                Ok((task, _)) => Ok(on_recording(task, input_audio)),
                Err(message) => Err(message),
            }
        },
        AudioCommand::Translate { input_audio, operation } => {
            match prepare_audio_transcription_task(*operation, true) {
                Ok((task, _)) => Ok(on_recording(task, input_audio)),
                Err(message) => Err(message),
            }
        },
        AudioCommand::DetectEvent { input_audio } => Ok(
            on_recording(InferenceTask::AudioEventDetection, input_audio),
        ),
        AudioCommand::DetectVoice { input_audio } => Ok(
            on_recording(InferenceTask::VoiceActivityDetection, input_audio),
        ),
        AudioCommand::DetectSpeaker { input_audio } => Ok(
            on_recording(InferenceTask::SpeakerIdentification, input_audio),
        ),
        AudioCommand::DetectLanguage { input_audio } => Ok(
            on_recording(InferenceTask::LanguageIdentification, input_audio),
        ),
        AudioCommand::DetectEmotion { input_audio } => Ok(
            on_recording(InferenceTask::SpeechEmotionRecognition, input_audio),
        ),
        AudioCommand::AnalyzeCaption { input_audio } => Ok(
            on_recording(InferenceTask::AudioCaptioning, input_audio),
        ),
        AudioCommand::AnalyzeDiarize { input_audio } => Ok(
            on_recording(InferenceTask::SpeakerDiarization, input_audio),
        ),
        AudioCommand::AnalyzeClassify { input_audio } => Ok(
            on_recording(InferenceTask::AudioClassification, input_audio),
        ),
        AudioCommand::AnalyzeUnderstand { input_audio } => Ok(
            on_recording(InferenceTask::AudioUnderstanding, input_audio),
        ),
        AudioCommand::TransformVoice { input_audio, reference_audio } => {
            let mut inputs = single_input(
                InputModality::Audio,
                "input_audio",
                input_audio.as_str(),
            );
            add_input(&mut inputs, InputModality::Audio, "reference_audio", reference_audio);
            Ok(MediaPlan { task: InferenceTask::VoiceConversion, inputs })
        },
        AudioCommand::TransformSeparate { input_audio } => Ok(
            on_recording(InferenceTask::StemSeparation, input_audio),
        ),
        AudioCommand::TransformEnhance { input_audio } => Ok(
            on_recording(InferenceTask::AudioEnhancement, input_audio),
        ),
        AudioCommand::TransformEdit { input_audio } => Ok(
            on_recording(InferenceTask::AudioEditing, input_audio),
        ),
        AudioCommand::Embed { input_audio } => Ok(
            on_recording(InferenceTask::AudioEmbedding, input_audio),
        ),
        AudioCommand::Separate { input_audio } => Ok(
            on_recording(InferenceTask::StemSeparation, input_audio),
        ),
    }
}

pub open spec fn makes_speech(command: AudioCommand) -> bool {
    command is GenerateSpeech || command is Speak
}

pub open spec fn makes_song(command: AudioCommand) -> bool {
    command is GenerateMusic || command is GenerateSound || command is GenerateAny
}

/// The commands that nothing is said to but the recording.
pub open spec fn takes_recording_alone(command: AudioCommand) -> bool {
    command is Transcribe || command is Translate || command is TransformVoice
        || command is TransformSeparate || command is Separate
}

/// The prompt of an audio command. Speech is made of a text, and a song reads a
/// prompt without insisting on it (see `song_prompt_rule` for one with lyrics). A
/// transcription, a voice conversion and a separation use none. Any other work on
/// a recording requires one where its task does.
pub open spec fn audio_rule(command: AudioCommand, requires_prompt: bool) -> PromptRule {
    if makes_speech(command) {
        PromptRule::Required
    } else if makes_song(command) {
        PromptRule::Optional
    } else if takes_recording_alone(command) {
        PromptRule::Unused
    } else if requires_prompt {
        PromptRule::Required
    } else {
        PromptRule::Optional
    }
}

/// Whether an audio command takes a prompt, where `requires_prompt` says whether
/// its task does.
pub fn audio_prompt_rule(command: &AudioCommand, requires_prompt: bool) -> (r: PromptRule)
    ensures
        r == audio_rule(*command, requires_prompt),
{
    match command {
        AudioCommand::GenerateSpeech | AudioCommand::Speak => PromptRule::Required,
        AudioCommand::GenerateMusic { .. } | AudioCommand::GenerateSound { .. }
        | AudioCommand::GenerateAny { .. } => PromptRule::Optional,
        AudioCommand::Transcribe { .. } | AudioCommand::Translate { .. }
        | AudioCommand::TransformVoice { .. } | AudioCommand::TransformSeparate { .. }
        | AudioCommand::Separate { .. } => PromptRule::Unused,
        _ => if requires_prompt {
            PromptRule::Required
        } else {
            PromptRule::Optional
        },
    }
}

/// How the prompt of a song is read: with lyrics only what was given counts.
pub fn song_prompt_rule(has_lyrics: bool) -> (r: PromptRule)
    ensures
        r == if has_lyrics {
            PromptRule::WhereGiven
        } else {
            PromptRule::Optional
        },
{
    if has_lyrics {
        PromptRule::WhereGiven
    } else {
        PromptRule::Optional
    }
}

/// Whether a text is read that says what the result should not hold: by what
/// takes a prompt, but for speech.
pub fn audio_negative_prompt_rule(command: &AudioCommand) -> (r: PromptRule)
    ensures
        r == if makes_speech(*command) || takes_recording_alone(*command) {
            PromptRule::Unused
        } else {
            PromptRule::WhereGiven
        },
{
    match command {
        AudioCommand::GenerateSpeech | AudioCommand::Speak | AudioCommand::Transcribe { .. }
        | AudioCommand::Translate { .. } | AudioCommand::TransformVoice { .. }
        | AudioCommand::TransformSeparate { .. } | AudioCommand::Separate { .. } => {
            PromptRule::Unused
        },
        _ => PromptRule::WhereGiven,
    }
}

/// What the prompt of an audio command is called.
pub fn audio_prompt_label(command: &AudioCommand) -> (r: &'static str)
    ensures
        r@ == if makes_speech(*command) {
            "text"@
        } else {
            "prompt"@
        },
{
    match command {
        AudioCommand::GenerateSpeech | AudioCommand::Speak => "text",
        _ => "prompt",
    }
}

/// The operation that goes along as the parameter `task`: what a transcription was
/// asked for, if anything, and a translation always.
pub open spec fn operation_of(command: AudioCommand) -> Option<SpeechToTextTask> {
    match command {
        AudioCommand::Transcribe { operation, .. } => operation,
        AudioCommand::Translate { .. } => Some(SpeechToTextTask::Translate),
        _ => None,
    }
}

/// The operation of an audio command that is carried out. A translation that is
/// asked to transcribe is refused as `run_audio_command` refuses it.
pub fn audio_operation(command: &AudioCommand) -> (r: Result<Option<SpeechToTextTask>, String>)
    ensures
        match r {
            Ok(operation) => operation == operation_of(*command),
            Err(message) => message@ == "audio translate conflicts with --task transcribe"@,
        },
        r is Err <==> (*command matches AudioCommand::Translate { operation, .. } && operation
            == Some(SpeechToTextTask::Transcribe)),
{
    match command {
        AudioCommand::Transcribe { operation, .. } => {
            match prepare_audio_transcription_task(*operation, false) {
                Ok((_, after)) => Ok(after),
                Err(message) => Err(message),
            }
        },
        AudioCommand::Translate { operation, .. } => {
            match prepare_audio_transcription_task(*operation, true) {
                Ok((_, after)) => Ok(after),
                Err(message) => Err(message),
            }
        },
        _ => Ok(None),
    }
}

pub fn speech_operation_name(operation: SpeechToTextTask) -> (r: &'static str)
    ensures
        r@ == match operation {
            SpeechToTextTask::Transcribe => "transcribe"@,
            SpeechToTextTask::Translate => "translate"@,
        },
{
    match operation {
        SpeechToTextTask::Transcribe => "transcribe",
        SpeechToTextTask::Translate => "translate",
    }
}

/// A command that is run as a translation carries the translation along, and no
/// other command does.
pub proof fn translations_say_so(command: AudioCommand, tasks: Option<Seq<InferenceTask>>)
    requires
        audio_task(command, tasks) is Ok,
    ensures
        operation_of(command) == Some(SpeechToTextTask::Translate) <==> audio_task(command, tasks)
            == Ok::<InferenceTask, Seq<char>>(InferenceTask::SpeechTranslation),
{
}

/// What becomes of the prompt of a song.
#[derive(Debug)]
pub enum SongPrompt {
    Text(String),
    /// The task needs one, so the user is asked.
    Ask,
    Nothing,
}

/// The prompt of a song is the prompt, or else the lyrics.
pub fn prepare_audio_generation(
    prompt: Option<String>,
    lyrics: Option<&str>,
    requires_prompt: bool,
) -> (r: SongPrompt)
    ensures
        match r {
            SongPrompt::Text(text) => Some(text@) == if prompt is Some {
                opt_view(prompt)
            } else {
                opt_str_view(lyrics)
            },
            SongPrompt::Ask => prompt is None && lyrics is None && requires_prompt,
            SongPrompt::Nothing => prompt is None && lyrics is None && !requires_prompt,
        },
{
    match prompt {
        Some(prompt) => SongPrompt::Text(prompt),
        None => match lyrics {
            Some(lyrics) => SongPrompt::Text(lyrics.to_owned()),
            None => if requires_prompt {
                SongPrompt::Ask
            } else {
                SongPrompt::Nothing
            },
        },
    }
}

// ---------------------------------------------------------------------------
// Routing
// ---------------------------------------------------------------------------

/// A switch that may be on, off, or left to whoever decides otherwise.
#[derive(Clone, Copy, Debug, PartialEq, Eq, Structural)]
pub enum OverrideBool {
    Inherit,
    Enabled,
    Disabled,
}

/// One of a pair of switches decides; both or neither leave it open.
pub fn canonical_bool(enabled: bool, disabled: bool) -> (r: OverrideBool)
    ensures
        r is Enabled <==> enabled && !disabled,
        r is Disabled <==> disabled && !enabled,
        r is Inherit <==> enabled == disabled,
{
    if enabled && !disabled {
        OverrideBool::Enabled
    } else if disabled && !enabled {
        OverrideBool::Disabled
    } else {
        OverrideBool::Inherit
    }
}

/// A pair of switches on the command line.
#[derive(Clone, Copy, Debug, PartialEq, Eq, Structural)]
pub struct SwitchPair {
    pub on: bool,
    pub off: bool,
}

/// The arguments that decide where a request is run.
#[derive(Debug)]
pub struct RoutingArgs {
    pub accelerator: Option<String>,
    pub precision: Option<String>,
    pub quantization: Option<String>,
    pub profile: Option<String>,
    pub quality: Option<String>,
    pub performance_preference: Option<String>,
    pub fallback_policy: Option<String>,
    pub parameter_policy: Option<String>,
    pub cpu_offload: SwitchPair,
    pub sequential_offload: SwitchPair,
    pub component_offload: SwitchPair,
    pub disk_offload: SwitchPair,
    pub attention_backend: Option<String>,
    pub compile: SwitchPair,
    pub timeout: Option<u64>,
}

/// Where a request is run. The parameter policy is the name of one.
#[derive(Debug)]
pub struct RoutingOverrides {
    pub backend: Option<String>,
    pub accelerator: Option<String>,
    pub device: Option<String>,
    pub precision: Option<String>,
    pub quantization: Option<String>,
    pub profile: Option<String>,
    pub quality: Option<String>,
    pub performance_preference: Option<String>,
    pub fallback_policy: Option<String>,
    pub parameter_policy: String,
    pub allow_cpu_offload: OverrideBool,
    pub allow_sequential_offload: OverrideBool,
    pub allow_component_offload: OverrideBool,
    pub allow_disk_offload: OverrideBool,
    pub attention_backend: Option<String>,
    pub compile: OverrideBool,
    pub timeout_seconds: Option<u64>,
}

/// The accelerator that a backend is named after.
pub open spec fn backend_accelerator_name(backend: BackendArg) -> Option<Seq<char>> {
    match backend {
        BackendArg::Cpu => Some("cpu"@),
        BackendArg::Cuda => Some("cuda"@),
        BackendArg::Rocm => Some("rocm"@),
        BackendArg::Metal => Some("metal"@),
        _ => None,
    }
}

/// The accelerator that a device is.
pub open spec fn device_accelerator(device: Option<DeviceArg>) -> Option<Seq<char>> {
    match device {
        Some(DeviceArg::Auto) => None,
        Some(device) => Some(device_name(device)),
        None => None,
    }
}

pub open spec fn switch(pair: SwitchPair) -> OverrideBool {
    if pair.on == pair.off {
        OverrideBool::Inherit
    } else if pair.on {
        OverrideBool::Enabled
    } else {
        OverrideBool::Disabled
    }
}

/// An accelerator and a device that name different ones.
pub open spec fn accelerators_conflict(
    accelerator: Option<Seq<char>>,
    device: Option<DeviceArg>,
) -> bool {
    accelerator matches Some(accelerator) && (device_accelerator(device) matches Some(name)
        && lowered(accelerator) != lowered(name))
}

/// The accelerator that was asked for: outright, else by the device, else by the
/// backend.
pub open spec fn asked_accelerator(
    accelerator: Option<Seq<char>>,
    backend: BackendArg,
    device: Option<DeviceArg>,
) -> Option<Seq<char>> {
    if accelerator is Some {
        accelerator
    } else if device_accelerator(device) is Some {
        device_accelerator(device)
    } else {
        backend_accelerator_name(backend)
    }
}

/// The text that names the parameter policy.
pub open spec fn policy_text(args: RoutingArgs) -> Seq<char> {
    match args.parameter_policy {
        Some(policy) => policy@,
        None => "strict"@,
    }
}

/// What a parameter policy is read from: what was asked for, else the strict one.
pub fn asked_parameter_policy(args: &RoutingArgs) -> (r: &str)
    ensures
        r@ == policy_text(*args),
{
    match &args.parameter_policy {
        Some(policy) => policy.as_str(),
        None => "strict",
    }
}

/// `r` is where the arguments say a request is run, under the parameter policy
/// with the name `policy`.
pub open spec fn routes(
    r: RoutingOverrides,
    args: RoutingArgs,
    backend: BackendArg,
    device: Option<DeviceArg>,
    policy: Seq<char>,
) -> bool {
    &&& opt_view(r.backend) == if backend is Auto || backend_accelerator_name(backend) is Some {
        None
    } else {
        Some(backend_arg_name(backend))
    }
    &&& opt_view(r.accelerator) == asked_accelerator(opt_view(args.accelerator), backend, device)
    &&& opt_view(r.device) == match device {
        Some(device) => Some(device_name(device)),
        None => None,
    }
    &&& opt_view(r.precision) == opt_view(args.precision)
    &&& opt_view(r.quantization) == opt_view(args.quantization)
    &&& opt_view(r.profile) == opt_view(args.profile)
    &&& opt_view(r.quality) == opt_view(args.quality)
    &&& opt_view(r.performance_preference) == opt_view(args.performance_preference)
    &&& opt_view(r.fallback_policy) == opt_view(args.fallback_policy)
    &&& r.parameter_policy@ == policy
    &&& r.allow_cpu_offload == switch(args.cpu_offload)
    &&& r.allow_sequential_offload == switch(args.sequential_offload)
    &&& r.allow_component_offload == switch(args.component_offload)
    &&& r.allow_disk_offload == switch(args.disk_offload)
    &&& opt_view(r.attention_backend) == opt_view(args.attention_backend)
    &&& r.compile == switch(args.compile)
    &&& r.timeout_seconds == args.timeout
}

fn accelerator_of_backend(backend: BackendArg) -> (r: Option<&'static str>)
    ensures
        opt_str_view(r) == backend_accelerator_name(backend),
{
    match backend {
        BackendArg::Cpu => Some("cpu"),
        BackendArg::Cuda => Some("cuda"),
        BackendArg::Rocm => Some("rocm"),
        BackendArg::Metal => Some("metal"),
        _ => None,
    }
}

fn accelerator_of_device(device: Option<DeviceArg>) -> (r: Option<&'static str>)
    ensures
        opt_str_view(r) == device_accelerator(device),
{
    match device {
        Some(DeviceArg::Auto) => None,
        Some(device) => Some(device_arg_label(device)),
        None => None,
    }
}

pub open spec fn conflict_message(args: RoutingArgs, device: Option<DeviceArg>) -> Seq<char> {
    "conflicting media accelerator selections: --accelerator "@ + opt_view(args.accelerator)->0
        + " and --device "@ + device_accelerator(device)->0
}

/// Why the arguments name no place to run a request at: an accelerator and a
/// device that conflict, then a parameter policy that there is not.
pub open spec fn routing_error(
    args: RoutingArgs,
    device: Option<DeviceArg>,
    policy: Result<String, String>,
) -> Option<Seq<char>> {
    if accelerators_conflict(opt_view(args.accelerator), device) {
        Some(conflict_message(args, device))
    } else {
        match policy {
            Ok(_) => None,
            Err(message) => Some(message@),
        }
    }
}

/// Where the arguments say that a request is run. `policy` is what
/// `asked_parameter_policy` was read as: the policy's name, or why it names none.
pub fn media_routing(
    args: &RoutingArgs,
    backend: BackendArg,
    device: Option<DeviceArg>,
    policy: Result<String, String>,
) -> (r: Result<RoutingOverrides, String>)
    ensures
        match routing_error(*args, device, policy) {
            Some(message) => r is Err && r->Err_0@ == message,
            None => r is Ok && routes(r->Ok_0, *args, backend, device, policy->Ok_0@),
        },
{
    let by_backend = accelerator_of_backend(backend);
    let by_device = accelerator_of_device(device);
    if let Some(accelerator) = &args.accelerator {
        if let Some(device_name) = by_device {
            if !str_eq_ignore_case(accelerator.as_str(), device_name) {
                let mut message = join3(
                    "conflicting media accelerator selections: --accelerator ",
                    accelerator.as_str(),
                    " and --device ",
                );
                message.push_str(device_name);
                return Err(message);
            }
        }
    }
    let accelerator = match &args.accelerator {
        Some(accelerator) => Some(accelerator.clone()),
        None => match by_device {
            Some(name) => Some(name.to_owned()),
            None => owned_opt(by_backend),
        },
    };
    let backend_name = if backend == BackendArg::Auto || by_backend.is_some() {
        None
    } else {
        Some(requested_backend_label(backend).to_owned())
    };
    let device_label = match device {
        Some(device) => Some(device_arg_label(device).to_owned()),
        None => None,
    };
    let parameter_policy = match policy {
        Ok(name) => name,
        Err(message) => {
            return Err(message);
        },
    };
    Ok(
        RoutingOverrides {
            backend: backend_name,
            accelerator,
            device: device_label,
            precision: clone_opt(&args.precision),
            quantization: clone_opt(&args.quantization),
            profile: clone_opt(&args.profile),
            quality: clone_opt(&args.quality),
            performance_preference: clone_opt(&args.performance_preference),
            fallback_policy: clone_opt(&args.fallback_policy),
            parameter_policy,
            allow_cpu_offload: canonical_bool(args.cpu_offload.on, args.cpu_offload.off),
            allow_sequential_offload: canonical_bool(
                args.sequential_offload.on,
                args.sequential_offload.off,
            ),
            allow_component_offload: canonical_bool(
                args.component_offload.on,
                args.component_offload.off,
            ),
            allow_disk_offload: canonical_bool(args.disk_offload.on, args.disk_offload.off),
            attention_backend: clone_opt(&args.attention_backend),
            compile: canonical_bool(args.compile.on, args.compile.off),
            timeout_seconds: args.timeout,
        },
    )
}

/// A backend that is named after an accelerator is never passed on as a backend,
/// so both names are never given for one thing.
pub proof fn accelerators_are_not_backends(
    r: RoutingOverrides,
    args: RoutingArgs,
    backend: BackendArg,
    device: Option<DeviceArg>,
    policy: Seq<char>,
)
    requires
        routes(r, args, backend, device, policy),
        backend_accelerator_name(backend) is Some,
    ensures
        r.backend is None,
        r.accelerator is Some,
{
}

// ---------------------------------------------------------------------------
// What the commands are for
// ---------------------------------------------------------------------------

/// Exactly one input plays this part, and it is what was written; none does where
/// nothing was written.
pub open spec fn plays(
    inputs: Seq<InputView>,
    modality: InputModality,
    role: Seq<char>,
    written: Option<Seq<char>>,
) -> bool {
    match written {
        Some(value) => exists|i: int|
            0 <= i < inputs.len() && #[trigger] inputs[i] == written_input(modality, role, value)
                && forall|j: int|
                0 <= j < inputs.len() && (#[trigger] inputs[j]).role == role ==> j == i,
        None => forall|j: int| 0 <= j < inputs.len() ==> (#[trigger] inputs[j]).role != role,
    }
}

/// What is written is an address where it begins like one; any other text that is no
/// data URL is a path. The part it plays and what it is are kept.
pub proof fn written_inputs_are_addresses_or_paths(
    modality: InputModality,
    role: Seq<char>,
    value: Seq<char>,
)
    ensures
        written_input(modality, role, value).role == role,
        written_input(modality, role, value).modality == modality,
        "http://"@.is_prefix_of(value) || "https://"@.is_prefix_of(value) ==> written_input(
            modality,
            role,
            value,
        ).source == SourceView::Url(value),
        !"http://"@.is_prefix_of(value) && !"https://"@.is_prefix_of(value)
            && !"data:"@.is_prefix_of(value) ==> written_input(modality, role, value).source
            == SourceView::Path(value),
        !"data:"@.is_prefix_of(value) ==> written_input(modality, role, value).mime_type is None,
{
}

/// A data URL gives up its kind and its data: what comes before the mark and what
/// comes behind it.
pub proof fn data_urls_give_up_their_data(
    modality: InputModality,
    role: Seq<char>,
    kind: Seq<char>,
    data: Seq<char>,
)
    requires
        !kind.contains(';'),
    ensures
        written_input(modality, role, "data:"@ + kind + ";base64,"@ + data).source
            == SourceView::Base64(data),
        written_input(modality, role, "data:"@ + kind + ";base64,"@ + data).mime_type == Some(kind),
{
    reveal_strlit("http://");
    reveal_strlit("https://");
    reveal_strlit("data:");
    reveal_strlit(";base64,");
    let mark = ";base64,"@;
    let value = "data:"@ + kind + mark + data;
    let at = 5 + kind.len() as int;
    assert(value[0] == 'd');
    assert("http://"@[0] == 'h' && "https://"@[0] == 'h');
    assert("data:"@.is_prefix_of(value));
    assert(value.subrange(at, at + 8) =~= mark);
    assert(crate::text::occurs_at(value, mark, at));
    assert forall|k: int| 0 <= k < at implies !crate::text::occurs_at(value, mark, k) by {
        if crate::text::occurs_at(value, mark, k) {
            assert(value.subrange(k, k + 8)[0] == value[k]);
            assert(value[k] == ';');
            if k < 5 {
                assert(value[k] == "data:"@[k]);
            } else {
                assert(value[k] == kind[k - 5]);
            }
        }
    }
    crate::text::lemma_first_occurrence(value, mark, at);
    assert(value.skip(at + 8) =~= data);
    assert(value.take(at) =~= "data:"@ + kind);
    assert(value.take(at).skip(5) =~= kind);
}

/// An edit works on the image that was given, and paints the mask that was given.
pub proof fn edits_paint_the_image_by_the_mask(image: String, mask: Option<String>)
    ensures
        ({
            let inputs = image_inputs(ImageCommand::Edit { image, mask });
            &&& plays(inputs, InputModality::Image, "image"@, Some(image@))
            &&& plays(inputs, InputModality::Image, "mask_image"@, opt_view(mask))
            &&& inputs.len() == if mask is Some {
                2int
            } else {
                1
            }
        }),
        image_task(ImageCommand::Edit { image, mask }) is ImageInpainting <==> mask is Some,
        image_task(ImageCommand::Edit { image, mask }) is ImageEditing <==> mask is None,
{
    reveal_strlit("image");
    reveal_strlit("mask_image");
    let inputs = image_inputs(ImageCommand::Edit { image, mask });
    assert("image"@.len() != "mask_image"@.len());
    assert(inputs[0] == written_input(InputModality::Image, "image"@, image@));
    if mask is Some {
        assert(inputs[1] == written_input(InputModality::Image, "mask_image"@, mask->0@));
    }
}

/// To generate an image from another is to edit that other, and without one nothing
/// is worked on. Enlarging works on the image that was given.
pub proof fn generated_images_start_from_others_as_edits(
    image: String,
    mask: Option<String>,
)
    ensures
        image_task(ImageCommand::Generate { init_image: Some(image), mask }) == image_task(
            ImageCommand::Edit { image, mask },
        ),
        image_inputs(ImageCommand::Generate { init_image: Some(image), mask }) == image_inputs(
            ImageCommand::Edit { image, mask },
        ),
        image_task(ImageCommand::Generate { init_image: None, mask: None }) is ImageGeneration,
        image_inputs(ImageCommand::Generate { init_image: None, mask: None }).len() == 0,
        image_task(ImageCommand::Upscale { image }) is ImageUpscaling,
        image_inputs(ImageCommand::Upscale { image }).len() == 1,
        plays(
            image_inputs(ImageCommand::Upscale { image }),
            InputModality::Image,
            "image"@,
            Some(image@),
        ),
{
    let inputs = image_inputs(ImageCommand::Upscale { image });
    assert(inputs[0] == written_input(InputModality::Image, "image"@, image@));
}

/// A video that is generated from a first image is that image set in motion; other
/// videos are made of nothing, or of the video that was given.
pub proof fn videos_are_made_of_what_was_given(file: String)
    ensures
        video_task(VideoCommand::Generate { initial_image: Some(file) }) == video_task(
            VideoCommand::Animate { image: file },
        ),
        video_inputs(VideoCommand::Generate { initial_image: Some(file) }) == video_inputs(
            VideoCommand::Animate { image: file },
        ),
        video_task(VideoCommand::Animate { image: file }) is ImageToVideo,
        plays(
            video_inputs(VideoCommand::Animate { image: file }),
            InputModality::Image,
            "initial_image"@,
            Some(file@),
        ),
        video_inputs(VideoCommand::Animate { image: file }).len() == 1,
        video_task(VideoCommand::Generate { initial_image: None }) is VideoGeneration,
        video_inputs(VideoCommand::Generate { initial_image: None }).len() == 0,
        video_task(VideoCommand::Transform { video: file }) is VideoToVideo,
        video_task(VideoCommand::Upscale { source: file }) is VideoUpscaling,
        video_inputs(VideoCommand::Transform { video: file }) == video_inputs(
            VideoCommand::Upscale { source: file },
        ),
        plays(
            video_inputs(VideoCommand::Transform { video: file }),
            InputModality::Video,
            "source_video"@,
            Some(file@),
        ),
        video_inputs(VideoCommand::Transform { video: file }).len() == 1,
{
    assert(video_inputs(VideoCommand::Animate { image: file })[0] == written_input(
        InputModality::Image,
        "initial_image"@,
        file@,
    ));
    assert(video_inputs(VideoCommand::Transform { video: file })[0] == written_input(
        InputModality::Video,
        "source_video"@,
        file@,
    ));
}

/// Every recording that guides a song plays the part it was given for.
pub proof fn songs_are_guided_by_what_was_given(c: AudioConditioning)
    ensures
        ({
            let inputs = audio_inputs(AudioCommand::GenerateMusic { conditioning: c });
            &&& plays(inputs, InputModality::Audio, "input_audio"@, opt_view(c.source_audio))
            &&& plays(inputs, InputModality::Audio, "reference_audio"@, opt_view(c.reference_audio))
            &&& plays(inputs, InputModality::Audio, "instrumental_audio"@, opt_view(c.instrumental_audio))
            &&& plays(inputs, InputModality::Audio, "vocal_audio"@, opt_view(c.vocal_audio))
            &&& plays(inputs, InputModality::Audio, "melody_audio"@, opt_view(c.melody_audio))
            &&& plays(inputs, InputModality::Audio, "rhythm_audio"@, opt_view(c.rhythm_audio))
            &&& plays(inputs, InputModality::Audio, "chord_audio"@, opt_view(c.chord_audio))
        }),
        audio_inputs(AudioCommand::GenerateMusic { conditioning: c }) == audio_inputs(
            AudioCommand::GenerateSound { conditioning: c },
        ),
        audio_inputs(AudioCommand::GenerateMusic { conditioning: c }) == audio_inputs(
            AudioCommand::GenerateAny { model_named: true, conditioning: c },
        ),
{
    reveal_strlit("input_audio");
    reveal_strlit("reference_audio");
    reveal_strlit("instrumental_audio");
    reveal_strlit("vocal_audio");
    reveal_strlit("melody_audio");
    reveal_strlit("rhythm_audio");
    reveal_strlit("chord_audio");
    let parts = seq![
        ("input_audio"@, opt_view(c.source_audio)),
        ("reference_audio"@, opt_view(c.reference_audio)),
        ("instrumental_audio"@, opt_view(c.instrumental_audio)),
        ("vocal_audio"@, opt_view(c.vocal_audio)),
        ("melody_audio"@, opt_view(c.melody_audio)),
        ("rhythm_audio"@, opt_view(c.rhythm_audio)),
        ("chord_audio"@, opt_view(c.chord_audio)),
    ];
    assert forall|i: int, j: int| 0 <= i < j < parts.len() implies (#[trigger] parts[i]).0 != (
    #[trigger] parts[j]).0 by {
        assert("input_audio"@.len() == 11 && "input_audio"@[0] == 'i');
        assert("reference_audio"@.len() == 15);
        assert("instrumental_audio"@.len() == 18);
        assert("vocal_audio"@.len() == 11 && "vocal_audio"@[0] == 'v');
        assert("melody_audio"@.len() == 12 && "melody_audio"@[0] == 'm');
        assert("rhythm_audio"@.len() == 12 && "rhythm_audio"@[0] == 'r');
        assert("chord_audio"@.len() == 11 && "chord_audio"@[0] == 'c');
    }
    lemma_parts_unfold(parts);
    assert(parts_played(parts) == conditioning_inputs(c));
    lemma_parts_played(parts, 0);
    lemma_parts_played(parts, 1);
    lemma_parts_played(parts, 2);
    lemma_parts_played(parts, 3);
    lemma_parts_played(parts, 4);
    lemma_parts_played(parts, 5);
    lemma_parts_played(parts, 6);
}

/// The inputs of these parts, in order.
pub open spec fn parts_played(parts: Seq<(Seq<char>, Option<Seq<char>>)>) -> Seq<InputView>
    decreases parts.len(),
{
    if parts.len() == 0 {
        Seq::empty()
    } else {
        parts_played(parts.drop_last()) + opt_input(
            InputModality::Audio,
            parts.last().0,
            parts.last().1,
        )
    }
}

proof fn lemma_parts_played(parts: Seq<(Seq<char>, Option<Seq<char>>)>, k: int)
    requires
        0 <= k < parts.len(),
        forall|i: int, j: int|
            0 <= i < j < parts.len() ==> (#[trigger] parts[i]).0 != (#[trigger] parts[j]).0,
    ensures
        plays(parts_played(parts), InputModality::Audio, parts[k].0, parts[k].1),
    decreases parts.len(),
{
    let rest = parts.drop_last();
    let last = parts.last();
    let kind = InputModality::Audio;
    if k == parts.len() - 1 {
        lemma_part_absent(rest, last.0);
        lemma_part_played(parts_played(rest), kind, last.0, last.1, Seq::empty());
        assert(parts_played(parts) =~= parts_played(rest) + opt_input(kind, last.0, last.1)
            + Seq::<InputView>::empty());
    } else {
        lemma_parts_played(rest, k);
        assert(parts[k].0 != last.0);
        let before = parts_played(rest);
        let all = parts_played(parts);
        if let Some(value) = parts[k].1 {
            let i = choose|i: int|
                0 <= i < before.len() && #[trigger] before[i] == written_input(
                    kind,
                    parts[k].0,
                    value,
                ) && forall|j: int|
                    0 <= j < before.len() && (#[trigger] before[j]).role == parts[k].0 ==> j == i;
            assert(all[i] == before[i]);
            assert forall|j: int| 0 <= j < all.len() && (#[trigger] all[j]).role == parts[k].0 implies j
                == i by {
                if j < before.len() {
                    assert(all[j] == before[j]);
                }
            }
        } else {
            assert forall|j: int| 0 <= j < all.len() implies (#[trigger] all[j]).role
                != parts[k].0 by {
                if j < before.len() {
                    assert(all[j] == before[j]);
                }
            }
        }
    }
}

proof fn lemma_part_absent(parts: Seq<(Seq<char>, Option<Seq<char>>)>, role: Seq<char>)
    requires
        forall|i: int| 0 <= i < parts.len() ==> (#[trigger] parts[i]).0 != role,
    ensures
        forall|i: int|
            0 <= i < parts_played(parts).len() ==> (#[trigger] parts_played(parts)[i]).role != role,
    decreases parts.len(),
{
    if parts.len() > 0 {
        let rest = parts.drop_last();
        lemma_part_absent(rest, role);
        assert(parts.last().0 != role);
        let all = parts_played(parts);
        assert forall|i: int| 0 <= i < all.len() implies (#[trigger] all[i]).role != role by {
            if i < parts_played(rest).len() {
                assert(all[i] == parts_played(rest)[i]);
            }
        }
    }
}

proof fn lemma_parts_unfold(parts: Seq<(Seq<char>, Option<Seq<char>>)>)
    requires
        parts.len() == 7,
    ensures
        parts_played(parts) == opt_input(InputModality::Audio, parts[0].0, parts[0].1) + opt_input(
            InputModality::Audio,
            parts[1].0,
            parts[1].1,
        ) + opt_input(InputModality::Audio, parts[2].0, parts[2].1) + opt_input(
            InputModality::Audio,
            parts[3].0,
            parts[3].1,
        ) + opt_input(InputModality::Audio, parts[4].0, parts[4].1) + opt_input(
            InputModality::Audio,
            parts[5].0,
            parts[5].1,
        ) + opt_input(InputModality::Audio, parts[6].0, parts[6].1),
{
    reveal_with_fuel(parts_played, 8);
    let one = opt_input(InputModality::Audio, parts[0].0, parts[0].1);
    assert(Seq::<InputView>::empty() + one =~= one);
}

proof fn lemma_part_played(
    before: Seq<InputView>,
    modality: InputModality,
    role: Seq<char>,
    written: Option<Seq<char>>,
    after: Seq<InputView>,
)
    requires
        forall|i: int| 0 <= i < before.len() ==> (#[trigger] before[i]).role != role,
        forall|i: int| 0 <= i < after.len() ==> (#[trigger] after[i]).role != role,
    ensures
        plays(before + opt_input(modality, role, written) + after, modality, role, written),
{
    let mine = opt_input(modality, role, written);
    let all = before + mine + after;
    let n = before.len() as int;
    assert forall|j: int| 0 <= j < all.len() && (#[trigger] all[j]).role == role implies j == n
        && written is Some by {
        if j < n {
            assert(all[j] == before[j]);
        } else if j >= n + mine.len() {
            assert(all[j] == after[j - n - mine.len()]);
        }
    }
    if written is Some {
        assert(all[n] == mine[0]);
        assert(all[n] == written_input(modality, role, written->0));
    }
}

/// Work on a recording has that recording as its only input, but for a voice that is
/// given another one.
pub proof fn recordings_are_worked_on(file: String, other: Option<String>)
    ensures
        ({
            let inputs = audio_inputs(
                AudioCommand::TransformVoice { input_audio: file, reference_audio: other },
            );
            &&& plays(inputs, InputModality::Audio, "input_audio"@, Some(file@))
            &&& plays(inputs, InputModality::Audio, "reference_audio"@, opt_view(other))
        }),
        forall|command: AudioCommand|
            recording_of(command) == Some(file@) && !(command is TransformVoice)
                ==> #[trigger] audio_inputs(command).len() == 1 && plays(
                audio_inputs(command),
                InputModality::Audio,
                "input_audio"@,
                Some(file@),
            ),
        audio_inputs(AudioCommand::Speak).len() == 0,
        audio_inputs(AudioCommand::GenerateSpeech).len() == 0,
{
    reveal_strlit("input_audio");
    reveal_strlit("reference_audio");
    assert("input_audio"@.len() != "reference_audio"@.len());
    let kind = InputModality::Audio;
    let a = opt_input(kind, "input_audio"@, Some(file@));
    let b = opt_input(kind, "reference_audio"@, opt_view(other));
    lemma_part_played(Seq::empty(), kind, "input_audio"@, Some(file@), b);
    lemma_part_played(a, kind, "reference_audio"@, opt_view(other), Seq::empty());
    let inputs = audio_inputs(
        AudioCommand::TransformVoice { input_audio: file, reference_audio: other },
    );
    assert(inputs =~= Seq::<InputView>::empty() + a + b);
    assert(inputs =~= a + b + Seq::<InputView>::empty());
    assert forall|command: AudioCommand|
        recording_of(command) == Some(file@) && !(command is TransformVoice) implies #[trigger]
        audio_inputs(command).len() == 1 && plays(
        audio_inputs(command),
        InputModality::Audio,
        "input_audio"@,
        Some(file@),
    ) by {
        assert(audio_inputs(command)[0] == written_input(kind, "input_audio"@, file@));
    }
}

/// The recording that a command was given.
pub open spec fn recording_of(command: AudioCommand) -> Option<Seq<char>> {
    match command {
        AudioCommand::Transcribe { input_audio, .. } => Some(input_audio@),
        AudioCommand::Translate { input_audio, .. } => Some(input_audio@),
        AudioCommand::DetectEvent { input_audio } => Some(input_audio@),
        AudioCommand::DetectVoice { input_audio } => Some(input_audio@),
        AudioCommand::DetectSpeaker { input_audio } => Some(input_audio@),
        AudioCommand::DetectLanguage { input_audio } => Some(input_audio@),
        AudioCommand::DetectEmotion { input_audio } => Some(input_audio@),
        AudioCommand::AnalyzeCaption { input_audio } => Some(input_audio@),
        AudioCommand::AnalyzeDiarize { input_audio } => Some(input_audio@),
        AudioCommand::AnalyzeClassify { input_audio } => Some(input_audio@),
        AudioCommand::AnalyzeUnderstand { input_audio } => Some(input_audio@),
        AudioCommand::TransformVoice { input_audio, .. } => Some(input_audio@),
        AudioCommand::TransformSeparate { input_audio } => Some(input_audio@),
        AudioCommand::TransformEnhance { input_audio } => Some(input_audio@),
        AudioCommand::TransformEdit { input_audio } => Some(input_audio@),
        AudioCommand::Embed { input_audio } => Some(input_audio@),
        AudioCommand::Separate { input_audio } => Some(input_audio@),
        _ => None,
    }
}

/// A task is done by the command that is named after it, whatever the model can do
/// otherwise: no command does the work of another.
pub proof fn audio_commands_do_what_they_say(
    command: AudioCommand,
    tasks: Option<Seq<InferenceTask>>,
)
    ensures
        audio_task(command, tasks) matches Ok(task) ==> {
            &&& command is DetectEvent <==> task is AudioEventDetection
            &&& command is DetectVoice <==> task is VoiceActivityDetection
            &&& command is DetectSpeaker <==> task is SpeakerIdentification
            &&& command is DetectLanguage <==> task is LanguageIdentification
            &&& command is DetectEmotion <==> task is SpeechEmotionRecognition
            &&& command is AnalyzeCaption <==> task is AudioCaptioning
            &&& command is AnalyzeDiarize <==> task is SpeakerDiarization
            &&& command is AnalyzeClassify <==> task is AudioClassification
            &&& command is AnalyzeUnderstand <==> task is AudioUnderstanding
            &&& command is TransformVoice <==> task is VoiceConversion
            &&& command is TransformSeparate || command is Separate <==> task is StemSeparation
            &&& command is TransformEnhance <==> task is AudioEnhancement
            &&& command is TransformEdit <==> task is AudioEditing
            &&& command is Embed <==> task is AudioEmbedding
            &&& command is Speak || command is GenerateSpeech <==> task is TextToSpeech
            &&& command is GenerateMusic ==> task is MusicGeneration
            &&& command is GenerateSound ==> task is AudioGeneration
            &&& command is Translate ==> task is SpeechTranslation
            &&& task is SpeechToText ==> command is Transcribe
        },
        audio_task(command, tasks) is Err ==> command is Translate || command is GenerateAny,
{
}

/// A transcription that is asked to translate is a translation, and a translation
/// cannot be asked to transcribe.
pub proof fn transcriptions_and_translations_meet(
    input_audio: String,
    operation: Option<SpeechToTextTask>,
    tasks: Option<Seq<InferenceTask>>,
)
    ensures
        ({
            let transcribe = audio_task(AudioCommand::Transcribe { input_audio, operation }, tasks);
            let translate = audio_task(AudioCommand::Translate { input_audio, operation }, tasks);
            &&& transcribe is Ok
            &&& transcribe->Ok_0 is SpeechTranslation <==> operation == Some(
                SpeechToTextTask::Translate,
            )
            &&& transcribe->Ok_0 is SpeechToText <==> operation != Some(SpeechToTextTask::Translate)
            &&& translate is Ok <==> operation != Some(SpeechToTextTask::Transcribe)
        }),
{
}

/// A sound of no named kind is only made in a way that the model can, but for plain
/// audio, which stands in. Without a source nothing is continued or varied; with one,
/// what was to be continued is continued if that can be done, and nothing else is done
/// to it that the model cannot do while it can continue or vary.
pub proof fn sounds_are_made_as_the_model_can(
    tasks: Seq<InferenceTask>,
    has_source: bool,
    continues: bool,
)
    ensures
        ({
            let task = any_audio_task(Some(tasks), has_source, continues);
            &&& task is AudioGeneration || tasks.contains(task)
            &&& task is SongContinuation || task is SongVariation || task is MusicGeneration || task
                is AudioGeneration
            &&& !has_source ==> !(task is SongContinuation) && !(task is SongVariation)
            &&& has_source && continues && tasks.contains(InferenceTask::SongContinuation) ==> task
                is SongContinuation
            &&& has_source && !continues && tasks.contains(InferenceTask::SongVariation) ==> task
                is SongVariation
            &&& has_source && (tasks.contains(InferenceTask::SongVariation) || tasks.contains(
                InferenceTask::SongContinuation,
            )) ==> task is SongContinuation || task is SongVariation
            &&& task is AudioGeneration ==> !tasks.contains(InferenceTask::MusicGeneration)
        }),
        any_audio_task(None, has_source, continues) is AudioGeneration,
{
}

/// The first text that says something is the main text, without the space around it,
/// and a later one is not looked at.
pub proof fn earlier_texts_come_first(
    explicit: Option<Seq<char>>,
    file: Option<Seq<char>>,
    input: Option<Seq<char>>,
    text: Seq<char>,
)
    ensures
        trimmed(text).len() > 0 ==> primary_text(Some(text), file, input) == Some(trimmed(text)),
        trimmed(text).len() == 0 ==> primary_text(Some(text), file, input) == primary_text(
            None,
            file,
            input,
        ),
        trimmed(text).len() > 0 ==> primary_text(None, Some(text), input) == Some(trimmed(text)),
        trimmed(text).len() == 0 ==> primary_text(None, Some(text), input) == primary_text(
            None,
            None,
            input,
        ),
        trimmed(text).len() > 0 ==> primary_text(None, None, Some(text)) == Some(trimmed(text)),
        primary_text(None, None, None) is None,
        trimmed(text).len() > 0 ==> optional_text(Some(text), file) == Some(trimmed(text)),
        trimmed(text).len() == 0 ==> optional_text(Some(text), file) is None,
        trimmed(text).len() > 0 ==> optional_text(None, Some(text)) == Some(trimmed(text)),
        optional_text(None, None) is None,
{
}

/// The user is only asked for what is required and nowhere else to be found, and
/// nothing is read from a terminal unasked.
pub proof fn users_are_asked_last(
    explicit: Option<Seq<char>>,
    file_named: bool,
    file: Option<Seq<char>>,
    input: Option<Seq<char>>,
    on_terminal: bool,
    required: bool,
)
    ensures
        ({
            let need = text_need(explicit, file_named, file, input, on_terminal, required);
            &&& need is Question ==> required && on_terminal && input is None && primary_text(
                explicit,
                file,
                input,
            ) is None
            &&& need is Pipe ==> !on_terminal && input is None
            &&& need is File ==> file_named && file is None
            &&& primary_text(explicit, file, input) is None && input is None && (required
                || !on_terminal) ==> !(need is Settled)
            &&& file_named && file is None && primary_text(explicit, None, None) is None ==> need
                is File
        }),
{
}

/// Speech needs a text; what is made of nothing but a recording takes none; songs never
/// insist; and anything else insists exactly where its task does.
pub proof fn prompts_are_asked_for_where_they_count(
    command: AudioCommand,
    requires_prompt: bool,
)
    ensures
        command is Speak || command is GenerateSpeech ==> audio_rule(command, requires_prompt)
            is Required,
        command is Transcribe || command is Translate || command is TransformVoice || command
            is Separate || command is TransformSeparate <==> audio_rule(command, requires_prompt)
            is Unused,
        command is GenerateMusic || command is GenerateSound || command is GenerateAny
            ==> audio_rule(command, requires_prompt) is Optional,
        command is Embed || command is DetectEvent || command is DetectVoice || command
            is DetectSpeaker || command is DetectLanguage || command is DetectEmotion || command
            is AnalyzeCaption || command is AnalyzeDiarize || command is AnalyzeClassify || command
            is AnalyzeUnderstand || command is TransformEnhance || command is TransformEdit ==> (
        audio_rule(command, requires_prompt) is Required <==> requires_prompt) && (audio_rule(
            command,
            requires_prompt,
        ) is Optional <==> !requires_prompt),
{
}

/// An accelerator that was asked for outright is the one, before that of the device,
/// before that of the backend.
pub proof fn accelerators_are_taken_in_order(
    accelerator: Option<Seq<char>>,
    backend: BackendArg,
    device: Option<DeviceArg>,
)
    ensures
        accelerator is Some ==> asked_accelerator(accelerator, backend, device) == accelerator,
        asked_accelerator(None, backend, Some(DeviceArg::Cpu)) == Some("cpu"@),
        asked_accelerator(None, backend, Some(DeviceArg::Cuda)) == Some("cuda"@),
        asked_accelerator(None, backend, Some(DeviceArg::Metal)) == Some("metal"@),
        asked_accelerator(None, backend, Some(DeviceArg::Auto)) == asked_accelerator(
            None,
            backend,
            None,
        ),
        asked_accelerator(None, BackendArg::Cuda, None) == Some("cuda"@),
        asked_accelerator(None, BackendArg::Rocm, None) == Some("rocm"@),
        asked_accelerator(None, BackendArg::Metal, None) == Some("metal"@),
        asked_accelerator(None, BackendArg::Cpu, None) == Some("cpu"@),
        !(backend is Cuda) && !(backend is Rocm) && !(backend is Metal) && !(backend is Cpu)
            ==> asked_accelerator(None, backend, None) is None,
{
}

/// An accelerator conflicts with a device exactly where both are named and are not the
/// same but for case.
pub proof fn accelerators_conflict_with_other_devices(
    accelerator: Seq<char>,
    device: DeviceArg,
)
    ensures
        !accelerators_conflict(None, Some(device)),
        !accelerators_conflict(Some(accelerator), None),
        !accelerators_conflict(Some(accelerator), Some(DeviceArg::Auto)),
        accelerators_conflict(Some(accelerator), Some(DeviceArg::Cuda)) <==> lowered(accelerator)
            != lowered("cuda"@),
        accelerators_conflict(Some(accelerator), Some(DeviceArg::Cpu)) <==> lowered(accelerator)
            != lowered("cpu"@),
        accelerators_conflict(Some(accelerator), Some(DeviceArg::Metal)) <==> lowered(accelerator)
            != lowered("metal"@),
{
}

/// Every setting of the routing arrives under its own name.
pub proof fn settings_arrive_under_their_names(
    r: RoutingOverrides,
    args: RoutingArgs,
    backend: BackendArg,
    device: Option<DeviceArg>,
    policy: Seq<char>,
)
    requires
        routes(r, args, backend, device, policy),
    ensures
        opt_view(r.precision) == opt_view(args.precision),
        opt_view(r.quantization) == opt_view(args.quantization),
        opt_view(r.profile) == opt_view(args.profile),
        opt_view(r.quality) == opt_view(args.quality),
        opt_view(r.performance_preference) == opt_view(args.performance_preference),
        opt_view(r.fallback_policy) == opt_view(args.fallback_policy),
        opt_view(r.attention_backend) == opt_view(args.attention_backend),
        r.parameter_policy@ == policy,
        r.timeout_seconds == args.timeout,
        r.allow_cpu_offload is Enabled <==> args.cpu_offload.on && !args.cpu_offload.off,
        r.allow_cpu_offload is Disabled <==> args.cpu_offload.off && !args.cpu_offload.on,
        r.allow_sequential_offload is Enabled <==> args.sequential_offload.on
            && !args.sequential_offload.off,
        r.allow_sequential_offload is Disabled <==> args.sequential_offload.off
            && !args.sequential_offload.on,
        r.allow_component_offload is Enabled <==> args.component_offload.on
            && !args.component_offload.off,
        r.allow_component_offload is Disabled <==> args.component_offload.off
            && !args.component_offload.on,
        r.allow_disk_offload is Enabled <==> args.disk_offload.on && !args.disk_offload.off,
        r.allow_disk_offload is Disabled <==> args.disk_offload.off && !args.disk_offload.on,
        r.compile is Enabled <==> args.compile.on && !args.compile.off,
        r.compile is Disabled <==> args.compile.off && !args.compile.on,
        device is None ==> r.device is None,
        device matches Some(DeviceArg::Cuda) ==> opt_view(r.device) == Some("cuda"@),
        device matches Some(DeviceArg::Cpu) ==> opt_view(r.device) == Some("cpu"@),
        device matches Some(DeviceArg::Metal) ==> opt_view(r.device) == Some("metal"@),
        device matches Some(DeviceArg::Auto) ==> opt_view(r.device) == Some("auto"@),
        backend is Auto || backend is Cpu || backend is Cuda || backend is Rocm || backend is Metal
            <==> r.backend is None,
        backend is Mlx ==> opt_view(r.backend) == Some("mlx"@),
        backend is Onnx ==> opt_view(r.backend) == Some("onnx"@),
        backend is Vllm ==> opt_view(r.backend) == Some("vllm"@),
{
}

} // verus!

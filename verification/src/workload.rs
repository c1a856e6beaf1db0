//! Estimates of what a media request takes, asked without making one.

use vstd::prelude::*;

use crate::args::{
    backend_arg_name, device_arg_label, device_name, requested_backend_label, BackendArg, DeviceArg,
};
use crate::binary64::{bytes_text, format_bytes};
use crate::manifest::{InferenceTask, InputModality};
use crate::media_request::{
    input_views, InferenceInput, InferenceInputSource, InputView, SourceView,
};
use crate::redaction::ParameterValue;
use crate::report_lines::{add_line, add_lines, line, no_lines};
use crate::text::{join2, join3, join5, opt_view, views};

verus! {

// ---------------------------------------------------------------------------
// Inputs that stand for others
// ---------------------------------------------------------------------------

/// An input that stands for one that would be there.
pub open spec fn stand_in(modality: InputModality, role: Seq<char>) -> InputView {
    InputView {
        modality,
        role,
        source: SourceView::Path("<estimate-input>"@),
        mime_type: None,
    }
}

/// The inputs that a task needs.
pub open spec fn needed_inputs(task: InferenceTask) -> Seq<InputView> {
    let image = InputModality::Image;
    let video = InputModality::Video;
    let audio = InputModality::Audio;
    match task {
        InferenceTask::TextGeneration => Seq::empty(),
        InferenceTask::TextEmbedding => Seq::empty(),
        InferenceTask::ImageGeneration => Seq::empty(),
        InferenceTask::VideoGeneration => Seq::empty(),
        InferenceTask::AudioGeneration => Seq::empty(),
        InferenceTask::MusicGeneration => Seq::empty(),
        InferenceTask::TextToSpeech => Seq::empty(),
        InferenceTask::ImageUnderstanding => seq![stand_in(image, "image"@)],
        InferenceTask::ImageEditing => seq![stand_in(image, "image"@)],
        InferenceTask::ImageVariation => seq![stand_in(image, "image"@)],
        InferenceTask::ImageUpscaling => seq![stand_in(image, "image"@)],
        InferenceTask::ImageInpainting => seq![
            stand_in(image, "image"@),
            stand_in(image, "mask_image"@),
        ],
        InferenceTask::ImageOutpainting => seq![
            stand_in(image, "image"@),
            stand_in(image, "mask_image"@),
        ],
        InferenceTask::ImageToVideo => seq![stand_in(image, "initial_image"@)],
        InferenceTask::VideoToVideo => seq![stand_in(video, "source_video"@)],
        InferenceTask::VideoExtension => seq![stand_in(video, "source_video"@)],
        InferenceTask::VideoUpscaling => seq![stand_in(video, "source_video"@)],
        InferenceTask::FrameInterpolation => seq![stand_in(video, "source_video"@)],
        InferenceTask::VideoInpainting => seq![
            stand_in(video, "source_video"@),
            stand_in(video, "mask_video"@),
        ],
        _ => seq![stand_in(audio, "input_audio"@)],
    }
}

fn placeholder(modality: InputModality, role: &str) -> (r: InferenceInput)
    ensures
        r@ == stand_in(modality, role@),
{
    InferenceInput {
        modality,
        role: role.to_owned(),
        source: InferenceInputSource::Path { path: "<estimate-input>".to_owned() },
        mime_type: None,
    }
}

fn one(modality: InputModality, role: &str) -> (r: Vec<InferenceInput>)
    ensures
        input_views(r@) == seq![stand_in(modality, role@)],
{
    let mut r: Vec<InferenceInput> = Vec::new();
    r.push(placeholder(modality, role));
    assert(input_views(r@) =~= seq![stand_in(modality, role@)]);
    r
}

fn two(modality: InputModality, first: &str, second: &str) -> (r: Vec<InferenceInput>)
    ensures
        input_views(r@) == seq![stand_in(modality, first@), stand_in(modality, second@)],
{
    let mut r: Vec<InferenceInput> = Vec::new();
    r.push(placeholder(modality, first));
    r.push(placeholder(modality, second));
    assert(input_views(r@) =~= seq![stand_in(modality, first@), stand_in(modality, second@)]);
    r
}

fn none() -> (r: Vec<InferenceInput>)
    ensures
        input_views(r@) == Seq::<InputView>::empty(),
{
    let r: Vec<InferenceInput> = Vec::new();
    assert(input_views(r@) =~= Seq::<InputView>::empty());
    r
}

pub fn estimate_inputs_for_task(task: InferenceTask) -> (r: Vec<InferenceInput>)
    ensures
        input_views(r@) == needed_inputs(task),
{
    match task {
        InferenceTask::TextGeneration => none(),
        InferenceTask::TextEmbedding => none(),
        InferenceTask::ImageGeneration => none(),
        InferenceTask::VideoGeneration => none(),
        InferenceTask::AudioGeneration => none(),
        InferenceTask::MusicGeneration => none(),
        InferenceTask::TextToSpeech => none(),
        InferenceTask::ImageUnderstanding => one(InputModality::Image, "image"),
        InferenceTask::ImageEditing => one(InputModality::Image, "image"),
        InferenceTask::ImageVariation => one(InputModality::Image, "image"),
        InferenceTask::ImageUpscaling => one(InputModality::Image, "image"),
        InferenceTask::ImageInpainting => two(InputModality::Image, "image", "mask_image"),
        InferenceTask::ImageOutpainting => two(InputModality::Image, "image", "mask_image"),
        InferenceTask::ImageToVideo => one(InputModality::Image, "initial_image"),
        InferenceTask::VideoToVideo => one(InputModality::Video, "source_video"),
        InferenceTask::VideoExtension => one(InputModality::Video, "source_video"),
        InferenceTask::VideoUpscaling => one(InputModality::Video, "source_video"),
        InferenceTask::FrameInterpolation => one(InputModality::Video, "source_video"),
        InferenceTask::VideoInpainting => two(InputModality::Video, "source_video", "mask_video"),
        _ => one(InputModality::Audio, "input_audio"),
    }
}

// ---------------------------------------------------------------------------
// The request
// ---------------------------------------------------------------------------

/// What is known of the size of a request. A duration is written out.
#[derive(Debug)]
pub struct WorkloadEstimateArgs {
    pub width: Option<u32>,
    pub height: Option<u32>,
    pub frames: Option<u32>,
    pub duration: Option<String>,
    pub batch_size: Option<u32>,
    pub sample_rate: Option<u32>,
    pub channels: Option<u16>,
    pub steps: Option<u32>,
}

/// A request to be estimated, its parameters in the order of their names.
#[derive(Debug)]
pub struct WorkloadRequest {
    pub model: String,
    pub task: InferenceTask,
    pub prompt: Option<String>,
    pub inputs: Vec<InferenceInput>,
    pub parameters: Vec<(String, ParameterValue)>,
    pub backend: String,
    pub device: Option<String>,
    pub fallback_policy: Option<String>,
}

pub ghost enum SizeView {
    Whole(int),
    Written(Seq<char>),
    Other(ParameterValue),
}

pub open spec fn size_view(v: ParameterValue) -> SizeView {
    match v {
        ParameterValue::Integer(n) => SizeView::Whole(n as int),
        ParameterValue::Number(text) => SizeView::Written(text@),
        other => SizeView::Other(other),
    }
}

pub open spec fn parameter_views(parameters: Seq<(String, ParameterValue)>) -> Seq<
    (Seq<char>, SizeView),
> {
    parameters.map_values(|p: (String, ParameterValue)| (p.0@, size_view(p.1)))
}

pub open spec fn whole(name: Seq<char>, n: Option<u32>) -> Seq<(Seq<char>, SizeView)> {
    match n {
        Some(n) => seq![(name, SizeView::Whole(n as int))],
        None => Seq::empty(),
    }
}

pub open spec fn size_parameters(namespace: Seq<char>, args: WorkloadEstimateArgs) -> Seq<
    (Seq<char>, SizeView),
> {
    let at = namespace + "."@;
    whole(at + "batch_size"@, args.batch_size) + whole(
        at + "channels"@,
        match args.channels {
            Some(n) => Some(n as u32),
            None => None,
        },
    ) + (match opt_view(args.duration) {
        Some(text) => seq![(at + "duration"@, SizeView::Written(text))],
        None => Seq::empty(),
    }) + whole(at + "frames"@, args.frames) + whole(at + "height"@, args.height) + whole(
        at + "sample_rate"@,
        args.sample_rate,
    ) + whole(at + "steps"@, args.steps) + whole(at + "width"@, args.width)
}

fn add_whole(
    parameters: &mut Vec<(String, ParameterValue)>,
    namespace: &str,
    name: &str,
    n: Option<u32>,
)
    ensures
        parameter_views(final(parameters)@) == parameter_views(old(parameters)@) + whole(
            namespace@ + "."@ + name@,
            n,
        ),
{
    let ghost before = parameters@;
    if let Some(n) = n {
        parameters.push((join3(namespace, ".", name), ParameterValue::Integer(n as i64)));
    }
    assert(parameter_views(parameters@) =~= parameter_views(before) + whole(
        namespace@ + "."@ + name@,
        n,
    ));
}

/// The request that an estimate is asked of. A prompt that would be needed is
/// stood in for.
pub fn workload_estimate_request(
    model: String,
    task: InferenceTask,
    requires_prompt: bool,
    namespace: &str,
    backend: BackendArg,
    device: Option<DeviceArg>,
    args: &WorkloadEstimateArgs,
) -> (r: WorkloadRequest)
    ensures
        r.model@ == model@,
        r.task == task,
        opt_view(r.prompt) == if requires_prompt {
            Some("<estimate>"@)
        } else {
            None
        },
        input_views(r.inputs@) == needed_inputs(task),
        parameter_views(r.parameters@) == size_parameters(namespace@, *args),
        r.backend@ == backend_arg_name(backend),
        opt_view(r.device) == match device {
            Some(device) => Some(device_name(device)),
            None => None,
        },
        r.fallback_policy is None,
{
    let mut parameters: Vec<(String, ParameterValue)> = Vec::new();
    assert(parameter_views(parameters@) =~= Seq::empty());
    add_whole(&mut parameters, namespace, "batch_size", args.batch_size);
    assert(parameter_views(parameters@) =~= whole(
        namespace@ + "."@ + "batch_size"@,
        args.batch_size,
    ));
    let channels: Option<u32> = match args.channels {
        Some(n) => Some(n as u32),
        None => None,
    };
    add_whole(&mut parameters, namespace, "channels", channels);
    let ghost before = parameters@;
    if let Some(text) = &args.duration {
        parameters.push((join3(namespace, ".", "duration"), ParameterValue::Number(text.clone())));
    }
    assert(parameter_views(parameters@) =~= parameter_views(before) + (match opt_view(
        args.duration,
    ) {
        Some(text) => seq![(namespace@ + "."@ + "duration"@, SizeView::Written(text))],
        None => Seq::empty(),
    }));
    add_whole(&mut parameters, namespace, "frames", args.frames);
    add_whole(&mut parameters, namespace, "height", args.height);
    add_whole(&mut parameters, namespace, "sample_rate", args.sample_rate);
    add_whole(&mut parameters, namespace, "steps", args.steps);
    add_whole(&mut parameters, namespace, "width", args.width);
    let prompt = if requires_prompt {
        Some("<estimate>".to_owned())
    } else {
        None
    };
    let device = match device {
        Some(device) => Some(device_arg_label(device).to_owned()),
        None => None,
    };
    WorkloadRequest {
        model,
        task,
        prompt,
        inputs: estimate_inputs_for_task(task),
        parameters,
        backend: requested_backend_label(backend).to_owned(),
        device,
        fallback_policy: None,
    }
}

/// A request that is put to one runtime alone, where one is named.
pub fn request_on_runtime(request: WorkloadRequest, runtime: Option<&str>) -> (r: WorkloadRequest)
    ensures
        match runtime {
            Some(name) => {
                &&& r.backend@ == name@
                &&& opt_view(r.fallback_policy) == Some("none"@)
                &&& r == (WorkloadRequest {
                    backend: r.backend,
                    fallback_policy: r.fallback_policy,
                    ..request
                })
            },
            None => r == request,
        },
{
    match runtime {
        Some(name) => WorkloadRequest {
            backend: name.to_owned(),
            fallback_policy: Some("none".to_owned()),
            ..request
        },
        None => request,
    }
}

// ---------------------------------------------------------------------------
// The answer
// ---------------------------------------------------------------------------

/// An estimate, with the names of its task, fit and confidence.
#[derive(Debug)]
pub struct WorkloadReport {
    pub task: String,
    pub fit: String,
    pub confidence: String,
    pub download_size_bytes: Option<u64>,
    pub weight_payload_bytes: Option<u64>,
    pub accelerator_peak_bytes: Option<u64>,
    pub host_peak_bytes: Option<u64>,
    pub output_size_bytes: Option<u64>,
    pub warnings: Vec<String>,
    pub recommendations: Vec<String>,
    pub assumptions: Vec<String>,
}

pub open spec fn bytes_line(label: Seq<char>, bytes: Option<u64>) -> Seq<Seq<char>> {
    line(
        label + ": "@ + match bytes {
            Some(bytes) => bytes_text(bytes as nat),
            None => "unknown"@,
        },
    )
}

fn add_bytes_line(lines: &mut Vec<String>, label: &str, bytes: Option<u64>)
    ensures
        views(final(lines)@) == views(old(lines)@) + bytes_line(label@, bytes),
{
    let size = match bytes {
        Some(bytes) => format_bytes(bytes),
        None => "unknown".to_owned(),
    };
    add_line(lines, join3(label, ": ", size.as_str()));
}

pub open spec fn labelled(label: Seq<char>, texts: Seq<Seq<char>>) -> Seq<Seq<char>> {
    texts.map_values(|t: Seq<char>| label + t)
}

pub fn label_all(label: &str, texts: &Vec<String>) -> (r: Vec<String>)
    ensures
        views(r@) == labelled(label@, views(texts@)),
{
    let mut r: Vec<String> = Vec::new();
    let mut i: usize = 0;
    while i < texts.len()
        invariant
            i <= texts@.len(),
            r@.len() == i,
            forall|j: int| 0 <= j < i ==> (#[trigger] r@[j])@ == label@ + texts@[j]@,
        decreases texts@.len() - i,
    {
        r.push(join2(label, texts[i].as_str()));
        i = i + 1;
    }
    assert(views(r@) =~= labelled(label@, views(texts@)));
    r
}

/// What is told of an estimate.
pub open spec fn workload_lines(report: WorkloadReport, verbose: bool) -> Seq<Seq<char>> {
    line("Task: "@ + report.task@) + line(
        "Fit: "@ + report.fit@ + " (confidence: "@ + report.confidence@ + ")"@,
    ) + bytes_line("Download"@, report.download_size_bytes) + bytes_line(
        "Weights"@,
        report.weight_payload_bytes,
    ) + bytes_line("Accelerator peak"@, report.accelerator_peak_bytes) + bytes_line(
        "Host peak"@,
        report.host_peak_bytes,
    ) + bytes_line("Output"@, report.output_size_bytes) + labelled(
        "Warning: "@,
        views(report.warnings@),
    ) + labelled("Recommendation: "@, views(report.recommendations@)) + if verbose {
        labelled("Assumption: "@, views(report.assumptions@))
    } else {
        Seq::empty()
    }
}

pub fn print_workload_estimate(report: &WorkloadReport, verbose: bool) -> (r: Vec<String>)
    ensures
        views(r@) == workload_lines(*report, verbose),
{
    let mut r = no_lines();
    add_line(&mut r, join2("Task: ", report.task.as_str()));
    assert(views(r@) =~= line("Task: "@ + report.task@));
    add_line(
        &mut r,
        join5(
            "Fit: ",
            report.fit.as_str(),
            " (confidence: ",
            report.confidence.as_str(),
            ")",
        ),
    );
    add_bytes_line(&mut r, "Download", report.download_size_bytes);
    add_bytes_line(&mut r, "Weights", report.weight_payload_bytes);
    add_bytes_line(&mut r, "Accelerator peak", report.accelerator_peak_bytes);
    add_bytes_line(&mut r, "Host peak", report.host_peak_bytes);
    add_bytes_line(&mut r, "Output", report.output_size_bytes);
    add_lines(&mut r, label_all("Warning: ", &report.warnings));
    add_lines(&mut r, label_all("Recommendation: ", &report.recommendations));
    if verbose {
        add_lines(&mut r, label_all("Assumption: ", &report.assumptions));
    } else {
        assert(views(r@) + Seq::<Seq<char>>::empty() =~= views(r@));
    }
    r
}

// ---------------------------------------------------------------------------
// What an estimate asks
// ---------------------------------------------------------------------------

/// A task is given what it works on, as what it takes it for: images their image,
/// paintings their mask besides, videos their video and sounds their sound.
pub proof fn tasks_are_given_what_they_work_on(task: InferenceTask, i: int)
    ensures
        0 <= i < needed_inputs(task).len() ==> {
            let input = needed_inputs(task)[i];
            &&& input.source == SourceView::Path("<estimate-input>"@)
            &&& input.mime_type is None
            &&& input.modality is Image <==> input.role == "image"@ || input.role == "mask_image"@
                || input.role == "initial_image"@
            &&& input.modality is Video <==> input.role == "source_video"@ || input.role
                == "mask_video"@
            &&& input.modality is Audio <==> input.role == "input_audio"@
            &&& i == 1 <==> input.role == "mask_image"@ || input.role == "mask_video"@
            &&& input.role == "initial_image"@ <==> task is ImageToVideo
        },
        needed_inputs(task).len() == 2 <==> task is ImageInpainting || task is ImageOutpainting
            || task is VideoInpainting,
        needed_inputs(task).len() == 0 <==> task is TextGeneration || task is TextEmbedding || task
            is ImageGeneration || task is VideoGeneration || task is AudioGeneration || task
            is MusicGeneration || task is TextToSpeech,
        needed_inputs(task).len() <= 2,
        needed_inputs(task).len() > 0 ==> {
            let m = needed_inputs(task)[0].modality;
            &&& m is Image <==> task is ImageUnderstanding || task is ImageEditing || task
                is ImageVariation || task is ImageUpscaling || task is ImageInpainting || task
                is ImageOutpainting || task is ImageToVideo
            &&& m is Video <==> task is VideoToVideo || task is VideoExtension || task
                is VideoUpscaling || task is FrameInterpolation || task is VideoInpainting
        },
{
    reveal_strlit("image");
    reveal_strlit("mask_image");
    reveal_strlit("initial_image");
    reveal_strlit("source_video");
    reveal_strlit("mask_video");
    reveal_strlit("input_audio");
    assert("image"@.len() == 5 && "mask_image"@.len() == 10 && "initial_image"@.len() == 13
        && "source_video"@.len() == 12 && "mask_video"@.len() == 10 && "input_audio"@.len() == 11);
    assert("mask_image"@[5] == 'i' && "mask_video"@[5] == 'v');
}

/// A size that was given is asked for under its own name; none is asked for that was
/// not.
pub proof fn sizes_are_asked_for_by_name(
    namespace: Seq<char>,
    args: WorkloadEstimateArgs,
    n: u32,
    c: u16,
)
    ensures
        ({
            let all = size_parameters(namespace, args);
            &&& args.width == Some(n) ==> all.contains(
                (namespace + "."@ + "width"@, SizeView::Whole(n as int)),
            )
            &&& args.height == Some(n) ==> all.contains(
                (namespace + "."@ + "height"@, SizeView::Whole(n as int)),
            )
            &&& args.frames == Some(n) ==> all.contains(
                (namespace + "."@ + "frames"@, SizeView::Whole(n as int)),
            )
            &&& args.batch_size == Some(n) ==> all.contains(
                (namespace + "."@ + "batch_size"@, SizeView::Whole(n as int)),
            )
            &&& args.sample_rate == Some(n) ==> all.contains(
                (namespace + "."@ + "sample_rate"@, SizeView::Whole(n as int)),
            )
            &&& args.steps == Some(n) ==> all.contains(
                (namespace + "."@ + "steps"@, SizeView::Whole(n as int)),
            )
            &&& args.channels == Some(c) ==> all.contains(
                (namespace + "."@ + "channels"@, SizeView::Whole(c as int)),
            )
            &&& args.duration is Some ==> all.contains(
                (namespace + "."@ + "duration"@, SizeView::Written(args.duration->0@)),
            )
            &&& all.len() <= 8
        }),
        args == (WorkloadEstimateArgs {
            width: None,
            height: None,
            frames: None,
            duration: None,
            batch_size: None,
            sample_rate: None,
            channels: None,
            steps: None,
        }) ==> size_parameters(namespace, args).len() == 0,
{
    let at = namespace + "."@;
    let all = size_parameters(namespace, args);
    let s1 = whole(at + "batch_size"@, args.batch_size);
    let s2 = whole(
        at + "channels"@,
        match args.channels {
            Some(n) => Some(n as u32),
            None => None,
        },
    );
    let s3 = match opt_view(args.duration) {
        Some(text) => seq![(at + "duration"@, SizeView::Written(text))],
        None => Seq::empty(),
    };
    let s4 = whole(at + "frames"@, args.frames);
    let s5 = whole(at + "height"@, args.height);
    let s6 = whole(at + "sample_rate"@, args.sample_rate);
    let s7 = whole(at + "steps"@, args.steps);
    let s8 = whole(at + "width"@, args.width);
    assert(all == s1 + s2 + s3 + s4 + s5 + s6 + s7 + s8);
    let n1 = s1.len() as int;
    let n2 = n1 + s2.len();
    let n3 = n2 + s3.len();
    let n4 = n3 + s4.len();
    let n5 = n4 + s5.len();
    let n6 = n5 + s6.len();
    let n7 = n6 + s7.len();
    if s1.len() > 0 {
        assert(all[0] == s1[0]);
    }
    if s2.len() > 0 {
        assert(all[n1] == s2[0]);
    }
    if s3.len() > 0 {
        assert(all[n2] == s3[0]);
    }
    if s4.len() > 0 {
        assert(all[n3] == s4[0]);
    }
    if s5.len() > 0 {
        assert(all[n4] == s5[0]);
    }
    if s6.len() > 0 {
        assert(all[n5] == s6[0]);
    }
    if s7.len() > 0 {
        assert(all[n6] == s7[0]);
    }
    if s8.len() > 0 {
        assert(all[n7] == s8[0]);
    }
}

/// Assumptions are shown to those who ask for more; warnings and recommendations to all.
pub proof fn warnings_are_shown_to_all(report: WorkloadReport, verbose: bool, i: int)
    ensures
        0 <= i < report.warnings@.len() ==> workload_lines(report, verbose)[7 + i] == "Warning: "@
            + report.warnings@[i]@,
        0 <= i < report.recommendations@.len() ==> workload_lines(report, verbose)[7
            + report.warnings@.len() + i] == "Recommendation: "@ + report.recommendations@[i]@,
        workload_lines(report, verbose).len() == 7 + report.warnings@.len()
            + report.recommendations@.len() + if verbose {
            report.assumptions@.len()
        } else {
            0
        },
        report.accelerator_peak_bytes is None ==> workload_lines(report, verbose)[4]
            == "Accelerator peak"@ + ": "@ + "unknown"@,
        report.host_peak_bytes is Some ==> workload_lines(report, verbose)[5] == "Host peak"@
            + ": "@ + bytes_text(report.host_peak_bytes->0 as nat),
{
}

} // verus!

//! Memory estimates of installed models, and their rendering.

use vstd::prelude::*;

use crate::binary64::{
    bytes_text, format_bytes, format_optional_bytes, optional_bytes_text, saturated,
};
use crate::estimate::{
    accounting, entry_views, estimate_recommendation, estimate_result, estimate_weight_accounting,
    recommendation, total_size, verdict, AccountingView, EntryView, EstimateConfidence,
    EstimateFileEntry, EstimateResult, WeightAccounting,
};
use crate::kv_cache::{
    cache_estimate, config_in_text, kv_cache_estimate, opt_config, overhead, read_estimate_config,
    runtime_overhead_bytes, ConfigView, EstimateConfig,
};
use crate::manifest::{format_label, format_name, ModelFormat, ModelManifest, ModelSource};
use crate::text::{
    decimal, holds, join3, join5, opt_str, opt_str_view, opt_view, split, str_contains,
    str_contains_char, str_eq, str_split, str_trim, trimmed, u64_text, views,
};

verus! {

/// The memory of the machine, as far as it is known.
#[derive(Clone, Copy, Debug, PartialEq, Eq, Structural)]
pub struct SystemMemory {
    pub total_bytes: Option<u64>,
    pub available_bytes: Option<u64>,
}

#[derive(Clone, Debug)]
pub struct EstimateReport {
    pub model: String,
    pub source_url: Option<String>,
    pub format: String,
    pub architecture: String,
    pub backend_hint: String,
    pub model_files_bytes: u64,
    pub weight_files_bytes: u64,
    pub runtime_overhead_bytes: u64,
    pub kv_cache_bytes: u64,
    pub estimated_total_bytes: u64,
    pub system_total_bytes: u64,
    pub system_available_bytes: Option<u64>,
    pub weight_files: Vec<EstimateFileEntry>,
    pub ignored_files: Vec<EstimateFileEntry>,
    pub selected_model_files: Vec<String>,
    pub config_used: bool,
    pub confidence: EstimateConfidence,
    pub measured_peak_memory_bytes: Option<u64>,
    pub notes: Vec<String>,
    pub result: EstimateResult,
    pub recommendation: String,
}

pub ghost struct ReportView {
    pub model: Seq<char>,
    pub source_url: Option<Seq<char>>,
    pub format: Seq<char>,
    pub architecture: Seq<char>,
    pub backend_hint: Seq<char>,
    pub model_files_bytes: u64,
    pub weight_files_bytes: u64,
    pub runtime_overhead_bytes: u64,
    pub kv_cache_bytes: u64,
    pub estimated_total_bytes: u64,
    pub system_total_bytes: u64,
    pub system_available_bytes: Option<u64>,
    pub weight_files: Seq<EntryView>,
    pub ignored_files: Seq<EntryView>,
    pub selected_model_files: Seq<Seq<char>>,
    pub config_used: bool,
    pub confidence: EstimateConfidence,
    pub measured_peak_memory_bytes: Option<u64>,
    pub notes: Seq<Seq<char>>,
    pub result: EstimateResult,
    pub recommendation: Seq<char>,
}

impl EstimateReport {
    pub open spec fn view(&self) -> ReportView {
        ReportView {
            model: self.model@,
            source_url: opt_view(self.source_url),
            format: self.format@,
            architecture: self.architecture@,
            backend_hint: self.backend_hint@,
            model_files_bytes: self.model_files_bytes,
            weight_files_bytes: self.weight_files_bytes,
            runtime_overhead_bytes: self.runtime_overhead_bytes,
            kv_cache_bytes: self.kv_cache_bytes,
            estimated_total_bytes: self.estimated_total_bytes,
            system_total_bytes: self.system_total_bytes,
            system_available_bytes: self.system_available_bytes,
            weight_files: entry_views(self.weight_files@),
            ignored_files: entry_views(self.ignored_files@),
            selected_model_files: views(self.selected_model_files@),
            config_used: self.config_used,
            confidence: self.confidence,
            measured_peak_memory_bytes: self.measured_peak_memory_bytes,
            notes: views(self.notes@),
            result: self.result,
            recommendation: self.recommendation@,
        }
    }
}

// ---------------------------------------------------------------------------
// Building an estimate
// ---------------------------------------------------------------------------

/// The web page of a model that came from Hugging Face.
pub open spec fn source_url(source: ModelSource) -> Option<Seq<char>> {
    match source {
        ModelSource::HuggingFace { repo } => Some("https://huggingface.co/"@ + repo@),
        ModelSource::LocalPath { .. } => None,
    }
}

pub fn estimate_source_url(manifest: &ModelManifest) -> (r: Option<String>)
    ensures
        opt_view(r) == source_url(manifest.source),
{
    match &manifest.source {
        ModelSource::HuggingFace { repo } => Some(
            crate::text::join2("https://huggingface.co/", repo.as_str()),
        ),
        ModelSource::LocalPath { .. } => None,
    }
}

/// The backend that usually runs a format.
pub open spec fn backend_hint_name(format: ModelFormat, on_macos: bool) -> Seq<char> {
    match format {
        ModelFormat::Mlx => "MLX"@,
        ModelFormat::Gguf => "llama.cpp"@,
        ModelFormat::Onnx => "ONNX Runtime"@,
        ModelFormat::SafeTensors => if on_macos {
            "MLX"@
        } else {
            "Candle"@
        },
        ModelFormat::PyTorch => "PyTorch"@,
        ModelFormat::TensorRt => "TensorRT"@,
        ModelFormat::OpenVino => "OpenVINO"@,
        ModelFormat::TensorFlow => "TensorFlow"@,
        ModelFormat::CoreMl => "Core ML"@,
        ModelFormat::Unknown => "unknown"@,
    }
}

pub fn estimate_backend_hint(format: ModelFormat, on_macos: bool) -> (r: &'static str)
    ensures
        r@ == backend_hint_name(format, on_macos),
{
    match format {
        ModelFormat::Mlx => "MLX",
        ModelFormat::Gguf => "llama.cpp",
        ModelFormat::Onnx => "ONNX Runtime",
        ModelFormat::SafeTensors => if on_macos {
            "MLX"
        } else {
            "Candle"
        },
        ModelFormat::PyTorch => "PyTorch",
        ModelFormat::TensorRt => "TensorRT",
        ModelFormat::OpenVino => "OpenVINO",
        ModelFormat::TensorFlow => "TensorFlow",
        ModelFormat::CoreMl => "Core ML",
        ModelFormat::Unknown => "unknown",
    }
}

pub open spec fn or_unknown(s: Option<Seq<char>>) -> Seq<char> {
    match s {
        Some(s) => s,
        None => "unknown"@,
    }
}

pub fn text_or_unknown(s: &Option<String>) -> (r: String)
    ensures
        r@ == or_unknown(opt_view(*s)),
{
    match s {
        Some(s) => s.clone(),
        None => "unknown".to_owned(),
    }
}

/// The three parts of an estimate added up.
pub open spec fn estimated_total(weights: u64, overhead: nat, cache: u64) -> nat {
    saturated((weights + overhead + cache) as nat)
}

/// What an estimate says, given the accounting and the configuration, and how
/// sure an estimate of this kind can be at most.
pub open spec fn estimate_of(
    m: ModelManifest,
    a: AccountingView,
    config: Option<ConfigView>,
    on_macos: bool,
    system: SystemMemory,
    best: EstimateConfidence,
) -> ReportView {
    let weights = total_size(a.counted) as u64;
    let extra = overhead(m.format, weights);
    let cache = cache_estimate(weights, opt_view(m.architecture), config);
    let total = estimated_total(weights, extra, cache.bytes);
    let result = verdict(total, system.total_bytes, system.available_bytes);
    ReportView {
        model: m.id@,
        source_url: source_url(m.source),
        format: format_name(m.format),
        architecture: or_unknown(opt_view(m.architecture)),
        backend_hint: backend_hint_name(m.format, on_macos),
        model_files_bytes: weights,
        weight_files_bytes: weights,
        runtime_overhead_bytes: extra as u64,
        kv_cache_bytes: cache.bytes,
        estimated_total_bytes: total as u64,
        system_total_bytes: match system.total_bytes {
            Some(n) => n,
            None => 0,
        },
        system_available_bytes: system.available_bytes,
        weight_files: a.counted,
        ignored_files: a.ignored,
        selected_model_files: a.selected,
        config_used: cache.config_used,
        confidence: a.confidence.lower_of(cache.confidence).lower_of(
            if weights > 0 {
                best
            } else {
                EstimateConfidence::Low
            },
        ),
        measured_peak_memory_bytes: None,
        notes: Seq::empty(),
        result,
        recommendation: recommendation(result),
    }
}

/// Puts an estimate together from an accounting whose total a `u64` holds.
pub fn estimate_from_accounting(
    manifest: &ModelManifest,
    accounting: WeightAccounting,
    config: &Option<EstimateConfig>,
    on_macos: bool,
    system: SystemMemory,
    best: EstimateConfidence,
) -> (r: EstimateReport)
    requires
        total_size(accounting@.counted) <= u64::MAX,
    ensures
        r@ == estimate_of(*manifest, accounting@, opt_config(*config), on_macos, system, best),
{
    let weights = accounting.total_bytes();
    let extra = runtime_overhead_bytes(manifest.format, weights);
    let cache = kv_cache_estimate(weights, opt_str(&manifest.architecture), config);
    let total = weights.saturating_add(extra).saturating_add(cache.bytes);
    let result = estimate_result(total, system.total_bytes, system.available_bytes);
    let confidence = accounting.confidence.min(cache.confidence).min(
        if weights > 0 {
            best
        } else {
            EstimateConfidence::Low
        },
    );
    let system_total_bytes: u64 = match system.total_bytes {
        Some(n) => n,
        None => 0,
    };
    let r = EstimateReport {
        model: manifest.id.clone(),
        source_url: estimate_source_url(manifest),
        format: format_label(manifest.format).to_owned(),
        architecture: text_or_unknown(&manifest.architecture),
        backend_hint: estimate_backend_hint(manifest.format, on_macos).to_owned(),
        model_files_bytes: weights,
        weight_files_bytes: weights,
        runtime_overhead_bytes: extra,
        kv_cache_bytes: cache.bytes,
        estimated_total_bytes: total,
        system_total_bytes,
        system_available_bytes: system.available_bytes,
        weight_files: accounting.counted,
        ignored_files: accounting.ignored,
        selected_model_files: accounting.selected,
        config_used: cache.config_used,
        confidence,
        measured_peak_memory_bytes: None,
        notes: Vec::new(),
        result,
        recommendation: estimate_recommendation(result).to_owned(),
    };
    assert(r@.notes =~= Seq::<Seq<char>>::empty());
    r
}

/// The estimate of an installed model: what its manifest, the text of its
/// index, the text of its configuration and the last measured peak tell.
pub open spec fn installed_estimate(
    m: ModelManifest,
    index_text: Option<Seq<char>>,
    config_text: Option<Seq<char>>,
    measured_peak: Option<u64>,
    on_macos: bool,
    system: SystemMemory,
) -> ReportView {
    ReportView {
        measured_peak_memory_bytes: measured_peak,
        ..estimate_of(
            m,
            accounting(m, index_text),
            config_in_text(config_text),
            on_macos,
            system,
            EstimateConfidence::High,
        )
    }
}

/// Estimates an installed model. There is no estimate where the sizes of the
/// counted files add up to more than a `u64` holds.
pub fn estimate_model_memory(
    manifest: &ModelManifest,
    index_text: Option<&str>,
    config_text: Option<&str>,
    measured_peak: Option<u64>,
    on_macos: bool,
    system: SystemMemory,
) -> (r: Option<EstimateReport>)
    ensures
        match r {
            Some(report) => total_size(accounting(*manifest, opt_str_view(index_text)).counted)
                <= u64::MAX && report@ == installed_estimate(
                *manifest,
                opt_str_view(index_text),
                opt_str_view(config_text),
                measured_peak,
                on_macos,
                system,
            ),
            None => total_size(accounting(*manifest, opt_str_view(index_text)).counted) > u64::MAX,
        },
{
    let accounting = estimate_weight_accounting(manifest, index_text);
    if accounting.checked_total().is_none() {
        return None;
    }
    let config = read_estimate_config(config_text);
    let mut report = estimate_from_accounting(
        manifest,
        accounting,
        &config,
        on_macos,
        system,
        EstimateConfidence::High,
    );
    report.measured_peak_memory_bytes = measured_peak;
    Some(report)
}

/// One recorded measurement.
#[derive(Clone, Debug)]
pub struct EstimateObservation {
    pub model: String,
    pub measured_peak_memory_bytes: Option<u64>,
    pub timestamp: Option<u64>,
}

pub open spec fn observed_at(o: EstimateObservation) -> u64 {
    match o.timestamp {
        Some(t) => t,
        None => 0,
    }
}

pub open spec fn is_measurement_of(o: EstimateObservation, model: Seq<char>) -> bool {
    o.model@ == model && o.measured_peak_memory_bytes is Some
}

/// The index of the latest measurement of a model; of several at the same time,
/// the last.
pub open spec fn latest_measurement(all: Seq<EstimateObservation>, model: Seq<char>) -> Option<int>
    decreases all.len(),
{
    if all.len() == 0 {
        None
    } else {
        let rest = latest_measurement(all.drop_last(), model);
        if !is_measurement_of(all.last(), model) {
            rest
        } else if rest is Some && observed_at(all[rest->0]) > observed_at(all.last()) {
            rest
        } else {
            Some(all.len() - 1)
        }
    }
}

/// The peak of the latest measurement of a model.
pub fn latest_estimate_observation(observations: &Vec<EstimateObservation>, model: &str) -> (r:
    Option<u64>)
    ensures
        r == match latest_measurement(observations@, model@) {
            Some(i) => observations@[i].measured_peak_memory_bytes,
            None => None,
        },
{
    let mut best: Option<usize> = None;
    let mut i: usize = 0;
    let ghost all = observations@;
    while i < observations.len()
        invariant
            i <= observations@.len(),
            all == observations@,
            match best {
                Some(b) => b < i && latest_measurement(all.take(i as int), model@) == Some(
                    b as int,
                ),
                None => latest_measurement(all.take(i as int), model@) is None,
            },
        decreases observations@.len() - i,
    {
        assert(all.take(i + 1).drop_last() =~= all.take(i as int));
        let o = &observations[i];
        if str_eq(o.model.as_str(), model) && o.measured_peak_memory_bytes.is_some() {
            let at: u64 = match o.timestamp {
                Some(t) => t,
                None => 0,
            };
            let keep = match best {
                Some(b) => {
                    let then_at: u64 = match observations[b].timestamp {
                        Some(t) => t,
                        None => 0,
                    };
                    then_at > at
                },
                None => false,
            };
            if !keep {
                best = Some(i);
            }
        }
        i = i + 1;
    }
    assert(all.take(all.len() as int) =~= all);
    match best {
        Some(b) => observations[b].measured_peak_memory_bytes,
        None => None,
    }
}

// ---------------------------------------------------------------------------
// Where the model comes from
// ---------------------------------------------------------------------------

/// A name of the form `namespace/repo` that is no path and no address.
pub open spec fn looks_like_repo(model: Seq<char>) -> bool {
    let m = trimmed(model);
    let parts = split(m, '/');
    &&& m.len() > 0
    &&& m[0] != '-' && m[0] != '/' && m[0] != '.'
    &&& m.last() != '/'
    &&& !holds(m, ".."@)
    &&& !holds(m, "://"@)
    &&& !m.contains('\\')
    &&& parts.len() == 2
    &&& parts[0].len() > 0
    &&& parts[1].len() > 0
}

pub fn looks_like_huggingface_repo_id(model: &str) -> (r: bool)
    ensures
        r == looks_like_repo(model@),
{
    let trimmed_model = str_trim(model);
    let m = trimmed_model.as_str();
    let first = match crate::text::first_char(m) {
        Some(c) => c,
        None => {
            return false;
        },
    };
    if first == '-' || first == '/' || first == '.' {
        return false;
    }
    let last = match crate::text::last_char(m) {
        Some(c) => c,
        None => {
            return false;
        },
    };
    if last == '/' || str_contains(m, "..") || str_contains(m, "://") || str_contains_char(
        m,
        '\\',
    ) {
        return false;
    }
    let parts = str_split(m, '/');
    assert(views(parts@).len() == parts@.len());
    if parts.len() != 2 {
        return false;
    }
    assert(views(parts@)[0] == parts@[0]@);
    assert(views(parts@)[1] == parts@[1]@);
    !parts[0].as_str().is_empty() && !parts[1].as_str().is_empty()
}

/// How looking a model up in the store came out.
pub enum StoreLookup {
    Found,
    NotInstalled,
    Failed(String),
}

/// What an estimate is made from.
#[derive(Clone, Copy, Debug, PartialEq, Eq, Structural)]
pub enum EstimateOrigin {
    Installed,
    Remote,
}

pub open spec fn estimate_origin(
    lookup: StoreLookup,
    model: Seq<char>,
    has_file: bool,
) -> Result<EstimateOrigin, Seq<char>> {
    match lookup {
        StoreLookup::Found => if has_file {
            Err(
                "`--file` is only supported for remote Hugging Face estimates before a model is pulled"@,
            )
        } else {
            Ok(EstimateOrigin::Installed)
        },
        StoreLookup::NotInstalled => if looks_like_repo(model) {
            Ok(EstimateOrigin::Remote)
        } else {
            Err(
                "model '"@ + model + "' is not installed; run `werk pull "@ + model + "` first"@,
            )
        },
        StoreLookup::Failed(message) => Err(message@),
    }
}

pub open spec fn origin_view(r: Result<EstimateOrigin, String>) -> Result<EstimateOrigin, Seq<char>> {
    match r {
        Ok(origin) => Ok(origin),
        Err(message) => Err(message@),
    }
}

/// Decides whether a model is estimated from the store or from its remote
/// listing.
pub fn estimate_model_or_huggingface(
    lookup: StoreLookup,
    model: &str,
    include_file: Option<&str>,
) -> (r: Result<EstimateOrigin, String>)
    ensures
        origin_view(r) == estimate_origin(lookup, model@, include_file is Some),
{
    match lookup {
        StoreLookup::Found => if include_file.is_some() {
            Err(
                "`--file` is only supported for remote Hugging Face estimates before a model is pulled".to_owned(),
            )
        } else {
            Ok(EstimateOrigin::Installed)
        },
        StoreLookup::NotInstalled => if looks_like_huggingface_repo_id(model) {
            Ok(EstimateOrigin::Remote)
        } else {
            Err(
                join5("model '", model, "' is not installed; run `werk pull ", model, "` first"),
            )
        },
        StoreLookup::Failed(message) => Err(message),
    }
}

// ---------------------------------------------------------------------------
// Rendering
// ---------------------------------------------------------------------------

/// A label, a value and the end of the line.
pub open spec fn line(label: Seq<char>, value: Seq<char>) -> Seq<char> {
    label + value + "\n"@
}

fn push_line(out: &mut String, label: &str, value: &str)
    ensures
        final(out)@ == old(out)@ + line(label@, value@),
{
    let text = join3(label, value, "\n");
    out.push_str(text.as_str());
}

/// The items, each on a line of its own behind a dash.
pub open spec fn dashed(items: Seq<Seq<char>>) -> Seq<char>
    decreases items.len(),
{
    if items.len() == 0 {
        Seq::empty()
    } else {
        dashed(items.drop_last()) + line("  - "@, items.last())
    }
}

fn push_dashed(out: &mut String, items: &Vec<String>)
    ensures
        final(out)@ == old(out)@ + dashed(views(items@)),
{
    let ghost start = out@;
    let ghost all = views(items@);
    let mut i: usize = 0;
    assert(start + dashed(all.take(0)) =~= start);
    while i < items.len()
        invariant
            i <= items@.len(),
            all == views(items@),
            out@ == start + dashed(all.take(i as int)),
        decreases items@.len() - i,
    {
        assert(all.take(i + 1).drop_last() =~= all.take(i as int));
        push_line(out, "  - ", items[i].as_str());
        assert(start + dashed(all.take(i as int)) + line("  - "@, all[i as int]) =~= start + dashed(
            all.take(i + 1),
        ));
        i = i + 1;
    }
    assert(all.take(all.len() as int) =~= all);
}

/// The items behind dashes, or a line that says there are none.
pub open spec fn dashed_or_none(items: Seq<Seq<char>>) -> Seq<char> {
    if items.len() == 0 {
        "  - none\n"@
    } else {
        dashed(items)
    }
}

fn push_dashed_or_none(out: &mut String, items: &Vec<String>)
    ensures
        final(out)@ == old(out)@ + dashed_or_none(views(items@)),
{
    if items.len() == 0 {
        out.push_str("  - none\n");
    } else {
        push_dashed(out, items);
    }
}

/// A file of the report: its path, its size and the reason.
pub open spec fn file_item(e: EntryView) -> Seq<char> {
    e.path + " ("@ + bytes_text(e.size as nat) + ", "@ + e.reason + ")"@
}

pub open spec fn file_items(entries: Seq<EntryView>) -> Seq<Seq<char>> {
    entries.map_values(|e: EntryView| file_item(e))
}

fn describe_files(entries: &Vec<EstimateFileEntry>) -> (r: Vec<String>)
    ensures
        views(r@) == file_items(entry_views(entries@)),
{
    let mut r: Vec<String> = Vec::new();
    let mut i: usize = 0;
    while i < entries.len()
        invariant
            i <= entries@.len(),
            r@.len() == i,
            forall|j: int| 0 <= j < i ==> (#[trigger] r@[j])@ == file_item(entries@[j]@),
        decreases entries@.len() - i,
    {
        let e = &entries[i];
        let size = format_bytes(e.size);
        let mut item = join5(e.path.as_str(), " (", size.as_str(), ", ", e.reason.as_str());
        item.push_str(")");
        r.push(item);
        i = i + 1;
    }
    assert(views(r@) =~= file_items(entry_views(entries@)));
    r
}

pub open spec fn report_head(r: ReportView) -> Seq<char> {
    line("Model:        "@, r.model) + (match r.source_url {
        Some(url) => line("Source:       "@, url),
        None => Seq::empty(),
    }) + line("Format:       "@, r.format) + line("Architecture: "@, r.architecture) + line(
        "Backend:      "@,
        r.backend_hint,
    ) + "\n"@
}

pub open spec fn report_numbers(r: ReportView) -> Seq<char> {
    line("Weights:      "@, bytes_text(r.model_files_bytes as nat)) + line(
        "Runtime:      "@,
        bytes_text(r.runtime_overhead_bytes as nat),
    ) + line("KV cache:     "@, bytes_text(r.kv_cache_bytes as nat)) + line(
        "Total:        "@,
        bytes_text(r.estimated_total_bytes as nat),
    ) + "\n"@ + line("System memory:     "@, optional_bytes_text(Some(r.system_total_bytes))) + line(
        "Available memory:  "@,
        optional_bytes_text(r.system_available_bytes),
    ) + line("Confidence:        "@, r.confidence.name())
}

pub open spec fn report_measured(r: ReportView) -> Seq<char> {
    match r.measured_peak_memory_bytes {
        Some(peak) => "\n"@ + line("Measured peak:     "@, bytes_text(peak as nat)),
        None => Seq::empty(),
    }
}

pub open spec fn report_notes(r: ReportView) -> Seq<char> {
    if r.notes.len() == 0 {
        Seq::empty()
    } else {
        "\nNotes:\n"@ + dashed(r.notes)
    }
}

pub open spec fn report_files(r: ReportView) -> Seq<char> {
    "\nSelected model file(s):\n"@ + dashed_or_none(r.selected_model_files)
        + "Weight files counted:\n"@ + dashed_or_none(file_items(r.weight_files))
        + "Files ignored:\n"@ + dashed_or_none(file_items(r.ignored_files)) + line(
        "Total counted weight bytes: "@,
        decimal(r.model_files_bytes as nat),
    )
}

pub open spec fn report_verdict(r: ReportView) -> Seq<char> {
    "\n"@ + line("Result:       "@, r.result.name()) + "\nRecommendation:\n"@ + line(
        "  "@,
        r.recommendation,
    )
}

/// The whole report.
pub open spec fn report_text(r: ReportView, verbose: bool) -> Seq<char> {
    report_head(r) + report_numbers(r) + report_measured(r) + report_notes(r) + (if verbose {
        report_files(r)
    } else {
        Seq::empty()
    }) + report_verdict(r)
}

fn render_head(report: &EstimateReport) -> (out: String)
    ensures
        out@ == report_head(report@),
{
    let mut out = join3("Model:        ", report.model.as_str(), "\n");
    match &report.source_url {
        Some(url) => {
            push_line(&mut out, "Source:       ", url.as_str());
        },
        None => {
            assert(out@ =~= out@ + Seq::<char>::empty());
        },
    }
    push_line(&mut out, "Format:       ", report.format.as_str());
    push_line(&mut out, "Architecture: ", report.architecture.as_str());
    push_line(&mut out, "Backend:      ", report.backend_hint.as_str());
    out.push_str("\n");
    out
}

fn render_numbers(report: &EstimateReport) -> (out: String)
    ensures
        out@ == report_numbers(report@),
{
    let mut out = join3("Weights:      ", format_bytes(report.model_files_bytes).as_str(), "\n");
    push_line(&mut out, "Runtime:      ", format_bytes(report.runtime_overhead_bytes).as_str());
    push_line(&mut out, "KV cache:     ", format_bytes(report.kv_cache_bytes).as_str());
    push_line(&mut out, "Total:        ", format_bytes(report.estimated_total_bytes).as_str());
    out.push_str("\n");
    push_line(
        &mut out,
        "System memory:     ",
        format_optional_bytes(Some(report.system_total_bytes)).as_str(),
    );
    push_line(
        &mut out,
        "Available memory:  ",
        format_optional_bytes(report.system_available_bytes).as_str(),
    );
    push_line(&mut out, "Confidence:        ", report.confidence.display());
    out
}

fn render_files(report: &EstimateReport) -> (out: String)
    ensures
        out@ == report_files(report@),
{
    let mut out = "\nSelected model file(s):\n".to_owned();
    push_dashed_or_none(&mut out, &report.selected_model_files);
    out.push_str("Weight files counted:\n");
    let counted = describe_files(&report.weight_files);
    push_dashed_or_none(&mut out, &counted);
    out.push_str("Files ignored:\n");
    let ignored = describe_files(&report.ignored_files);
    push_dashed_or_none(&mut out, &ignored);
    push_line(
        &mut out,
        "Total counted weight bytes: ",
        u64_text(report.model_files_bytes).as_str(),
    );
    out
}

fn render_verdict(report: &EstimateReport) -> (out: String)
    ensures
        out@ == report_verdict(report@),
{
    let mut out = "\n".to_owned();
    push_line(&mut out, "Result:       ", report.result.display());
    out.push_str("\nRecommendation:\n");
    push_line(&mut out, "  ", report.recommendation.as_str());
    out
}

fn render_measured(report: &EstimateReport) -> (out: String)
    ensures
        out@ == report_measured(report@),
{
    match report.measured_peak_memory_bytes {
        Some(peak) => {
            let mut out = "\n".to_owned();
            push_line(&mut out, "Measured peak:     ", format_bytes(peak).as_str());
            out
        },
        None => String::new(),
    }
}

fn render_notes(report: &EstimateReport) -> (out: String)
    ensures
        out@ == report_notes(report@),
{
    if report.notes.len() == 0 {
        String::new()
    } else {
        let mut out = "\nNotes:\n".to_owned();
        push_dashed(&mut out, &report.notes);
        out
    }
}

/// Renders an estimate; a verbose one lists the files.
pub fn format_estimate_report(report: &EstimateReport, verbose: bool) -> (output: String)
    ensures
        output@ == report_text(report@, verbose),
{
    let mut output = render_head(report);
    output.push_str(render_numbers(report).as_str());
    output.push_str(render_measured(report).as_str());
    output.push_str(render_notes(report).as_str());
    if verbose {
        output.push_str(render_files(report).as_str());
    } else {
        assert(output@ =~= output@ + Seq::<char>::empty());
    }
    output.push_str(render_verdict(report).as_str());
    output
}

/// Every report ends with the end of a line.
pub proof fn report_ends_with_newline(r: ReportView, verbose: bool)
    ensures
        report_text(r, verbose).len() > 0,
        report_text(r, verbose).last() == '\n',
{
    reveal_strlit("\n");
    let tail = line("  "@, r.recommendation);
    assert(tail.last() == '\n');
}

// ---------------------------------------------------------------------------
// What a report is for
// ---------------------------------------------------------------------------

/// The total is what the weights, the runtime and the cache take together, the weights
/// being the sum of the files that count, and the result is that of the total.
pub proof fn totals_are_sums(
    m: ModelManifest,
    a: AccountingView,
    config: Option<ConfigView>,
    on_macos: bool,
    system: SystemMemory,
    best: EstimateConfidence,
)
    requires
        total_size(a.counted) <= u64::MAX,
    ensures
        ({
            let r = estimate_of(m, a, config, on_macos, system, best);
            let sum = r.weight_files_bytes + r.runtime_overhead_bytes + r.kv_cache_bytes;
            &&& r.weight_files_bytes == total_size(a.counted)
            &&& r.model_files_bytes == r.weight_files_bytes
            &&& sum <= u64::MAX ==> r.estimated_total_bytes == sum
            &&& sum > u64::MAX ==> r.estimated_total_bytes == u64::MAX
            &&& r.result == verdict(
                r.estimated_total_bytes as nat,
                system.total_bytes,
                system.available_bytes,
            )
            &&& r.weight_files == a.counted
            &&& r.ignored_files == a.ignored
            &&& r.selected_model_files == a.selected
            &&& r.system_available_bytes == system.available_bytes
            &&& system.total_bytes is Some ==> r.system_total_bytes == system.total_bytes->0
            &&& r.model == m.id@
            &&& m.architecture is Some ==> r.architecture == m.architecture->0@
            &&& m.architecture is None ==> r.architecture == "unknown"@
        }),
{
}

/// A report is no surer than what it rests on: not where no weights were found, nor
/// where the files or the cache were guessed; and all of it sure makes it as sure as it
/// can be.
pub proof fn reports_are_no_surer_than_their_grounds(
    m: ModelManifest,
    a: AccountingView,
    config: Option<ConfigView>,
    on_macos: bool,
    system: SystemMemory,
    best: EstimateConfidence,
)
    requires
        total_size(a.counted) <= u64::MAX,
    ensures
        ({
            let r = estimate_of(m, a, config, on_macos, system, best);
            let cache = cache_estimate(
                total_size(a.counted) as u64,
                opt_view(m.architecture),
                config,
            );
            &&& total_size(a.counted) == 0 ==> r.confidence is Low
            &&& a.confidence is Low || cache.confidence is Low || best is Low ==> r.confidence is Low
            &&& r.confidence is High ==> a.confidence is High && cache.confidence is High && best
                is High
            &&& a.confidence is High && cache.confidence is High && total_size(a.counted) > 0
                ==> r.confidence == best
            &&& r.config_used == cache.config_used
            &&& r.kv_cache_bytes == cache.bytes
        }),
{
}

/// What is recommended and said of a model follows its result and its format.
pub proof fn advice_follows_the_result(r: ReportView)
    ensures
        recommendation(EstimateResult::Fits) != recommendation(EstimateResult::LikelyOom),
        backend_hint_name(ModelFormat::Gguf, true) == "llama.cpp"@,
        backend_hint_name(ModelFormat::Gguf, false) == "llama.cpp"@,
        backend_hint_name(ModelFormat::SafeTensors, true) == backend_hint_name(
            ModelFormat::Mlx,
            true,
        ),
        backend_hint_name(ModelFormat::SafeTensors, false) == "Candle"@,
        backend_hint_name(ModelFormat::Mlx, false) == "MLX"@,
        backend_hint_name(ModelFormat::Onnx, false) == "ONNX Runtime"@,
{
    reveal_strlit("This model is likely to fit under the current heuristic.");
    reveal_strlit(
        "Use a smaller or quantized model, reduce max tokens, or close memory-heavy applications.",
    );
    assert(recommendation(EstimateResult::Fits)[0] == 'T');
    assert(recommendation(EstimateResult::LikelyOom)[0] == 'U');
}

/// The measurement that is shown is one of the model, and none of it is later.
pub proof fn latest_measurements_are_shown(
    all: Seq<EstimateObservation>,
    model: Seq<char>,
    j: int,
)
    ensures
        match latest_measurement(all, model) {
            Some(i) => {
                &&& 0 <= i < all.len()
                &&& all[i].model@ == model
                &&& all[i].measured_peak_memory_bytes is Some
                &&& 0 <= j < all.len() && all[j].model@ == model
                    && all[j].measured_peak_memory_bytes is Some && all[j].timestamp is Some
                    ==> all[i].timestamp is Some && all[j].timestamp->0 <= all[i].timestamp->0
                    || all[j].timestamp->0 == 0
            },
            None => 0 <= j < all.len() && all[j].model@ == model
                ==> all[j].measured_peak_memory_bytes is None,
        },
    decreases all.len(),
{
    if all.len() > 0 {
        latest_measurements_are_shown(all.drop_last(), model, j);
        if let Some(i) = latest_measurement(all.drop_last(), model) {
            assert(all[i] == all.drop_last()[i]);
        }
        if 0 <= j < all.len() - 1 {
            assert(all[j] == all.drop_last()[j]);
        }
    }
}

/// An installed model is estimated from the store, one that is not and has the name of a
/// repository from the hub, and a single file can only be asked for there.
pub proof fn models_are_looked_for_in_the_store_first(model: Seq<char>, message: String)
    ensures
        estimate_origin(StoreLookup::Found, model, false) == Ok::<EstimateOrigin, Seq<char>>(
            EstimateOrigin::Installed,
        ),
        estimate_origin(StoreLookup::Found, model, true) is Err,
        looks_like_repo(model) ==> forall|has_file: bool| #[trigger]
            estimate_origin(StoreLookup::NotInstalled, model, has_file) == Ok::<
                EstimateOrigin,
                Seq<char>,
            >(EstimateOrigin::Remote),
        !looks_like_repo(model) ==> forall|has_file: bool| #[trigger]
            estimate_origin(StoreLookup::NotInstalled, model, has_file) is Err,
        forall|has_file: bool| #[trigger]
            estimate_origin(StoreLookup::Failed(message), model, has_file) == Err::<
                EstimateOrigin,
                Seq<char>,
            >(message@),
{
}

/// Two plain words with a slash between them are the name of a repository.
pub proof fn owners_and_names_are_repositories(model: Seq<char>)
    ensures
        looks_like_repo(model) ==> split(trimmed(model), '/').len() == 2,
        looks_like_repo(model) ==> trimmed(model)[0] != '/' && trimmed(model)[0] != '.' && trimmed(
            model,
        )[0] != '-' && !trimmed(model).contains('\\'),
        trimmed(model) == model && split(model, '/').len() == 2 && split(model, '/')[0].len() > 0
            && split(model, '/')[1].len() > 0 && model.len() > 0 && model[0] != '-' && model[0]
            != '/' && model[0] != '.' && model.last() != '/' && !holds(model, ".."@) && !holds(
            model,
            "://"@,
        ) && !model.contains('\\') ==> looks_like_repo(model),
{
}

} // verus!

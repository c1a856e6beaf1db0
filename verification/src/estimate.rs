//! How much memory a model needs: which of its files count as weights, what the
//! runtime and the key-value cache add, and how the sum compares with the
//! memory of the machine.

use vstd::prelude::*;

use crate::binary64::{is_within, limits_keep_the_order, within, Ratio};
use crate::json::{field, parse_json, Json, JsonView};
use crate::manifest::{file_at, find_file, ModelFile, ModelFormat, ModelManifest};
use crate::order::{ascending_set, sorted_set};
use crate::paths::{
    child, directory, extension, extension_eq_str, file_name, has_extension, path_child,
    path_directory, path_extension, path_file_name,
};
use crate::text::{
    join2, join3, lowered, opt_str_view, opt_view, replaced, split, str_ends_with, str_eq,
    str_lower, str_replace_char, str_split, str_starts_with, strings_contain, views,
};

verus! {

// ---------------------------------------------------------------------------
// Verdicts
// ---------------------------------------------------------------------------

#[derive(Clone, Copy, Debug, PartialEq, Eq, Structural)]
pub enum EstimateResult {
    Fits,
    Warning,
    LikelyOom,
}

impl EstimateResult {
    pub open spec fn name(self) -> Seq<char> {
        match self {
            EstimateResult::Fits => "OK"@,
            EstimateResult::Warning => "warning"@,
            EstimateResult::LikelyOom => "likely OOM"@,
        }
    }

    pub fn display(self) -> (r: &'static str)
        ensures
            r@ == self.name(),
    {
        match self {
            EstimateResult::Fits => "OK",
            EstimateResult::Warning => "warning",
            EstimateResult::LikelyOom => "likely OOM",
        }
    }

    /// The word for it in a JSON report.
    pub fn json_word(self) -> (r: &'static str)
        ensures
            r@ == match self {
                EstimateResult::Fits => "ok"@,
                EstimateResult::Warning => "warning"@,
                EstimateResult::LikelyOom => "likely_oom"@,
            },
    {
        match self {
            EstimateResult::Fits => "ok",
            EstimateResult::Warning => "warning",
            EstimateResult::LikelyOom => "likely_oom",
        }
    }

    /// How bad a result is.
    pub open spec fn severity(self) -> int {
        match self {
            EstimateResult::Fits => 0,
            EstimateResult::Warning => 1,
            EstimateResult::LikelyOom => 2,
        }
    }
}

#[derive(Clone, Copy, Debug, PartialEq, Eq, Structural)]
pub enum EstimateConfidence {
    Low,
    Medium,
    High,
}

impl EstimateConfidence {
    pub open spec fn name(self) -> Seq<char> {
        match self {
            EstimateConfidence::High => "HIGH"@,
            EstimateConfidence::Medium => "MEDIUM"@,
            EstimateConfidence::Low => "LOW"@,
        }
    }

    pub fn display(self) -> (r: &'static str)
        ensures
            r@ == self.name(),
    {
        match self {
            EstimateConfidence::High => "HIGH",
            EstimateConfidence::Medium => "MEDIUM",
            EstimateConfidence::Low => "LOW",
        }
    }

    /// The word for it in a JSON report.
    pub fn json_word(self) -> (r: &'static str)
        ensures
            r@ == match self {
                EstimateConfidence::High => "high"@,
                EstimateConfidence::Medium => "medium"@,
                EstimateConfidence::Low => "low"@,
            },
    {
        match self {
            EstimateConfidence::High => "high",
            EstimateConfidence::Medium => "medium",
            EstimateConfidence::Low => "low",
        }
    }

    pub open spec fn rank(self) -> int {
        match self {
            EstimateConfidence::Low => 0,
            EstimateConfidence::Medium => 1,
            EstimateConfidence::High => 2,
        }
    }

    /// The lower of two confidences.
    pub open spec fn lower_of(self, other: Self) -> Self {
        if self.rank() <= other.rank() {
            self
        } else {
            other
        }
    }

    pub fn min(self, other: Self) -> (r: Self)
        ensures
            r == self.lower_of(other),
    {
        match (self, other) {
            (EstimateConfidence::Low, _) => self,
            (_, EstimateConfidence::Low) => other,
            (EstimateConfidence::Medium, _) => self,
            (_, EstimateConfidence::Medium) => other,
            _ => self,
        }
    }
}

pub open spec fn recommendation(result: EstimateResult) -> Seq<char> {
    match result {
        EstimateResult::Fits => "This model is likely to fit under the current heuristic."@,
        EstimateResult::Warning =>
            "This model may fit, but it is close to the available-memory limit; close memory-heavy applications or reduce max tokens."@,
        EstimateResult::LikelyOom =>
            "Use a smaller or quantized model, reduce max tokens, or close memory-heavy applications."@,
    }
}

pub fn estimate_recommendation(result: EstimateResult) -> (r: &'static str)
    ensures
        r@ == recommendation(result),
{
    match result {
        EstimateResult::Fits => "This model is likely to fit under the current heuristic.",
        EstimateResult::Warning =>
            "This model may fit, but it is close to the available-memory limit; close memory-heavy applications or reduce max tokens.",
        EstimateResult::LikelyOom =>
            "Use a smaller or quantized model, reduce max tokens, or close memory-heavy applications.",
    }
}

/// The verdict on an estimate against a limit and two fractions of it.
pub open spec fn classified(
    estimated: nat,
    limit: nat,
    ok_ratio: Ratio,
    warning_ratio: Ratio,
) -> EstimateResult {
    if within(estimated, limit, ok_ratio) {
        EstimateResult::Fits
    } else if within(estimated, limit, warning_ratio) {
        EstimateResult::Warning
    } else {
        EstimateResult::LikelyOom
    }
}

pub fn classify_against_limit(
    estimated_total_bytes: u64,
    limit_bytes: u64,
    ok_ratio: Ratio,
    warning_ratio: Ratio,
) -> (r: EstimateResult)
    ensures
        r == classified(
            estimated_total_bytes as nat,
            limit_bytes as nat,
            ok_ratio,
            warning_ratio,
        ),
{
    if is_within(estimated_total_bytes, limit_bytes, ok_ratio) {
        EstimateResult::Fits
    } else if is_within(estimated_total_bytes, limit_bytes, warning_ratio) {
        EstimateResult::Warning
    } else {
        EstimateResult::LikelyOom
    }
}

/// How a total compares: with the available memory where it is known, else with
/// the total memory, else a warning.
pub open spec fn verdict(
    estimated: nat,
    total: Option<u64>,
    available: Option<u64>,
) -> EstimateResult {
    if available is Some && available->0 > 0 {
        classified(estimated, available->0 as nat, Ratio::Percent70, Ratio::Percent85)
    } else if total is Some && total->0 > 0 {
        classified(estimated, total->0 as nat, Ratio::Percent50, Ratio::Percent65)
    } else {
        EstimateResult::Warning
    }
}

pub fn estimate_result(
    estimated_total_bytes: u64,
    system_total_bytes: Option<u64>,
    system_available_bytes: Option<u64>,
) -> (r: EstimateResult)
    ensures
        r == verdict(estimated_total_bytes as nat, system_total_bytes, system_available_bytes),
{
    if let Some(available) = system_available_bytes {
        if available > 0 {
            return classify_against_limit(
                estimated_total_bytes,
                available,
                Ratio::Percent70,
                Ratio::Percent85,
            );
        }
    }
    if let Some(total) = system_total_bytes {
        if total > 0 {
            return classify_against_limit(
                estimated_total_bytes,
                total,
                Ratio::Percent50,
                Ratio::Percent65,
            );
        }
    }
    EstimateResult::Warning
}

/// More bytes never look better, and more memory, of the kind that decides,
/// never looks worse.
pub proof fn results_keep_the_order(a: nat, b: nat, low: u64, high: u64, total: Option<u64>)
    requires
        a <= b,
        0 < low <= high,
    ensures
        verdict(a, total, Some(high)).severity() <= verdict(b, total, Some(low)).severity(),
        verdict(a, Some(high), None).severity() <= verdict(b, Some(low), None).severity(),
{
    let (l, h) = (low as nat, high as nat);
    if within(b, l, Ratio::Percent70) {
        limits_keep_the_order(a, b, l, h, Ratio::Percent70);
    }
    if within(b, l, Ratio::Percent85) {
        limits_keep_the_order(a, b, l, h, Ratio::Percent85);
    }
    if within(b, l, Ratio::Percent50) {
        limits_keep_the_order(a, b, l, h, Ratio::Percent50);
    }
    if within(b, l, Ratio::Percent65) {
        limits_keep_the_order(a, b, l, h, Ratio::Percent65);
    }
}

// ---------------------------------------------------------------------------
// Which files count
// ---------------------------------------------------------------------------

/// A file in a report, with the reason why it was counted or ignored.
#[derive(Clone, Debug)]
pub struct EstimateFileEntry {
    pub path: String,
    pub size: u64,
    pub reason: String,
}

pub ghost struct EntryView {
    pub path: Seq<char>,
    pub size: u64,
    pub reason: Seq<char>,
}

impl EstimateFileEntry {
    pub open spec fn view(&self) -> EntryView {
        EntryView { path: self.path@, size: self.size, reason: self.reason@ }
    }
}

pub open spec fn entry_views(entries: Seq<EstimateFileEntry>) -> Seq<EntryView> {
    entries.map_values(|e: EstimateFileEntry| e@)
}

pub open spec fn entry(file: ModelFile, reason: Seq<char>) -> EntryView {
    EntryView { path: file.path@, size: file.size, reason }
}

pub fn estimate_file_entry(file: &ModelFile, reason: &str) -> (r: EstimateFileEntry)
    ensures
        r@ == entry(*file, reason@),
{
    EstimateFileEntry { path: file.path.clone(), size: file.size, reason: reason.to_owned() }
}

/// Which files of a model were counted as weights, which were not, and how sure
/// that is.
#[derive(Clone, Debug)]
pub struct WeightAccounting {
    pub counted: Vec<EstimateFileEntry>,
    pub ignored: Vec<EstimateFileEntry>,
    pub selected: Vec<String>,
    pub confidence: EstimateConfidence,
}

pub ghost struct AccountingView {
    pub counted: Seq<EntryView>,
    pub ignored: Seq<EntryView>,
    pub selected: Seq<Seq<char>>,
    pub confidence: EstimateConfidence,
}

/// The sizes of the entries added up.
pub open spec fn total_size(entries: Seq<EntryView>) -> nat
    decreases entries.len(),
{
    if entries.len() == 0 {
        0
    } else {
        total_size(entries.drop_last()) + entries.last().size as nat
    }
}

pub proof fn lemma_total_size_take(entries: Seq<EntryView>, i: int)
    requires
        0 <= i <= entries.len(),
    ensures
        total_size(entries.take(i)) <= total_size(entries),
    decreases entries.len() - i,
{
    if i == entries.len() {
        assert(entries.take(i) =~= entries);
    } else {
        lemma_total_size_take(entries, i + 1);
        assert(entries.take(i + 1).drop_last() =~= entries.take(i));
    }
}

impl WeightAccounting {
    pub open spec fn view(&self) -> AccountingView {
        AccountingView {
            counted: entry_views(self.counted@),
            ignored: entry_views(self.ignored@),
            selected: views(self.selected@),
            confidence: self.confidence,
        }
    }

    /// The sizes of the counted files added up.
    pub fn total_bytes(&self) -> (r: u64)
        requires
            total_size(self@.counted) <= u64::MAX,
        ensures
            r == total_size(self@.counted),
    {
        let mut sum: u64 = 0;
        let mut i: usize = 0;
        let ghost all = entry_views(self.counted@);
        while i < self.counted.len()
            invariant
                i <= self.counted@.len(),
                all == entry_views(self.counted@),
                sum == total_size(all.take(i as int)),
                total_size(all) <= u64::MAX,
            decreases self.counted@.len() - i,
        {
            proof {
                lemma_total_size_take(all, i + 1);
                assert(all.take(i + 1).drop_last() =~= all.take(i as int));
                assert(all.take(i + 1).last() == self.counted@[i as int]@);
            }
            sum = sum + self.counted[i].size;
            i = i + 1;
        }
        assert(all.take(all.len() as int) =~= all);
        sum
    }
}

impl WeightAccounting {
    /// The sizes of the counted files added up, where a `u64` holds the sum.
    pub fn checked_total(&self) -> (r: Option<u64>)
        ensures
            match r {
                Some(n) => n == total_size(self@.counted),
                None => total_size(self@.counted) > u64::MAX,
            },
    {
        let mut sum: u64 = 0;
        let mut i: usize = 0;
        let ghost all = entry_views(self.counted@);
        while i < self.counted.len()
            invariant
                i <= self.counted@.len(),
                all == entry_views(self.counted@),
                sum == total_size(all.take(i as int)),
            decreases self.counted@.len() - i,
        {
            proof {
                lemma_total_size_take(all, i + 1);
                assert(all.take(i + 1).drop_last() =~= all.take(i as int));
                assert(all.take(i + 1).last() == self.counted@[i as int]@);
            }
            match sum.checked_add(self.counted[i].size) {
                Some(next) => {
                    sum = next;
                },
                None => {
                    return None;
                },
            }
            i = i + 1;
        }
        assert(all.take(all.len() as int) =~= all);
        Some(sum)
    }
}

/// The names of directories whose contents are never weights.
pub open spec fn is_cache_part(part: Seq<char>) -> bool {
    part == ".git"@ || part == ".cache"@ || part == "cache"@ || part == "tmp"@ || part == "temp"@
        || part == "__pycache__"@
}

pub open spec fn is_metadata_name(name: Seq<char>) -> bool {
    name == "readme.md"@ || name == "license"@ || name == "license.md"@ || name == "tokenizer.json"@
        || name == "tokenizer_config.json"@ || name == "special_tokens_map.json"@ || name
        == "generation_config.json"@ || name == "config.json"@ || name == "merges.txt"@ || name
        == "vocab.json"@ || name == "added_tokens.json"@ || "chat_template"@.is_prefix_of(name)
}

pub open spec fn some_part(parts: Seq<Seq<char>>, p: spec_fn(Seq<char>) -> bool) -> bool {
    exists|i: int| 0 <= i < parts.len() && p(#[trigger] parts[i])
}

/// The last part of a path, or nothing.
pub open spec fn name_or_empty(path: Seq<char>) -> Seq<char> {
    match file_name(path) {
        Some(name) => name,
        None => Seq::empty(),
    }
}

/// A file that is never a weight: in a cache directory, below `artifacts`
/// (unless such a file was selected), or named like metadata.
pub open spec fn is_ignored_path(path: Seq<char>, selected_runtime_artifact: bool) -> bool {
    let low = lowered(path);
    ||| some_part(split(low, '/'), |part: Seq<char>| is_cache_part(part))
    ||| !selected_runtime_artifact && some_part(
        split(low, '/'),
        |part: Seq<char>| part == "artifacts"@,
    )
    ||| is_metadata_name(name_or_empty(low))
}

fn cache_part(part: &str) -> (r: bool)
    ensures
        r == is_cache_part(part@),
{
    str_eq(part, ".git") || str_eq(part, ".cache") || str_eq(part, "cache") || str_eq(part, "tmp")
        || str_eq(part, "temp") || str_eq(part, "__pycache__")
}

fn metadata_name(name: &str) -> (r: bool)
    ensures
        r == is_metadata_name(name@),
{
    str_eq(name, "readme.md") || str_eq(name, "license") || str_eq(name, "license.md") || str_eq(
        name,
        "tokenizer.json",
    ) || str_eq(name, "tokenizer_config.json") || str_eq(name, "special_tokens_map.json") || str_eq(
        name,
        "generation_config.json",
    ) || str_eq(name, "config.json") || str_eq(name, "merges.txt") || str_eq(name, "vocab.json")
        || str_eq(name, "added_tokens.json") || str_starts_with(name, "chat_template")
}

fn file_name_or_empty(path: &str) -> (r: String)
    ensures
        r@ == name_or_empty(path@),
{
    match path_file_name(path) {
        Some(name) => name,
        None => String::new(),
    }
}

pub fn should_ignore_estimate_file(path: &str, selected_runtime_artifact: bool) -> (r: bool)
    ensures
        r == is_ignored_path(path@, selected_runtime_artifact),
{
    let lower = str_lower(path);
    let parts = str_split(lower.as_str(), '/');
    let ghost all = split(lower@, '/');
    let mut cached = false;
    let mut artifact = false;
    let mut i: usize = 0;
    while i < parts.len()
        invariant
            i <= parts@.len(),
            all == views(parts@),
            cached == exists|j: int| 0 <= j < i && is_cache_part(#[trigger] all[j]),
            artifact == exists|j: int| 0 <= j < i && #[trigger] all[j] == "artifacts"@,
        decreases parts@.len() - i,
    {
        let part = parts[i].as_str();
        assert(part@ == all[i as int]);
        if cache_part(part) {
            cached = true;
        }
        if str_eq(part, "artifacts") {
            artifact = true;
        }
        i = i + 1;
    }
    proof {
        assert(cached == some_part(all, |part: Seq<char>| is_cache_part(part))) by {
            let p = |part: Seq<char>| is_cache_part(part);
            if cached {
                let j = choose|j: int| 0 <= j < i && is_cache_part(#[trigger] all[j]);
                assert(p(all[j]));
            }
            if some_part(all, p) {
                let j = choose|j: int| 0 <= j < all.len() && p(#[trigger] all[j]);
                assert(is_cache_part(all[j]));
            }
        }
        assert(artifact == some_part(all, |part: Seq<char>| part == "artifacts"@)) by {
            let p = |part: Seq<char>| part == "artifacts"@;
            if artifact {
                let j = choose|j: int| 0 <= j < i && #[trigger] all[j] == "artifacts"@;
                assert(p(all[j]));
            }
            if some_part(all, p) {
                let j = choose|j: int| 0 <= j < all.len() && p(#[trigger] all[j]);
                assert(all[j] == "artifacts"@);
            }
        }
    }
    let name = file_name_or_empty(lower.as_str());
    cached || (!selected_runtime_artifact && artifact) || metadata_name(name.as_str())
}

/// A file that is named like weights.
pub open spec fn is_weight_path(path: Seq<char>) -> bool {
    let low = lowered(path);
    let name = name_or_empty(low);
    if ".onnx_data"@.is_suffix_of(low) {
        true
    } else if has_extension(low, "bin"@) {
        "pytorch_model"@.is_prefix_of(name) || "model"@.is_prefix_of(name)
    } else {
        extension(low) == Some("safetensors"@) || extension(low) == Some("gguf"@) || extension(low)
            == Some("onnx"@) || extension(low) == Some("pt"@) || extension(low) == Some("pth"@)
            || extension(low) == Some("npz"@)
    }
}

pub fn is_estimate_weight_file(path: &str) -> (r: bool)
    ensures
        r == is_weight_path(path@),
{
    let lower = str_lower(path);
    let low = lower.as_str();
    let name = file_name_or_empty(low);
    if str_ends_with(low, ".onnx_data") {
        return true;
    }
    if extension_eq_str(low, "bin") {
        return str_starts_with(name.as_str(), "pytorch_model") || str_starts_with(
            name.as_str(),
            "model",
        );
    }
    match path_extension(low) {
        Some(ext) => {
            let e = ext.as_str();
            str_eq(e, "safetensors") || str_eq(e, "gguf") || str_eq(e, "onnx") || str_eq(e, "pt")
                || str_eq(e, "pth") || str_eq(e, "npz")
        },
        None => false,
    }
}

/// How the files of a model are told apart.
pub ghost enum Rule {
    /// By their names.
    Names,
    /// By whether an index refers to them.
    Shards(Seq<Seq<char>>),
}

pub open spec fn rule_counts(rule: Rule, path: Seq<char>) -> bool {
    match rule {
        Rule::Names => !is_ignored_path(path, false) && is_weight_path(path),
        Rule::Shards(shards) => shards.contains(path),
    }
}

pub open spec fn rule_reason(rule: Rule, path: Seq<char>) -> Seq<char> {
    match rule {
        Rule::Names => if is_ignored_path(path, false) {
            "non-weight metadata/cache file"@
        } else if is_weight_path(path) {
            "recognized weight file"@
        } else {
            "not a recognized weight file"@
        },
        Rule::Shards(shards) => if shards.contains(path) {
            "referenced by safetensors index"@
        } else {
            "not referenced by safetensors index"@
        },
    }
}

/// The entries of the files for which the rule gives this answer, in order.
pub open spec fn entries_by(files: Seq<ModelFile>, rule: Rule, counted: bool) -> Seq<EntryView>
    decreases files.len(),
{
    if files.len() == 0 {
        Seq::empty()
    } else {
        let rest = entries_by(files.drop_last(), rule, counted);
        let file = files.last();
        if rule_counts(rule, file.path@) == counted {
            rest.push(entry(file, rule_reason(rule, file.path@)))
        } else {
            rest
        }
    }
}

/// Every file is either counted or ignored.
pub proof fn every_file_is_accounted(files: Seq<ModelFile>, rule: Rule)
    ensures
        entries_by(files, rule, true).len() + entries_by(files, rule, false).len() == files.len(),
    decreases files.len(),
{
    if files.len() > 0 {
        every_file_is_accounted(files.drop_last(), rule);
    }
}

/// The entries of the files with another path.
pub open spec fn not_selected(files: Seq<ModelFile>, path: Seq<char>) -> Seq<EntryView>
    decreases files.len(),
{
    if files.len() == 0 {
        Seq::empty()
    } else {
        let rest = not_selected(files.drop_last(), path);
        if files.last().path@ != path {
            rest.push(entry(files.last(), "not selected for this model"@))
        } else {
            rest
        }
    }
}

/// One file is counted, and nothing else.
pub open spec fn single_accounting(
    files: Seq<ModelFile>,
    selected: ModelFile,
    reason: Seq<char>,
) -> AccountingView {
    AccountingView {
        counted: seq![entry(selected, reason)],
        ignored: not_selected(files, selected.path@),
        selected: seq![selected.path@],
        confidence: EstimateConfidence::High,
    }
}

pub fn single_selected_weight_accounting(
    manifest: &ModelManifest,
    selected_file: &ModelFile,
    reason: &str,
) -> (r: WeightAccounting)
    ensures
        r@ == single_accounting(manifest.files@, *selected_file, reason@),
{
    let mut ignored: Vec<EstimateFileEntry> = Vec::new();
    let mut i: usize = 0;
    let ghost files = manifest.files@;
    while i < manifest.files.len()
        invariant
            i <= manifest.files@.len(),
            files == manifest.files@,
            entry_views(ignored@) == not_selected(files.take(i as int), selected_file.path@),
        decreases manifest.files@.len() - i,
    {
        let file = &manifest.files[i];
        let ghost before = entry_views(ignored@);
        assert(files.take(i + 1).drop_last() =~= files.take(i as int));
        if !str_eq(file.path.as_str(), selected_file.path.as_str()) {
            ignored.push(estimate_file_entry(file, "not selected for this model"));
            assert(entry_views(ignored@) =~= before.push(
                entry(*file, "not selected for this model"@),
            ));
        }
        i = i + 1;
    }
    assert(files.take(files.len() as int) =~= files);
    let mut counted: Vec<EstimateFileEntry> = Vec::new();
    counted.push(estimate_file_entry(selected_file, reason));
    let mut selected: Vec<String> = Vec::new();
    selected.push(selected_file.path.clone());
    assert(entry_views(counted@) =~= seq![entry(*selected_file, reason@)]);
    assert(views(selected@) =~= seq![selected_file.path@]);
    WeightAccounting { counted, ignored, selected, confidence: EstimateConfidence::High }
}

/// The files with this extension.
pub open spec fn with_extension(files: Seq<ModelFile>, ext: Seq<char>) -> Seq<int>
    decreases files.len(),
{
    if files.len() == 0 {
        Seq::empty()
    } else {
        let rest = with_extension(files.drop_last(), ext);
        if has_extension(files.last().path@, ext) {
            rest.push(files.len() - 1)
        } else {
            rest
        }
    }
}

/// How many files are named like weights.
pub open spec fn weight_files(files: Seq<ModelFile>) -> nat
    decreases files.len(),
{
    if files.len() == 0 {
        0
    } else {
        weight_files(files.drop_last()) + if is_weight_path(files.last().path@) {
            1nat
        } else {
            0nat
        }
    }
}

pub open spec fn is_tensor_format(format: ModelFormat) -> bool {
    format is SafeTensors || format is Mlx || format is PyTorch
}

/// The accounting that the manifest alone gives: the selected file of a GGUF or
/// ONNX model, the one safetensors file of a tensor model, else every file that
/// is named like weights.
pub open spec fn accounting_by_manifest(m: ModelManifest) -> AccountingView {
    let files = m.files@;
    let selected = match opt_view(m.model_path) {
        Some(path) => file_at(files, path),
        None => None,
    };
    let tensors = with_extension(files, "safetensors"@);
    if (m.format is Gguf || m.format is Onnx) && selected is Some {
        single_accounting(files, files[selected->0], "selected runtime model file"@)
    } else if is_tensor_format(m.format) && tensors.len() == 1 {
        single_accounting(files, files[tensors[0]], "single safetensors weight file"@)
    } else {
        let counted = entries_by(files, Rule::Names, true);
        AccountingView {
            counted,
            ignored: entries_by(files, Rule::Names, false),
            selected: match opt_view(m.model_path) {
                Some(path) => seq![path],
                None => Seq::empty(),
            },
            confidence: if counted.len() == 0 {
                EstimateConfidence::Low
            } else if m.model_path is Some || weight_files(files) == counted.len() {
                EstimateConfidence::Medium
            } else {
                EstimateConfidence::Low
            },
        }
    }
}

fn account_by_names(manifest: &ModelManifest) -> (r: WeightAccounting)
    ensures
        r@.counted == entries_by(manifest.files@, Rule::Names, true),
        r@.ignored == entries_by(manifest.files@, Rule::Names, false),
        r@.selected == (match opt_view(manifest.model_path) {
            Some(path) => seq![path],
            None => Seq::<Seq<char>>::empty(),
        }),
        r.confidence == (if r@.counted.len() == 0 {
            EstimateConfidence::Low
        } else if manifest.model_path is Some || weight_files(manifest.files@) == r@.counted.len() {
            EstimateConfidence::Medium
        } else {
            EstimateConfidence::Low
        }),
{
    let mut counted: Vec<EstimateFileEntry> = Vec::new();
    let mut ignored: Vec<EstimateFileEntry> = Vec::new();
    let mut weights: usize = 0;
    let mut i: usize = 0;
    let ghost files = manifest.files@;
    while i < manifest.files.len()
        invariant
            i <= manifest.files@.len(),
            files == manifest.files@,
            weights == weight_files(files.take(i as int)),
            weights <= i,
            entry_views(counted@) == entries_by(files.take(i as int), Rule::Names, true),
            entry_views(ignored@) == entries_by(files.take(i as int), Rule::Names, false),
        decreases manifest.files@.len() - i,
    {
        let file = &manifest.files[i];
        let ghost c = entry_views(counted@);
        let ghost g = entry_views(ignored@);
        assert(files.take(i + 1).drop_last() =~= files.take(i as int));
        assert(files.take(i + 1).last() == *file);
        let weight = is_estimate_weight_file(file.path.as_str());
        if should_ignore_estimate_file(file.path.as_str(), false) {
            ignored.push(estimate_file_entry(file, "non-weight metadata/cache file"));
            assert(entry_views(ignored@) =~= g.push(entry(*file, "non-weight metadata/cache file"@)));
        } else if weight {
            counted.push(estimate_file_entry(file, "recognized weight file"));
            assert(entry_views(counted@) =~= c.push(entry(*file, "recognized weight file"@)));
        } else {
            ignored.push(estimate_file_entry(file, "not a recognized weight file"));
            assert(entry_views(ignored@) =~= g.push(entry(*file, "not a recognized weight file"@)));
        }
        if weight {
            weights = weights + 1;
        }
        i = i + 1;
    }
    assert(files.take(files.len() as int) =~= files);
    let mut selected: Vec<String> = Vec::new();
    if let Some(path) = &manifest.model_path {
        selected.push(path.clone());
    }
    assert(views(selected@) =~= (match opt_view(manifest.model_path) {
        Some(path) => seq![path],
        None => Seq::<Seq<char>>::empty(),
    }));
    let confidence = if counted.len() == 0 {
        EstimateConfidence::Low
    } else if manifest.model_path.is_some() || weights == counted.len() {
        EstimateConfidence::Medium
    } else {
        EstimateConfidence::Low
    };
    WeightAccounting { counted, ignored, selected, confidence }
}

fn indices_with_extension(files: &Vec<ModelFile>, ext: &str) -> (r: Vec<usize>)
    ensures
        r@.map_values(|i: usize| i as int) == with_extension(files@, ext@),
        forall|i: int| 0 <= i < r@.len() ==> #[trigger] r@[i] < files@.len(),
{
    let mut r: Vec<usize> = Vec::new();
    let mut i: usize = 0;
    while i < files.len()
        invariant
            i <= files@.len(),
            r@.map_values(|i: usize| i as int) == with_extension(files@.take(i as int), ext@),
            forall|j: int| 0 <= j < r@.len() ==> #[trigger] r@[j] < files@.len(),
        decreases files@.len() - i,
    {
        let ghost before = r@.map_values(|i: usize| i as int);
        assert(files@.take(i + 1).drop_last() =~= files@.take(i as int));
        if extension_eq_str(files[i].path.as_str(), ext) {
            r.push(i);
            assert(r@.map_values(|i: usize| i as int) =~= before.push(i as int));
        }
        i = i + 1;
    }
    assert(files@.take(files@.len() as int) =~= files@);
    r
}

/// Accounts for the files by the manifest alone.
pub fn estimate_weight_accounting_without_store(manifest: &ModelManifest) -> (r: WeightAccounting)
    ensures
        r@ == accounting_by_manifest(*manifest),
{
    if manifest.format == ModelFormat::Gguf || manifest.format == ModelFormat::Onnx {
        if let Some(path) = &manifest.model_path {
            if let Some(i) = find_file(&manifest.files, path.as_str()) {
                return single_selected_weight_accounting(
                    manifest,
                    &manifest.files[i],
                    "selected runtime model file",
                );
            }
        }
    }
    if manifest.format == ModelFormat::SafeTensors || manifest.format == ModelFormat::Mlx
        || manifest.format == ModelFormat::PyTorch {
        let tensors = indices_with_extension(&manifest.files, "safetensors");
        let ghost model = with_extension(manifest.files@, "safetensors"@);
        assert(tensors@.len() == model.len());
        if tensors.len() == 1 {
            assert(model[0] == tensors@[0] as int);
            return single_selected_weight_accounting(
                manifest,
                &manifest.files[tensors[0]],
                "single safetensors weight file",
            );
        }
    }
    account_by_names(manifest)
}

/// The bytes of the files that count as weights, by the manifest alone.
pub fn estimate_model_files_bytes(manifest: &ModelManifest) -> (r: u64)
    requires
        total_size(accounting_by_manifest(*manifest).counted) <= u64::MAX,
    ensures
        r == total_size(accounting_by_manifest(*manifest).counted),
{
    estimate_weight_accounting_without_store(manifest).total_bytes()
}

// ---------------------------------------------------------------------------
// Safetensors indexes
// ---------------------------------------------------------------------------

/// A path that an index refers to, as the manifest would write it.
pub open spec fn relative_to(base: Seq<char>, path: Seq<char>) -> Seq<char> {
    let normalized = replaced(path, '\\', '/');
    if "files/"@.is_prefix_of(normalized) || base.len() == 0 {
        normalized
    } else {
        base + "/"@ + normalized
    }
}

pub fn join_manifest_relative(base: &str, path: &str) -> (r: String)
    ensures
        r@ == relative_to(base@, path@),
{
    let normalized = str_replace_char(path, '\\', '/');
    if str_starts_with(normalized.as_str(), "files/") || base.is_empty() {
        normalized
    } else {
        join3(base, "/", normalized.as_str())
    }
}

/// The first file whose path ends in `.safetensors.index.json`.
pub open spec fn first_index_file(files: Seq<ModelFile>) -> Option<Seq<char>>
    decreases files.len(),
{
    if files.len() == 0 {
        None
    } else if ".safetensors.index.json"@.is_suffix_of(files[0].path@) {
        Some(files[0].path@)
    } else {
        first_index_file(files.drop_first())
    }
}

/// The index that stands beside a model file.
pub open spec fn index_beside(model_path: Seq<char>, name: Seq<char>) -> Seq<char> {
    replaced(child(directory(model_path), name + ".index.json"@), '\\', '/')
}

/// The path of the safetensors index of a model: the one beside its model file,
/// else the first there is. A model path that names no file has none.
pub open spec fn index_path_of(m: ModelManifest) -> Option<Seq<char>> {
    let fallback = first_index_file(m.files@);
    match opt_view(m.model_path) {
        None => fallback,
        Some(path) => match file_name(path) {
            None => None,
            Some(name) => if ".safetensors"@.is_suffix_of(name) && file_at(
                m.files@,
                index_beside(path, name),
            ) is Some {
                Some(index_beside(path, name))
            } else {
                fallback
            },
        },
    }
}

fn find_first_index_file(files: &Vec<ModelFile>) -> (r: Option<String>)
    ensures
        opt_view(r) == first_index_file(files@),
{
    let mut i: usize = 0;
    assert(files@.skip(0) =~= files@);
    while i < files.len()
        invariant
            i <= files@.len(),
            first_index_file(files@) == first_index_file(files@.skip(i as int)),
        decreases files@.len() - i,
    {
        assert(files@.skip(i as int).drop_first() =~= files@.skip(i + 1));
        if str_ends_with(files[i].path.as_str(), ".safetensors.index.json") {
            return Some(files[i].path.clone());
        }
        i = i + 1;
    }
    None
}

pub fn find_safetensors_index_path(manifest: &ModelManifest) -> (r: Option<String>)
    ensures
        opt_view(r) == index_path_of(*manifest),
{
    if let Some(model_path) = &manifest.model_path {
        match path_file_name(model_path.as_str()) {
            None => {
                return None;
            },
            Some(name) => {
                if str_ends_with(name.as_str(), ".safetensors") {
                    let index_name = join2(name.as_str(), ".index.json");
                    let dir = path_directory(model_path.as_str());
                    let beside = path_child(dir.as_str(), index_name.as_str());
                    let candidate = str_replace_char(beside.as_str(), '\\', '/');
                    if find_file(&manifest.files, candidate.as_str()).is_some() {
                        return Some(candidate);
                    }
                }
            },
        }
    }
    find_first_index_file(&manifest.files)
}

/// The texts among the values of an object, each as a manifest path.
pub open spec fn shard_paths(fields: Seq<(Seq<char>, JsonView)>, base: Seq<char>) -> Seq<Seq<char>>
    decreases fields.len(),
{
    if fields.len() == 0 {
        Seq::empty()
    } else {
        let rest = shard_paths(fields.drop_last(), base);
        match fields.last().1 {
            JsonView::Text(path) => rest.push(relative_to(base, path)),
            _ => rest,
        }
    }
}

/// The shards that an index refers to, in ascending order.
pub open spec fn index_shards(index_path: Seq<char>, index: JsonView) -> Option<Seq<Seq<char>>> {
    match field(index, "weight_map"@) {
        Some(JsonView::Object(fields)) => Some(
            ascending_set(shard_paths(fields, replaced(directory(index_path), '\\', '/'))),
        ),
        _ => None,
    }
}

pub open spec fn all_present(shards: Seq<Seq<char>>, files: Seq<ModelFile>) -> bool {
    forall|i: int| 0 <= i < shards.len() ==> file_at(files, #[trigger] shards[i]) is Some
}

/// The accounting that an index gives, where it refers to any shard.
pub open spec fn accounting_by_index(
    m: ModelManifest,
    index_path: Seq<char>,
    index: JsonView,
) -> Option<AccountingView> {
    match index_shards(index_path, index) {
        None => None,
        Some(shards) => if shards.len() == 0 {
            None
        } else {
            Some(
                AccountingView {
                    counted: entries_by(m.files@, Rule::Shards(shards), true),
                    ignored: entries_by(m.files@, Rule::Shards(shards), false),
                    selected: shards,
                    confidence: if all_present(shards, m.files@) {
                        EstimateConfidence::High
                    } else {
                        EstimateConfidence::Low
                    },
                },
            )
        },
    }
}

pub open spec fn opt_accounting(a: Option<WeightAccounting>) -> Option<AccountingView> {
    match a {
        Some(a) => Some(a@),
        None => None,
    }
}

fn collect_shards(
    fields: &Vec<(String, Json)>,
    base: &str,
    Ghost(model): Ghost<Seq<(Seq<char>, JsonView)>>,
) -> (r: Vec<
    String,
>)
    requires
        model.len() == fields@.len(),
        forall|i: int|
            0 <= i < fields@.len() ==> model[i] == ((#[trigger] fields@[i]).0@, fields@[i].1@),
    ensures
        views(r@) == shard_paths(model, base@),
{
    let mut r: Vec<String> = Vec::new();
    let mut i: usize = 0;
    while i < fields.len()
        invariant
            i <= fields@.len(),
            model.len() == fields@.len(),
            forall|i: int|
                0 <= i < fields@.len() ==> model[i] == ((#[trigger] fields@[i]).0@, fields@[i].1@),
            views(r@) == shard_paths(model.take(i as int), base@),
        decreases fields@.len() - i,
    {
        let ghost before = views(r@);
        assert(model.take(i + 1).drop_last() =~= model.take(i as int));
        assert(model[i as int] == (fields@[i as int].0@, fields@[i as int].1@));
        if let Some(path) = fields[i].1.as_str() {
            r.push(join_manifest_relative(base, path));
            assert(views(r@) =~= before.push(relative_to(base@, path@)));
        }
        i = i + 1;
    }
    assert(model.take(model.len() as int) =~= model);
    r
}

fn account_by_shards(manifest: &ModelManifest, shards: Vec<String>) -> (r: WeightAccounting)
    ensures
        r@.counted == entries_by(manifest.files@, Rule::Shards(views(shards@)), true),
        r@.ignored == entries_by(manifest.files@, Rule::Shards(views(shards@)), false),
        r@.selected == views(shards@),
        r.confidence == (if all_present(views(shards@), manifest.files@) {
            EstimateConfidence::High
        } else {
            EstimateConfidence::Low
        }),
{
    let mut counted: Vec<EstimateFileEntry> = Vec::new();
    let mut ignored: Vec<EstimateFileEntry> = Vec::new();
    let mut i: usize = 0;
    let ghost files = manifest.files@;
    let ghost rule = Rule::Shards(views(shards@));
    while i < manifest.files.len()
        invariant
            i <= manifest.files@.len(),
            files == manifest.files@,
            rule == Rule::Shards(views(shards@)),
            entry_views(counted@) == entries_by(files.take(i as int), rule, true),
            entry_views(ignored@) == entries_by(files.take(i as int), rule, false),
        decreases manifest.files@.len() - i,
    {
        let file = &manifest.files[i];
        let ghost c = entry_views(counted@);
        let ghost g = entry_views(ignored@);
        assert(files.take(i + 1).drop_last() =~= files.take(i as int));
        assert(files.take(i + 1).last() == *file);
        if strings_contain(&shards, file.path.as_str()) {
            counted.push(estimate_file_entry(file, "referenced by safetensors index"));
            assert(entry_views(counted@) =~= c.push(
                entry(*file, "referenced by safetensors index"@),
            ));
        } else {
            ignored.push(estimate_file_entry(file, "not referenced by safetensors index"));
            assert(entry_views(ignored@) =~= g.push(
                entry(*file, "not referenced by safetensors index"@),
            ));
        }
        i = i + 1;
    }
    assert(files.take(files.len() as int) =~= files);
    let mut missing = false;
    let mut k: usize = 0;
    while k < shards.len()
        invariant
            k <= shards@.len(),
            missing == exists|j: int|
                0 <= j < k && file_at(manifest.files@, #[trigger] views(shards@)[j]) is None,
        decreases shards@.len() - k,
    {
        assert(views(shards@)[k as int] == shards@[k as int]@);
        if find_file(&manifest.files, shards[k].as_str()).is_none() {
            missing = true;
        }
        k = k + 1;
    }
    let confidence = if missing {
        EstimateConfidence::Low
    } else {
        EstimateConfidence::High
    };
    WeightAccounting { counted, ignored, selected: shards, confidence }
}

/// Accounts for the files by the parsed index that stands at `index_path`.
pub fn safetensors_index_weight_accounting_from_value(
    manifest: &ModelManifest,
    index_path: &str,
    value: &Json,
) -> (r: Option<WeightAccounting>)
    ensures
        opt_accounting(r) == accounting_by_index(*manifest, index_path@, value@),
{
    let weight_map = value.get("weight_map");
    let map = match weight_map {
        Some(map) => map,
        None => {
            return None;
        },
    };
    let fields = match map.as_object() {
        Some(fields) => fields,
        None => {
            return None;
        },
    };
    let dir = path_directory(index_path);
    let base = str_replace_char(dir.as_str(), '\\', '/');
    let ghost model = map@->Object_0;
    let found = collect_shards(fields, base.as_str(), Ghost(model));
    let shards = sorted_set(&found);
    if shards.len() == 0 {
        return None;
    }
    Some(account_by_shards(manifest, shards))
}

/// The accounting of an index that was read as text, where it was there and is
/// one.
pub open spec fn accounting_by_index_text(
    m: ModelManifest,
    text: Option<Seq<char>>,
) -> Option<AccountingView> {
    match (index_path_of(m), text) {
        (Some(path), Some(text)) => match crate::json::json_document(text) {
            Ok(index) => accounting_by_index(m, path, index),
            Err(_) => None,
        },
        _ => None,
    }
}

/// Accounts for the files by the text of the index of the model, if it could be
/// read.
pub fn safetensors_index_weight_accounting(
    manifest: &ModelManifest,
    index_text: Option<&str>,
) -> (r: Option<WeightAccounting>)
    ensures
        opt_accounting(r) == accounting_by_index_text(*manifest, opt_str_view(index_text)),
{
    let index_path = match find_safetensors_index_path(manifest) {
        Some(path) => path,
        None => {
            return None;
        },
    };
    match index_text {
        Some(text) => match parse_json(text) {
            Ok(value) => safetensors_index_weight_accounting_from_value(
                manifest,
                index_path.as_str(),
                &value,
            ),
            Err(_) => None,
        },
        None => None,
    }
}

/// The accounting of an installed model, given the text of its index.
pub open spec fn accounting(m: ModelManifest, index_text: Option<Seq<char>>) -> AccountingView {
    if is_tensor_format(m.format) && accounting_by_index_text(m, index_text) is Some {
        accounting_by_index_text(m, index_text)->0
    } else {
        accounting_by_manifest(m)
    }
}

pub fn estimate_weight_accounting(manifest: &ModelManifest, index_text: Option<&str>) -> (r:
    WeightAccounting)
    ensures
        r@ == accounting(*manifest, opt_str_view(index_text)),
{
    if manifest.format == ModelFormat::SafeTensors || manifest.format == ModelFormat::Mlx
        || manifest.format == ModelFormat::PyTorch {
        if let Some(accounting) = safetensors_index_weight_accounting(manifest, index_text) {
            return accounting;
        }
    }
    estimate_weight_accounting_without_store(manifest)
}

// ---------------------------------------------------------------------------
// What an estimate is for
// ---------------------------------------------------------------------------

/// What clearly takes less than seventy parts in a hundred of the available memory
/// fits, what clearly takes more than eighty-five does not, and between them there is a
/// warning. The total memory counts where the available memory is not known, with fifty
/// and sixty-five; where neither is known there is a warning.
pub proof fn models_that_take_too_much_do_not_fit(
    estimated: nat,
    total: Option<u64>,
    available: Option<u64>,
    memory: u64,
)
    requires
        estimated < 0x20_0000_0000_0000,
        0 < memory < 0x20_0000_0000_0000,
    ensures
        100 * estimated + 150 <= 70 * memory ==> verdict(estimated, total, Some(memory)) is Fits,
        verdict(estimated, total, Some(memory)) is Fits ==> 100 * estimated <= 70 * memory + 150,
        100 * estimated > 70 * memory + 150 && 100 * estimated + 150 <= 85 * memory ==> verdict(
            estimated,
            total,
            Some(memory),
        ) is Warning,
        verdict(estimated, total, Some(memory)) is LikelyOom ==> 100 * estimated + 150 > 85
            * memory,
        100 * estimated > 85 * memory + 150 ==> verdict(estimated, total, Some(memory))
            is LikelyOom,
        available is None || available == Some(0u64) ==> {
            &&& 100 * estimated + 150 <= 50 * memory ==> verdict(estimated, Some(memory), available)
                is Fits
            &&& verdict(estimated, Some(memory), available) is Fits ==> 100 * estimated <= 50
                * memory + 150
            &&& 100 * estimated > 50 * memory + 150 && 100 * estimated + 150 <= 65 * memory
                ==> verdict(estimated, Some(memory), available) is Warning
            &&& 100 * estimated > 65 * memory + 150 ==> verdict(estimated, Some(memory), available)
                is LikelyOom
            &&& verdict(estimated, None, available) is Warning
            &&& verdict(estimated, Some(0), available) is Warning
        },
{
    crate::binary64::limits_are_what_they_say(estimated, memory as nat, Ratio::Percent70);
    crate::binary64::limits_are_what_they_say(estimated, memory as nat, Ratio::Percent85);
    crate::binary64::limits_are_what_they_say(estimated, memory as nat, Ratio::Percent50);
    crate::binary64::limits_are_what_they_say(estimated, memory as nat, Ratio::Percent65);
}

/// A size is the sum of the sizes: of nothing nothing, and of more by so much more.
pub proof fn sizes_add_up(a: Seq<EntryView>, b: Seq<EntryView>, e: EntryView)
    ensures
        total_size(Seq::<EntryView>::empty()) == 0,
        total_size(seq![e]) == e.size,
        total_size(a + b) == total_size(a) + total_size(b),
    decreases b.len(),
{
    reveal_with_fuel(total_size, 2);
    assert(seq![e].drop_last() =~= Seq::empty());
    if b.len() == 0 {
        assert(a + b =~= a);
    } else {
        sizes_add_up(a, b.drop_last(), e);
        assert((a + b).drop_last() =~= a + b.drop_last());
        assert((a + b).last() == b.last());
    }
}

/// A file with this path and size stands among the entries.
pub open spec fn is_entered(entries: Seq<EntryView>, file: ModelFile) -> bool {
    exists|i: int|
        0 <= i < entries.len() && (#[trigger] entries[i]).path == file.path@ && entries[i].size
            == file.size
}

proof fn lemma_entered(files: Seq<ModelFile>, rule: Rule, counted: bool, k: int)
    requires
        0 <= k < files.len(),
        rule_counts(rule, files[k].path@) == counted,
    ensures
        is_entered(entries_by(files, rule, counted), files[k]),
    decreases files.len(),
{
    let rest = files.drop_last();
    let all = entries_by(files, rule, counted);
    let before = entries_by(rest, rule, counted);
    if k == files.len() - 1 {
        assert(all.last().path == files[k].path@);
    } else {
        lemma_entered(rest, rule, counted, k);
        let i = choose|i: int|
            0 <= i < before.len() && (#[trigger] before[i]).path == files[k].path@
                && before[i].size == files[k].size;
        assert(all[i] == before[i]);
    }
}

proof fn lemma_entries_are_files(files: Seq<ModelFile>, rule: Rule, counted: bool)
    ensures
        forall|i: int|
            0 <= i < entries_by(files, rule, counted).len() ==> rule_counts(
                rule,
                (#[trigger] entries_by(files, rule, counted)[i]).path,
            ) == counted,
    decreases files.len(),
{
    if files.len() > 0 {
        lemma_entries_are_files(files.drop_last(), rule, counted);
        let all = entries_by(files, rule, counted);
        let before = entries_by(files.drop_last(), rule, counted);
        assert forall|i: int| 0 <= i < all.len() implies rule_counts(
            rule,
            (#[trigger] all[i]).path,
        ) == counted by {
            if i < before.len() {
                assert(all[i] == before[i]);
            }
        }
    }
}

/// An index counts the files that it refers to and no others, each with its size, and
/// is trusted only where it refers to no file that is missing.
pub proof fn indexes_count_what_they_name(
    m: ModelManifest,
    index_path: Seq<char>,
    index: JsonView,
    k: int,
)
    requires
        0 <= k < m.files@.len(),
        accounting_by_index(m, index_path, index) is Some,
        index_shards(index_path, index) is Some,
    ensures
        ({
            let a = accounting_by_index(m, index_path, index)->0;
            let named = index_shards(index_path, index)->0;
            &&& named.contains(m.files@[k].path@) ==> is_entered(a.counted, m.files@[k])
            &&& !named.contains(m.files@[k].path@) ==> is_entered(a.ignored, m.files@[k])
            &&& forall|i: int|
                0 <= i < a.counted.len() ==> named.contains((#[trigger] a.counted[i]).path)
            &&& a.confidence is High || a.confidence is Low
            &&& a.confidence is High <==> forall|j: int|
                0 <= j < named.len() ==> file_at(m.files@, #[trigger] named[j]) is Some
        }),
{
    let named = index_shards(index_path, index)->0;
    let rule = Rule::Shards(named);
    lemma_entered(m.files@, rule, named.contains(m.files@[k].path@), k);
    lemma_entries_are_files(m.files@, rule, true);
    let a = accounting_by_index(m, index_path, index)->0;
    assert forall|i: int| 0 <= i < a.counted.len() implies named.contains(
        (#[trigger] a.counted[i]).path,
    ) by {
        assert(rule_counts(rule, entries_by(m.files@, rule, true)[i].path));
    }
}

/// The selected file of a GGUF or ONNX model is all that counts, with its size.
pub proof fn selected_files_count_alone(m: ModelManifest, i: int)
    requires
        m.format is Gguf || m.format is Onnx,
        m.model_path is Some,
        file_at(m.files@, m.model_path->0@) == Some(i),
    ensures
        ({
            let a = accounting_by_manifest(m);
            &&& a.counted.len() == 1
            &&& a.counted[0].path == m.files@[i].path@
            &&& total_size(a.counted) == m.files@[i].size
            &&& a.selected == seq![m.files@[i].path@]
            &&& a.confidence is High
        }),
{
    reveal_with_fuel(total_size, 2);
    let a = accounting_by_manifest(m);
    assert(a.counted.drop_last() =~= Seq::empty());
}

/// Where nothing is selected and no single file stands out, the files that look like
/// weights count and the others do not.
pub proof fn weights_count_by_their_names(m: ModelManifest, k: int)
    requires
        0 <= k < m.files@.len(),
        m.model_path is None,
        !is_tensor_format(m.format) || with_extension(m.files@, "safetensors"@).len() != 1,
    ensures
        ({
            let a = accounting_by_manifest(m);
            let path = m.files@[k].path@;
            &&& is_weight_path(path) && !is_ignored_path(path, false) ==> is_entered(
                a.counted,
                m.files@[k],
            )
            &&& !is_weight_path(path) || is_ignored_path(path, false) ==> is_entered(
                a.ignored,
                m.files@[k],
            )
            &&& !(a.confidence is High)
            &&& a.counted.len() == 0 ==> a.confidence is Low
        }),
{
    let path = m.files@[k].path@;
    lemma_entered(m.files@, Rule::Names, !is_ignored_path(path, false) && is_weight_path(path), k);
}

/// Weights are told by the endings of their names, whatever the case; a plain binary file
/// only where it is named after a model.
pub proof fn weights_are_told_by_their_endings(path: Seq<char>)
    ensures
        extension(lowered(path)) == Some("safetensors"@) || extension(lowered(path)) == Some(
            "gguf"@,
        ) || extension(lowered(path)) == Some("onnx"@) || extension(lowered(path)) == Some("pt"@)
            || extension(lowered(path)) == Some("pth"@) || extension(lowered(path)) == Some("npz"@)
            ==> is_weight_path(path),
        extension(lowered(path)) == Some("bin"@) && "pytorch_model"@.is_prefix_of(
            name_or_empty(lowered(path)),
        ) ==> is_weight_path(path),
        ".onnx_data"@.is_suffix_of(lowered(path)) ==> is_weight_path(path),
        extension(lowered(path)) is None && !".onnx_data"@.is_suffix_of(lowered(path))
            ==> !is_weight_path(path),
        extension(lowered(path)) == Some("json"@) && !".onnx_data"@.is_suffix_of(lowered(path))
            ==> !is_weight_path(path),
        extension(lowered(path)) == Some("txt"@) && !".onnx_data"@.is_suffix_of(lowered(path))
            ==> !is_weight_path(path),
{
    reveal_strlit("json");
    reveal_strlit("txt");
    reveal_strlit("bin");
    reveal_strlit("safetensors");
    reveal_strlit("gguf");
    reveal_strlit("onnx");
    reveal_strlit("pt");
    reveal_strlit("pth");
    reveal_strlit("npz");
    assert("json"@[0] == 'j' && "txt"@[0] == 't' && "npz"@[0] == 'n' && "pth"@[0] == 'p');
    assert(lowered("json"@)[0] == 'j' && lowered("bin"@)[0] == 'b' && lowered("txt"@)[0] == 't');
    assert("gguf"@[0] == 'g' && "onnx"@[0] == 'o');
    assert(lowered("bin"@).len() == 3);
    assert(lowered("safetensors"@).len() == 11 && lowered("gguf"@).len() == 4);
    assert(lowered("onnx"@).len() == 4 && lowered("pt"@).len() == 2);
    assert(lowered("pth"@)[0] == 'p' && lowered("npz"@)[0] == 'n');
}

/// What is kept beside the weights never counts: caches, what tells of the model, and
/// what was built of it, unless that was selected.
pub proof fn companions_never_count(path: Seq<char>, selected: bool, i: int)
    ensures
        0 <= i < split(lowered(path), '/').len() && (split(lowered(path), '/')[i] == ".git"@
            || split(lowered(path), '/')[i] == ".cache"@ || split(lowered(path), '/')[i]
            == "cache"@ || split(lowered(path), '/')[i] == "tmp"@) ==> is_ignored_path(
            path,
            selected,
        ),
        0 <= i < split(lowered(path), '/').len() && split(lowered(path), '/')[i] == "artifacts"@
            ==> is_ignored_path(path, false),
        name_or_empty(lowered(path)) == "config.json"@ || name_or_empty(lowered(path))
            == "tokenizer.json"@ || name_or_empty(lowered(path)) == "readme.md"@
            || name_or_empty(lowered(path)) == "license"@ ==> is_ignored_path(path, selected),
        is_ignored_path(path, true) ==> is_ignored_path(path, false),
{
    let parts = split(lowered(path), '/');
    if 0 <= i < parts.len() {
        let cached = |part: Seq<char>| is_cache_part(part);
        let built = |part: Seq<char>| part == "artifacts"@;
        if is_cache_part(parts[i]) {
            assert(cached(parts[i]));
            assert(some_part(parts, cached));
        }
        if parts[i] == "artifacts"@ {
            assert(built(parts[i]));
            assert(some_part(parts, built));
        }
    }
}

/// The lower of two confidences is one of them and no higher than either.
pub proof fn confidences_only_fall(a: EstimateConfidence, b: EstimateConfidence)
    ensures
        a.lower_of(b) == a || a.lower_of(b) == b,
        a is Low || b is Low <==> a.lower_of(b) is Low,
        a is High && b is High <==> a.lower_of(b) is High,
        a.lower_of(b) == b.lower_of(a),
{
}

} // verus!

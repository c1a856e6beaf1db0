//! Benchmarks: what is run, what is measured, and what is told.

use vstd::prelude::*;

use crate::args::StreamGranularity;
use crate::chat_session::{GenerateRequest, GenerationSettings};
use crate::doctor::{print_runtime_report, runtime_report_lines, RuntimeReport};
use crate::messages::{message_views, plain_message, ChatMessage};
use crate::readiness::{add_opt_line, opt_line};
use crate::report_lines::{add_line, add_lines, flushed, line, no_lines, pad_left};
use crate::text::{clone_strings, decimal, join2, join5, opt_str, opt_view, usize_text, views};

verus! {

/// A benchmark without a run measures nothing.
pub fn check_bench_runs(runs: usize) -> (r: Result<(), String>)
    ensures
        r is Err <==> runs == 0,
        r matches Err(message) ==> message@ == "--runs must be greater than 0"@,
{
    if runs == 0 {
        return Err("--runs must be greater than 0".to_owned());
    }
    Ok(())
}

/// A run, and whether it is measured: the first ones warm up.
pub fn bench_schedule(warmups: usize, runs: usize) -> (r: Vec<bool>)
    requires
        warmups + runs <= usize::MAX,
    ensures
        r@.len() == warmups + runs,
        forall|i: int| 0 <= i < r@.len() ==> #[trigger] r@[i] == (i >= warmups),
{
    let total: usize = warmups + runs;
    let mut r: Vec<bool> = Vec::new();
    let mut i: usize = 0;
    while i < total
        invariant
            i <= total,
            total == warmups + runs,
            r@.len() == i,
            forall|j: int| 0 <= j < i ==> #[trigger] r@[j] == (j >= warmups),
        decreases total - i,
    {
        r.push(i >= warmups);
        i = i + 1;
    }
    r
}

/// What a backend is asked in a run: the prompt, as text and as the only message.
pub fn bench_request(
    prompt: &str,
    stop: &Vec<String>,
    max_tokens: usize,
    seed: u64,
    debug: bool,
) -> (r: GenerateRequest)
    ensures
        r.prompt@ == prompt@,
        message_views(r.messages@) == seq![plain_message("user"@, prompt@)],
        r.image_urls@.len() == 0,
        views(r.stop@) == views(stop@),
        r.settings == (GenerationSettings {
            max_tokens,
            seed: Some(seed),
            stream_granularity: StreamGranularity::Chunk,
            verbose: false,
            debug,
        }),
        r.tool_config is None,
{
    let mut messages: Vec<ChatMessage> = Vec::new();
    messages.push(ChatMessage::plain("user", prompt));
    assert(message_views(messages@) =~= seq![plain_message("user"@, prompt@)]);
    GenerateRequest {
        prompt: prompt.to_owned(),
        messages,
        image_urls: Vec::new(),
        stop: clone_strings(stop),
        settings: GenerationSettings {
            max_tokens,
            seed: Some(seed),
            stream_granularity: StreamGranularity::Chunk,
            verbose: false,
            debug,
        },
        tool_config: None,
    }
}

/// A measured run, its times written out.
#[derive(Debug)]
pub struct BenchSample {
    /// Tokens in a second, with two decimals.
    pub rate: String,
    pub completion_tokens: usize,
    pub first_token: String,
    pub total: String,
}

/// What a backend came to: the medians of its runs, or why there are none.
#[derive(Debug)]
pub struct BenchBackendReport {
    pub backend: String,
    pub runtime: Option<RuntimeReport>,
    pub samples: Vec<BenchSample>,
    pub median_rate: Option<String>,
    pub median_total: Option<String>,
    pub median_first_token: Option<String>,
    pub error: Option<String>,
}

#[derive(Debug)]
pub struct BenchReport {
    pub model: String,
    pub runs: usize,
    pub warmups: usize,
    pub max_tokens: usize,
    pub temperature: String,
    pub seed: u64,
    pub results: Vec<BenchBackendReport>,
}

pub open spec fn sample_line(s: BenchSample, index: nat) -> Seq<char> {
    "  run "@ + flushed(decimal(index + 1), 2) + ": "@ + flushed(s.rate@, 7) + " tok/s, "@ + decimal(
        s.completion_tokens as nat,
    ) + " token(s), first "@ + s.first_token@ + ", total "@ + s.total@
}

pub open spec fn sample_lines(samples: Seq<BenchSample>) -> Seq<Seq<char>> {
    Seq::new(samples.len(), |i: int| sample_line(samples[i], i as nat))
}

fn tell_samples(samples: &Vec<BenchSample>) -> (r: Vec<String>)
    ensures
        views(r@) == sample_lines(samples@),
{
    let mut r: Vec<String> = Vec::new();
    let mut i: usize = 0;
    while i < samples.len()
        invariant
            i <= samples@.len(),
            r@.len() == i,
            forall|j: int| 0 <= j < i ==> (#[trigger] r@[j])@ == sample_line(samples@[j], j as nat),
        decreases samples@.len() - i,
    {
        let s = &samples[i];
        let digits = usize_text(i + 1);
        let number = pad_left(digits.as_str(), 2);
        let rate = pad_left(s.rate.as_str(), 7);
        let tokens = usize_text(s.completion_tokens);
        let mut text = join5("  run ", number.as_str(), ": ", rate.as_str(), " tok/s, ");
        text.push_str(tokens.as_str());
        text.push_str(" token(s), first ");
        text.push_str(s.first_token.as_str());
        text.push_str(", total ");
        text.push_str(s.total.as_str());
        r.push(text);
        i = i + 1;
    }
    assert(views(r@) =~= sample_lines(samples@));
    r
}

/// What is told of a backend. Of one that failed there is only the error.
pub open spec fn result_lines(b: BenchBackendReport, native_info: bool) -> Seq<Seq<char>> {
    line(""@) + line("backend: "@ + b.backend@) + (match b.runtime {
        Some(report) => if native_info {
            runtime_report_lines(report)
        } else {
            Seq::empty()
        },
        None => Seq::empty(),
    }) + match opt_view(b.error) {
        Some(error) => line("error: "@ + error),
        None => opt_line(
            "median eval rate: "@,
            match opt_view(b.median_rate) {
                Some(rate) => Some(rate + " tokens/s"@),
                None => None,
            },
        ) + opt_line("median total: "@, opt_view(b.median_total)) + opt_line(
            "median first token: "@,
            opt_view(b.median_first_token),
        ) + sample_lines(b.samples@),
    }
}

fn tell_result(b: &BenchBackendReport, native_info: bool) -> (r: Vec<String>)
    ensures
        views(r@) == result_lines(*b, native_info),
{
    let mut r = no_lines();
    add_line(&mut r, "".to_owned());
    assert(views(r@) =~= line(""@));
    add_line(&mut r, join2("backend: ", b.backend.as_str()));
    let mut native = no_lines();
    if native_info {
        if let Some(report) = &b.runtime {
            native = print_runtime_report(report);
        }
    }
    add_lines(&mut r, native);
    let mut rest = no_lines();
    match &b.error {
        Some(error) => {
            add_line(&mut rest, join2("error: ", error.as_str()));
            assert(views(rest@) =~= line("error: "@ + error@));
        },
        None => {
            let rate: Option<String> = match &b.median_rate {
                Some(rate) => Some(join2(rate.as_str(), " tokens/s")),
                None => None,
            };
            add_opt_line(&mut rest, "median eval rate: ", opt_str(&rate));
            assert(views(rest@) =~= opt_line("median eval rate: "@, opt_view(rate)));
            add_opt_line(&mut rest, "median total: ", opt_str(&b.median_total));
            add_opt_line(&mut rest, "median first token: ", opt_str(&b.median_first_token));
            add_lines(&mut rest, tell_samples(&b.samples));
        },
    }
    add_lines(&mut r, rest);
    r
}

pub open spec fn all_result_lines(all: Seq<BenchBackendReport>, native_info: bool) -> Seq<Seq<char>>
    decreases all.len(),
{
    if all.len() == 0 {
        Seq::empty()
    } else {
        all_result_lines(all.drop_last(), native_info) + result_lines(all.last(), native_info)
    }
}

/// What is told of a benchmark.
pub open spec fn bench_lines(b: BenchReport, native_info: bool) -> Seq<Seq<char>> {
    line("Benchmark: "@ + b.model@) + line(
        "runs: "@ + decimal(b.runs as nat) + ", warmups: "@ + decimal(b.warmups as nat)
            + ", max tokens: "@ + decimal(b.max_tokens as nat) + ", temperature: "@
            + b.temperature@ + ", seed: "@ + decimal(b.seed as nat),
    ) + all_result_lines(b.results@, native_info)
}

pub fn print_bench_report(report: &BenchReport, native_info: bool) -> (r: Vec<String>)
    ensures
        views(r@) == bench_lines(*report, native_info),
{
    let mut r = no_lines();
    add_line(&mut r, join2("Benchmark: ", report.model.as_str()));
    assert(views(r@) =~= line("Benchmark: "@ + report.model@));
    let runs = usize_text(report.runs);
    let warmups = usize_text(report.warmups);
    let max_tokens = usize_text(report.max_tokens);
    let seed = crate::text::u64_text(report.seed);
    let mut text = join5("runs: ", runs.as_str(), ", warmups: ", warmups.as_str(), ", max tokens: ");
    text.push_str(max_tokens.as_str());
    text.push_str(", temperature: ");
    text.push_str(report.temperature.as_str());
    text.push_str(", seed: ");
    text.push_str(seed.as_str());
    add_line(&mut r, text);
    let mut rest = no_lines();
    let mut i: usize = 0;
    assert(report.results@.take(0) =~= Seq::empty());
    while i < report.results.len()
        invariant
            i <= report.results@.len(),
            views(rest@) == all_result_lines(report.results@.take(i as int), native_info),
        decreases report.results@.len() - i,
    {
        assert(report.results@.take(i + 1).drop_last() =~= report.results@.take(i as int));
        add_lines(&mut rest, tell_result(&report.results[i], native_info));
        i = i + 1;
    }
    assert(report.results@.take(i as int) =~= report.results@);
    add_lines(&mut r, rest);
    r
}

} // verus!

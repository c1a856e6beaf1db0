//! What `--verbose` tells of a text generation.

use vstd::prelude::*;

use crate::report_lines::{
    add_line, add_lines, add_opt_stat, add_stat, line, no_lines, opt_stat, stat,
};
use crate::text::{decimal, join2, opt_str, opt_str_view, opt_view, usize_text, views};

verus! {

pub const VERBOSE_WIDTH: usize = 22;

/// How long the parts of a generation took, written out. What took no time is
/// missing; a prompt whose time is unknown has neither duration nor rate.
#[derive(Debug)]
pub struct GenerationTimes {
    pub total: String,
    pub load: String,
    pub warmup: Option<String>,
    pub prompt: Option<PromptTimes>,
    pub decode: String,
    pub first_token: Option<String>,
    /// Tokens in a second, with two decimals.
    pub rate: String,
}

#[derive(Debug)]
pub struct PromptTimes {
    pub duration: String,
    pub rate: String,
}

pub open spec fn prompt_lines(prompt: Option<PromptTimes>) -> Seq<Seq<char>> {
    let w = VERBOSE_WIDTH as nat;
    match prompt {
        Some(times) => stat(w, "prompt eval duration:"@, times.duration@) + stat(
            w,
            "prompt eval rate:"@,
            times.rate@ + " tokens/s"@,
        ),
        None => stat(w, "prompt eval duration:"@, "N/A"@) + stat(
            w,
            "prompt eval rate:"@,
            "N/A"@,
        ),
    }
}

fn tell_prompt(prompt: &Option<PromptTimes>) -> (r: Vec<String>)
    ensures
        views(r@) == prompt_lines(*prompt),
{
    let mut r = no_lines();
    match prompt {
        Some(times) => {
            add_stat(&mut r, VERBOSE_WIDTH, "prompt eval duration:", times.duration.as_str());
            let rate = join2(times.rate.as_str(), " tokens/s");
            add_stat(&mut r, VERBOSE_WIDTH, "prompt eval rate:", rate.as_str());
        },
        None => {
            add_stat(&mut r, VERBOSE_WIDTH, "prompt eval duration:", "N/A");
            add_stat(&mut r, VERBOSE_WIDTH, "prompt eval rate:", "N/A");
        },
    }
    assert(views(r@) =~= prompt_lines(*prompt));
    r
}

pub open spec fn diagnostic_lines(diagnostics: Seq<Seq<char>>) -> Seq<Seq<char>> {
    if diagnostics.len() == 0 {
        Seq::empty()
    } else {
        line(""@) + line("backend stats:"@) + diagnostics.map_values(|d: Seq<char>| "  "@ + d)
    }
}

fn tell_diagnostics(diagnostics: &Vec<String>) -> (r: Vec<String>)
    ensures
        views(r@) == diagnostic_lines(views(diagnostics@)),
{
    let mut r = no_lines();
    if diagnostics.len() == 0 {
        return r;
    }
    add_line(&mut r, "".to_owned());
    assert(views(r@) =~= line(""@));
    add_line(&mut r, "backend stats:".to_owned());
    let mut rest: Vec<String> = Vec::new();
    let mut i: usize = 0;
    while i < diagnostics.len()
        invariant
            i <= diagnostics@.len(),
            rest@.len() == i,
            forall|j: int| 0 <= j < i ==> (#[trigger] rest@[j])@ == "  "@ + diagnostics@[j]@,
        decreases diagnostics@.len() - i,
    {
        rest.push(join2("  ", diagnostics[i].as_str()));
        i = i + 1;
    }
    assert(views(rest@) =~= views(diagnostics@).map_values(|d: Seq<char>| "  "@ + d));
    add_lines(&mut r, rest);
    r
}

/// What is told of a generation.
pub open spec fn generation_lines(
    backend: Option<Seq<char>>,
    prompt_tokens: nat,
    completion_tokens: nat,
    finish_reason: Seq<char>,
    times: GenerationTimes,
    diagnostics: Seq<Seq<char>>,
) -> Seq<Seq<char>> {
    let w = VERBOSE_WIDTH as nat;
    opt_stat(w, "backend:"@, backend) + stat(w, "total duration:"@, times.total@) + stat(
        w,
        "load duration:"@,
        times.load@,
    ) + opt_stat(w, "warmup duration:"@, opt_view(times.warmup)) + stat(
        w,
        "prompt eval count:"@,
        decimal(prompt_tokens) + " token(s)"@,
    ) + prompt_lines(times.prompt) + stat(
        w,
        "eval count:"@,
        decimal(completion_tokens) + " token(s)"@,
    ) + stat(w, "eval duration:"@, times.decode@) + opt_stat(
        w,
        "first token:"@,
        opt_view(times.first_token),
    ) + stat(w, "eval rate:"@, times.rate@ + " tokens/s"@) + opt_stat(
        w,
        "finish reason:"@,
        if finish_reason.len() == 0 {
            None
        } else {
            Some(finish_reason)
        },
    ) + diagnostic_lines(diagnostics)
}

pub fn write_verbose_stats(
    backend: Option<&str>,
    prompt_tokens: usize,
    completion_tokens: usize,
    finish_reason: &str,
    times: &GenerationTimes,
    diagnostics: &Vec<String>,
) -> (r: Vec<String>)
    ensures
        views(r@) == generation_lines(
            opt_str_view(backend),
            prompt_tokens as nat,
            completion_tokens as nat,
            finish_reason@,
            *times,
            views(diagnostics@),
        ),
{
    let mut r = no_lines();
    add_opt_stat(&mut r, VERBOSE_WIDTH, "backend:", backend);
    assert(views(r@) =~= opt_stat(VERBOSE_WIDTH as nat, "backend:"@, opt_str_view(backend)));
    add_stat(&mut r, VERBOSE_WIDTH, "total duration:", times.total.as_str());
    add_stat(&mut r, VERBOSE_WIDTH, "load duration:", times.load.as_str());
    add_opt_stat(&mut r, VERBOSE_WIDTH, "warmup duration:", opt_str(&times.warmup));
    let digits = usize_text(prompt_tokens);
    let tokens = join2(digits.as_str(), " token(s)");
    add_stat(&mut r, VERBOSE_WIDTH, "prompt eval count:", tokens.as_str());
    add_lines(&mut r, tell_prompt(&times.prompt));
    let digits = usize_text(completion_tokens);
    let tokens = join2(digits.as_str(), " token(s)");
    add_stat(&mut r, VERBOSE_WIDTH, "eval count:", tokens.as_str());
    add_stat(&mut r, VERBOSE_WIDTH, "eval duration:", times.decode.as_str());
    add_opt_stat(&mut r, VERBOSE_WIDTH, "first token:", opt_str(&times.first_token));
    let rate = join2(times.rate.as_str(), " tokens/s");
    add_stat(&mut r, VERBOSE_WIDTH, "eval rate:", rate.as_str());
    let reason = if finish_reason.unicode_len() == 0 {
        None
    } else {
        Some(finish_reason)
    };
    add_opt_stat(&mut r, VERBOSE_WIDTH, "finish reason:", reason);
    add_lines(&mut r, tell_diagnostics(diagnostics));
    r
}

} // verus!

//! What is installed, what is missing, and where it was looked for.

use vstd::prelude::*;

use crate::args::{BurnMode, LlamaCppMode, OnnxRuntimeMode};
use crate::backend::{
    backend_label, backend_name, compiled_runtime_summary, display_llama_mode, format_debug_name,
    format_title, llama_mode_name, offered_target, runtime_install_target_for_platform,
    runtime_summary, yes_no, yes_no_text, BackendChoice, BackendRuntime, Host,
};
use crate::estimate_report::{or_unknown, text_or_unknown};
use crate::manifest::{has_task, InferenceTask, ModelManifest};
use crate::parameters::shown_task;
use crate::readiness::{
    add_opt_line, opt_line, print_task_readiness, readiness_lines, TaskReadiness,
};
use crate::report_lines::{add_column, add_line, add_lines, column, empty_row, line, no_lines};
use crate::text::{
    decimal, holds, join2, join3, join5, join_strings, joined, lowered, opt_str, opt_str_view,
    opt_view, str_contains, str_eq, str_lower, usize_text, views,
};

verus! {

// ---------------------------------------------------------------------------
// Discoveries
// ---------------------------------------------------------------------------

/// A place that was looked at.
#[derive(Debug)]
pub struct DiscoveryAttempt {
    pub label: String,
    pub path: Option<String>,
    pub usable: bool,
    pub detail: String,
}

/// What looking for a program came to.
#[derive(Debug)]
pub struct Discovery {
    pub source: String,
    pub path: Option<String>,
    pub attempts: Vec<DiscoveryAttempt>,
}

/// The path of the first attempt with this label.
pub open spec fn labelled_path(attempts: Seq<DiscoveryAttempt>, label: Seq<char>) -> Option<Seq<char>>
    decreases attempts.len(),
{
    if attempts.len() == 0 {
        None
    } else if attempts[0].label@ == label {
        opt_view(attempts[0].path)
    } else {
        labelled_path(attempts.drop_first(), label)
    }
}

fn path_with_label(attempts: &Vec<DiscoveryAttempt>, label: &str) -> (r: Option<String>)
    ensures
        opt_view(r) == labelled_path(attempts@, label@),
{
    let mut i: usize = 0;
    assert(attempts@.skip(0) =~= attempts@);
    while i < attempts.len()
        invariant
            i <= attempts@.len(),
            labelled_path(attempts@, label@) == labelled_path(attempts@.skip(i as int), label@),
        decreases attempts@.len() - i,
    {
        assert(attempts@.skip(i as int).drop_first() =~= attempts@.skip(i + 1));
        if str_eq(attempts[i].label.as_str(), label) {
            return crate::text::clone_opt(&attempts[i].path);
        }
        i = i + 1;
    }
    None
}

/// The first attempt that found something to use.
pub open spec fn first_usable(attempts: Seq<DiscoveryAttempt>) -> Option<int>
    decreases attempts.len(),
{
    if attempts.len() == 0 {
        None
    } else {
        match first_usable(attempts.drop_last()) {
            Some(i) => Some(i),
            None => if attempts.last().usable {
                Some(attempts.len() - 1)
            } else {
                None
            },
        }
    }
}

fn find_usable(attempts: &Vec<DiscoveryAttempt>) -> (r: Option<usize>)
    ensures
        match r {
            Some(i) => i < attempts@.len() && first_usable(attempts@) == Some(i as int),
            None => first_usable(attempts@) is None,
        },
{
    let mut found: Option<usize> = None;
    let mut i: usize = 0;
    assert(attempts@.take(0) =~= Seq::empty());
    while i < attempts.len()
        invariant
            i <= attempts@.len(),
            match found {
                Some(k) => k < i && first_usable(attempts@.take(i as int)) == Some(k as int),
                None => first_usable(attempts@.take(i as int)) is None,
            },
        decreases attempts@.len() - i,
    {
        assert(attempts@.take(i + 1).drop_last() =~= attempts@.take(i as int));
        if found.is_none() && attempts[i].usable {
            found = Some(i);
        }
        i = i + 1;
    }
    assert(attempts@.take(i as int) =~= attempts@);
    found
}

/// The path that is shown: the one that was found, or else the place for a
/// managed one.
pub open spec fn shown_path(d: Discovery, otherwise: Seq<char>) -> Seq<char> {
    match opt_view(d.path) {
        Some(path) => path,
        None => match labelled_path(d.attempts@, "managed cache"@) {
            Some(path) => path,
            None => otherwise,
        },
    }
}

fn path_to_show(d: &Discovery, otherwise: &str) -> (r: String)
    ensures
        r@ == shown_path(*d, otherwise@),
{
    match &d.path {
        Some(path) => path.clone(),
        None => match path_with_label(&d.attempts, "managed cache") {
            Some(path) => path,
            None => otherwise.to_owned(),
        },
    }
}

pub open spec fn discovery_row(
    mode: Seq<char>,
    source: Seq<char>,
    exists_here: Seq<char>,
    help: Seq<char>,
    path: Seq<char>,
) -> Seq<char> {
    column(mode, 8) + column(source, 16) + column(exists_here, 7) + column(help, 7) + path
}

fn make_discovery_row(mode: &str, source: &str, exists_here: &str, help: &str, path: &str) -> (r:
    String)
    ensures
        r@ == discovery_row(mode@, source@, exists_here@, help@, path@),
{
    let mut r = empty_row();
    add_column(&mut r, mode, 8);
    assert(r@ =~= column(mode@, 8));
    add_column(&mut r, source, 16);
    add_column(&mut r, exists_here, 7);
    add_column(&mut r, help, 7);
    r.push_str(path);
    r
}

/// A llama.cpp server for a mode, and whether it answers.
#[derive(Debug)]
pub struct LlamaDiscovery {
    pub mode: LlamaCppMode,
    pub discovery: Discovery,
    pub help_ok: bool,
}

pub open spec fn llama_row(d: LlamaDiscovery) -> Seq<char> {
    discovery_row(
        llama_mode_name(d.mode),
        d.discovery.source@,
        yes_no_text(d.discovery.path is Some),
        yes_no_text(d.discovery.path is Some && d.help_ok),
        shown_path(d.discovery, "-"@),
    )
}

pub fn print_backend_discovery(d: &LlamaDiscovery) -> (r: String)
    ensures
        r@ == llama_row(*d),
{
    let found = d.discovery.path.is_some();
    let path = path_to_show(&d.discovery, "-");
    make_discovery_row(
        display_llama_mode(d.mode),
        d.discovery.source.as_str(),
        yes_no(found),
        yes_no(found && d.help_ok),
        path.as_str(),
    )
}

/// An ONNX Runtime for a mode, and where a managed one would be.
#[derive(Debug)]
pub struct OnnxDiscovery {
    pub mode: OnnxRuntimeMode,
    pub discovery: Discovery,
    pub managed_path: String,
}

pub open spec fn onnx_mode_name(mode: OnnxRuntimeMode) -> Seq<char> {
    match mode {
        OnnxRuntimeMode::Cuda => "CUDA"@,
        OnnxRuntimeMode::Rocm => "ROCm"@,
        OnnxRuntimeMode::Cpu => "CPU"@,
    }
}

fn onnx_mode_label(mode: OnnxRuntimeMode) -> (r: &'static str)
    ensures
        r@ == onnx_mode_name(mode),
{
    match mode {
        OnnxRuntimeMode::Cuda => "CUDA",
        OnnxRuntimeMode::Rocm => "ROCm",
        OnnxRuntimeMode::Cpu => "CPU",
    }
}

pub open spec fn onnx_row(d: OnnxDiscovery) -> Seq<char> {
    discovery_row(
        onnx_mode_name(d.mode),
        d.discovery.source@,
        yes_no_text(d.discovery.path is Some),
        yes_no_text(first_usable(d.discovery.attempts@) is Some),
        shown_path(d.discovery, d.managed_path@),
    )
}

pub fn print_onnxruntime_discovery(d: &OnnxDiscovery) -> (r: String)
    ensures
        r@ == onnx_row(*d),
{
    let path = path_to_show(&d.discovery, d.managed_path.as_str());
    make_discovery_row(
        onnx_mode_label(d.mode),
        d.discovery.source.as_str(),
        yes_no(d.discovery.path.is_some()),
        yes_no(find_usable(&d.discovery.attempts).is_some()),
        path.as_str(),
    )
}

/// vLLM, with the names of its state.
#[derive(Debug)]
pub struct VllmDiscovery {
    pub discovery: Discovery,
    pub installed: String,
    pub health: String,
    /// Where a managed one would be.
    pub managed_path: String,
}

pub open spec fn vllm_path(d: VllmDiscovery) -> Seq<char> {
    let used = match first_usable(d.discovery.attempts@) {
        Some(i) => opt_view(d.discovery.attempts@[i].path),
        None => None,
    };
    match used {
        Some(path) => path,
        None => match labelled_path(d.discovery.attempts@, "managed venv"@) {
            Some(path) => path,
            None => d.managed_path@,
        },
    }
}

fn vllm_path_to_show(d: &VllmDiscovery) -> (r: String)
    ensures
        r@ == vllm_path(*d),
{
    if let Some(i) = find_usable(&d.discovery.attempts) {
        if let Some(path) = &d.discovery.attempts[i].path {
            return path.clone();
        }
    }
    match path_with_label(&d.discovery.attempts, "managed venv") {
        Some(path) => path,
        None => d.managed_path.clone(),
    }
}

pub open spec fn vllm_row(
    name: Seq<char>,
    source: Seq<char>,
    installed: Seq<char>,
    health: Seq<char>,
    path: Seq<char>,
) -> Seq<char> {
    column(name, 8) + column(source, 16) + column(installed, 10) + column(health, 18) + path
}

fn make_vllm_row(name: &str, source: &str, installed: &str, health: &str, path: &str) -> (r: String)
    ensures
        r@ == vllm_row(name@, source@, installed@, health@, path@),
{
    let mut r = empty_row();
    add_column(&mut r, name, 8);
    assert(r@ =~= column(name@, 8));
    add_column(&mut r, source, 16);
    add_column(&mut r, installed, 10);
    add_column(&mut r, health, 18);
    r.push_str(path);
    r
}

/// A Burn runtime, and whether it can be used.
#[derive(Debug)]
pub struct BurnStatus {
    pub mode: BurnMode,
    pub available: bool,
    pub detail: String,
}

pub open spec fn burn_mode_name(mode: BurnMode) -> Seq<char> {
    match mode {
        BurnMode::Cuda => "CUDA"@,
        BurnMode::Cpu => "CPU"@,
    }
}

pub open spec fn burn_row(s: BurnStatus) -> Seq<char> {
    column(burn_mode_name(s.mode), 8) + column("in-process"@, 16) + column(
        yes_no_text(s.available),
        7,
    ) + s.detail@
}

pub fn print_burn_discovery(s: &BurnStatus) -> (r: String)
    ensures
        r@ == burn_row(*s),
{
    let mode = match s.mode {
        BurnMode::Cuda => "CUDA",
        BurnMode::Cpu => "CPU",
    };
    let mut r = empty_row();
    add_column(&mut r, mode, 8);
    assert(r@ =~= column(burn_mode_name(s.mode), 8));
    add_column(&mut r, "in-process", 16);
    add_column(&mut r, yes_no(s.available), 7);
    r.push_str(s.detail.as_str());
    r
}

/// A runtime of the registry, with the names of its accelerators.
#[derive(Debug)]
pub struct RegisteredRuntime {
    pub display_name: String,
    pub runtime: BackendRuntime,
    pub implemented: bool,
    pub accelerators: Vec<String>,
    pub vision_language: bool,
    pub install_target: Option<String>,
}

/// The platform that install targets are offered for.
#[derive(Debug)]
pub struct Platform {
    pub operating_system: String,
    pub architecture: String,
    pub strix_halo: bool,
}

pub open spec fn runtime_row(
    name: Seq<char>,
    state: Seq<char>,
    accelerators: Seq<char>,
    vision: Seq<char>,
    install: Seq<char>,
) -> Seq<char> {
    column(name, 24) + column(state, 12) + column(accelerators, 12) + column(vision, 8) + install
}

fn make_runtime_row(
    name: &str,
    state: &str,
    accelerators: &str,
    vision: &str,
    install: &str,
) -> (r: String)
    ensures
        r@ == runtime_row(name@, state@, accelerators@, vision@, install@),
{
    let mut r = empty_row();
    add_column(&mut r, name, 24);
    assert(r@ =~= column(name@, 24));
    add_column(&mut r, state, 12);
    add_column(&mut r, accelerators, 12);
    add_column(&mut r, vision, 8);
    r.push_str(install);
    r
}

pub open spec fn registered_row(d: RegisteredRuntime, p: Platform) -> Seq<char> {
    runtime_row(
        d.display_name@,
        if d.implemented {
            "implemented"@
        } else {
            "pending"@
        },
        joined(views(d.accelerators@), "/"@),
        yes_no_text(d.vision_language),
        match offered_target(
            opt_view(d.install_target),
            p.operating_system@,
            p.architecture@,
            p.strix_halo,
        ) {
            Some(target) => target,
            None => "-"@,
        },
    )
}

/// The runtimes that are listed: all but Burn, which is listed where it is being
/// tried out.
pub open spec fn registered_rows(
    all: Seq<RegisteredRuntime>,
    p: Platform,
    with_burn: bool,
) -> Seq<Seq<char>>
    decreases all.len(),
{
    if all.len() == 0 {
        Seq::empty()
    } else {
        let rest = registered_rows(all.drop_last(), p, with_burn);
        if with_burn || !(all.last().runtime is Burn) {
            rest + line(registered_row(all.last(), p))
        } else {
            rest
        }
    }
}

fn tell_registered(all: &Vec<RegisteredRuntime>, p: &Platform, with_burn: bool) -> (r: Vec<String>)
    ensures
        views(r@) == registered_rows(all@, *p, with_burn),
{
    let mut r = no_lines();
    let mut i: usize = 0;
    assert(all@.take(0) =~= Seq::empty());
    while i < all.len()
        invariant
            i <= all@.len(),
            views(r@) == registered_rows(all@.take(i as int), *p, with_burn),
        decreases all@.len() - i,
    {
        assert(all@.take(i + 1).drop_last() =~= all@.take(i as int));
        let d = &all[i];
        if with_burn || d.runtime != BackendRuntime::Burn {
            let accelerators = join_strings(&d.accelerators, "/");
            let install = match runtime_install_target_for_platform(
                opt_str(&d.install_target),
                p.operating_system.as_str(),
                p.architecture.as_str(),
                p.strix_halo,
            ) {
                Some(target) => target,
                None => "-",
            };
            let state = if d.implemented {
                "implemented"
            } else {
                "pending"
            };
            add_line(
                &mut r,
                make_runtime_row(
                    d.display_name.as_str(),
                    state,
                    accelerators.as_str(),
                    yes_no(d.vision_language),
                    install,
                ),
            );
        }
        i = i + 1;
    }
    assert(all@.take(i as int) =~= all@);
    r
}

/// What the list of backends is made of. Burn is there where it is being tried
/// out.
#[derive(Debug)]
pub struct BackendInventory {
    pub llama: Vec<LlamaDiscovery>,
    pub burn: Option<Vec<BurnStatus>>,
    pub onnx: Vec<OnnxDiscovery>,
    pub vllm: VllmDiscovery,
    pub runtimes: Vec<RegisteredRuntime>,
    pub platform: Platform,
}

pub open spec fn burn_list(burn: Option<Vec<BurnStatus>>) -> Seq<Seq<char>> {
    match burn {
        Some(all) => line(""@) + line("Burn runtime"@) + line(
            column("BACKEND"@, 8) + column("SOURCE"@, 16) + column("READY"@, 7) + "DETAIL"@,
        ) + all@.map_values(|s: BurnStatus| burn_row(s)),
        None => Seq::empty(),
    }
}

fn tell_burn(burn: &Option<Vec<BurnStatus>>) -> (r: Vec<String>)
    ensures
        views(r@) == burn_list(*burn),
{
    let mut r = no_lines();
    if let Some(all) = burn {
        add_line(&mut r, "".to_owned());
        assert(views(r@) =~= line(""@));
        add_line(&mut r, "Burn runtime".to_owned());
        let mut head = empty_row();
        add_column(&mut head, "BACKEND", 8);
        assert(head@ =~= column("BACKEND"@, 8));
        add_column(&mut head, "SOURCE", 16);
        add_column(&mut head, "READY", 7);
        head.push_str("DETAIL");
        add_line(&mut r, head);
        let mut rows: Vec<String> = Vec::new();
        let mut i: usize = 0;
        while i < all.len()
            invariant
                i <= all@.len(),
                rows@.len() == i,
                forall|j: int| 0 <= j < i ==> (#[trigger] rows@[j])@ == burn_row(all@[j]),
            decreases all@.len() - i,
        {
            rows.push(print_burn_discovery(&all[i]));
            i = i + 1;
        }
        assert(views(rows@) =~= all@.map_values(|s: BurnStatus| burn_row(s)));
        add_lines(&mut r, rows);
    }
    r
}

/// The modes of llama.cpp that are looked for, in the order of the list.
pub fn listed_llama_modes() -> (r: Vec<LlamaCppMode>)
    ensures
        r@ == seq![
            LlamaCppMode::Cuda,
            LlamaCppMode::Rocm,
            LlamaCppMode::Vulkan,
            LlamaCppMode::Metal,
            LlamaCppMode::Cpu,
        ],
{
    let r: Vec<LlamaCppMode> = vec![
        LlamaCppMode::Cuda,
        LlamaCppMode::Rocm,
        LlamaCppMode::Vulkan,
        LlamaCppMode::Metal,
        LlamaCppMode::Cpu,
    ];
    assert(r@ =~= seq![
        LlamaCppMode::Cuda,
        LlamaCppMode::Rocm,
        LlamaCppMode::Vulkan,
        LlamaCppMode::Metal,
        LlamaCppMode::Cpu,
    ]);
    r
}

/// The modes of ONNX Runtime that are looked for, in the order of the list.
pub fn listed_onnx_modes() -> (r: Vec<OnnxRuntimeMode>)
    ensures
        r@ == seq![OnnxRuntimeMode::Cuda, OnnxRuntimeMode::Rocm, OnnxRuntimeMode::Cpu],
{
    let r: Vec<OnnxRuntimeMode> = vec![
        OnnxRuntimeMode::Cuda,
        OnnxRuntimeMode::Rocm,
        OnnxRuntimeMode::Cpu,
    ];
    assert(r@ =~= seq![OnnxRuntimeMode::Cuda, OnnxRuntimeMode::Rocm, OnnxRuntimeMode::Cpu]);
    r
}

fn tell_llama(all: &Vec<LlamaDiscovery>) -> (r: Vec<String>)
    ensures
        views(r@) == all@.map_values(|d: LlamaDiscovery| llama_row(d)),
{
    let mut rows: Vec<String> = Vec::new();
    let mut i: usize = 0;
    while i < all.len()
        invariant
            i <= all@.len(),
            rows@.len() == i,
            forall|j: int| 0 <= j < i ==> (#[trigger] rows@[j])@ == llama_row(all@[j]),
        decreases all@.len() - i,
    {
        rows.push(print_backend_discovery(&all[i]));
        i = i + 1;
    }
    assert(views(rows@) =~= all@.map_values(|d: LlamaDiscovery| llama_row(d)));
    rows
}

fn tell_onnx(all: &Vec<OnnxDiscovery>) -> (r: Vec<String>)
    ensures
        views(r@) == all@.map_values(|d: OnnxDiscovery| onnx_row(d)),
{
    let mut rows: Vec<String> = Vec::new();
    let mut i: usize = 0;
    while i < all.len()
        invariant
            i <= all@.len(),
            rows@.len() == i,
            forall|j: int| 0 <= j < i ==> (#[trigger] rows@[j])@ == onnx_row(all@[j]),
        decreases all@.len() - i,
    {
        rows.push(print_onnxruntime_discovery(&all[i]));
        i = i + 1;
    }
    assert(views(rows@) =~= all@.map_values(|d: OnnxDiscovery| onnx_row(d)));
    rows
}

/// The list of backends.
pub open spec fn backend_list(b: BackendInventory) -> Seq<Seq<char>> {
    let head = discovery_row("BACKEND"@, "SOURCE"@, "EXISTS"@, "HELP"@, "PATH"@);
    line("llama-server discovery"@) + line(head) + b.llama@.map_values(
        |d: LlamaDiscovery| llama_row(d),
    ) + burn_list(b.burn) + line(""@) + line("ONNX Runtime discovery"@) + line(head)
        + b.onnx@.map_values(|d: OnnxDiscovery| onnx_row(d)) + line(""@) + line("vLLM discovery"@)
        + line(vllm_row("BACKEND"@, "SOURCE"@, "INSTALLED"@, "HEALTH"@, "PATH"@)) + line(
        vllm_row(
            "vLLM"@,
            b.vllm.discovery.source@,
            b.vllm.installed@,
            b.vllm.health@,
            vllm_path(b.vllm),
        ),
    ) + line(""@) + line(runtime_row("RUNTIME"@, "STATE"@, "ACCEL"@, "VLM"@, "INSTALL"@))
        + registered_rows(b.runtimes@, b.platform, b.burn is Some)
}

pub fn print_backend_list(b: &BackendInventory) -> (r: Vec<String>)
    ensures
        views(r@) == backend_list(*b),
{
    let mut r = no_lines();
    add_line(&mut r, "llama-server discovery".to_owned());
    assert(views(r@) =~= line("llama-server discovery"@));
    add_line(&mut r, make_discovery_row("BACKEND", "SOURCE", "EXISTS", "HELP", "PATH"));
    add_lines(&mut r, tell_llama(&b.llama));
    add_lines(&mut r, tell_burn(&b.burn));
    add_line(&mut r, "".to_owned());
    add_line(&mut r, "ONNX Runtime discovery".to_owned());
    add_line(&mut r, make_discovery_row("BACKEND", "SOURCE", "EXISTS", "HELP", "PATH"));
    add_lines(&mut r, tell_onnx(&b.onnx));
    add_line(&mut r, "".to_owned());
    add_line(&mut r, "vLLM discovery".to_owned());
    add_line(&mut r, make_vllm_row("BACKEND", "SOURCE", "INSTALLED", "HEALTH", "PATH"));
    let path = vllm_path_to_show(&b.vllm);
    add_line(
        &mut r,
        make_vllm_row(
            "vLLM",
            b.vllm.discovery.source.as_str(),
            b.vllm.installed.as_str(),
            b.vllm.health.as_str(),
            path.as_str(),
        ),
    );
    add_line(&mut r, "".to_owned());
    add_line(&mut r, make_runtime_row("RUNTIME", "STATE", "ACCEL", "VLM", "INSTALL"));
    add_lines(&mut r, tell_registered(&b.runtimes, &b.platform, b.burn.is_some()));
    r
}

// ---------------------------------------------------------------------------
// Checks
// ---------------------------------------------------------------------------

#[derive(Debug)]
pub struct DoctorCheck {
    pub name: String,
    pub ok: bool,
    pub detail: String,
}

/// What is found wrong; on WSL some things can only be tried.
pub open spec fn check_status(c: DoctorCheck) -> Seq<char> {
    if holds(c.detail@, "best-effort on WSL"@) {
        "warn"@
    } else if c.ok {
        "ok"@
    } else {
        "missing"@
    }
}

pub fn doctor_check_status(check: &DoctorCheck) -> (r: &'static str)
    ensures
        r@ == check_status(*check),
{
    if str_contains(check.detail.as_str(), "best-effort on WSL") {
        "warn"
    } else if check.ok {
        "ok"
    } else {
        "missing"
    }
}

pub open spec fn check_row(c: DoctorCheck) -> Seq<char> {
    column(c.name@, 24) + column(check_status(c), 7) + c.detail@
}

pub open spec fn check_rows(checks: Seq<DoctorCheck>) -> Seq<Seq<char>> {
    checks.map_values(|c: DoctorCheck| check_row(c))
}

fn tell_checks(checks: &Vec<DoctorCheck>) -> (r: Vec<String>)
    ensures
        views(r@) == check_rows(checks@),
{
    let mut rows: Vec<String> = Vec::new();
    let mut i: usize = 0;
    while i < checks.len()
        invariant
            i <= checks@.len(),
            rows@.len() == i,
            forall|j: int| 0 <= j < i ==> (#[trigger] rows@[j])@ == check_row(checks@[j]),
        decreases checks@.len() - i,
    {
        let c = &checks[i];
        let mut row = empty_row();
        add_column(&mut row, c.name.as_str(), 24);
        assert(row@ =~= column(c.name@, 24));
        add_column(&mut row, doctor_check_status(c), 7);
        row.push_str(c.detail.as_str());
        rows.push(row);
        i = i + 1;
    }
    assert(views(rows@) =~= check_rows(checks@));
    rows
}

/// Whether a runtime can be used, or could be installed.
#[derive(Clone, Copy, Debug, PartialEq, Eq, Structural)]
pub enum OnnxRuntimeAvailability {
    Ready,
    Installable,
    Unavailable,
}

/// An ONNX Runtime and its state: what looking for its runner came to, and why it
/// cannot be used.
#[derive(Debug)]
pub struct RuntimeState {
    pub name: String,
    pub availability: OnnxRuntimeAvailability,
    pub discovery: Discovery,
    pub reason: String,
}

pub open spec fn state_row(s: RuntimeState) -> Seq<char> {
    column(s.name@, 24) + match s.availability {
        OnnxRuntimeAvailability::Ready => column("ready"@, 12) + match opt_view(
            s.discovery.path,
        ) {
            Some(path) => path,
            None => "runner ready"@,
        },
        OnnxRuntimeAvailability::Installable => column("installable"@, 12)
            + "bundled runner can be installed"@,
        OnnxRuntimeAvailability::Unavailable => column("unavailable"@, 12) + s.reason@,
    }
}

fn make_state_row(s: &RuntimeState) -> (r: String)
    ensures
        r@ == state_row(*s),
{
    let mut r = empty_row();
    add_column(&mut r, s.name.as_str(), 24);
    assert(r@ =~= column(s.name@, 24));
    let mut rest = empty_row();
    match s.availability {
        OnnxRuntimeAvailability::Ready => {
            add_column(&mut rest, "ready", 12);
            assert(rest@ =~= column("ready"@, 12));
            match &s.discovery.path {
                Some(path) => {
                    rest.push_str(path.as_str());
                },
                None => {
                    rest.push_str("runner ready");
                },
            }
        },
        OnnxRuntimeAvailability::Installable => {
            add_column(&mut rest, "installable", 12);
            assert(rest@ =~= column("installable"@, 12));
            rest.push_str("bundled runner can be installed");
        },
        OnnxRuntimeAvailability::Unavailable => {
            add_column(&mut rest, "unavailable", 12);
            assert(rest@ =~= column("unavailable"@, 12));
            rest.push_str(s.reason.as_str());
        },
    }
    r.push_str(rest.as_str());
    r
}

pub open spec fn attempt_line(a: DiscoveryAttempt) -> Seq<char> {
    match opt_view(a.path) {
        Some(path) => "  - "@ + a.label@ + ": "@ + path + " ("@ + a.detail@ + ")"@,
        None => "  - "@ + a.label@ + ": "@ + a.detail@,
    }
}

fn tell_attempts(attempts: &Vec<DiscoveryAttempt>) -> (r: Vec<String>)
    ensures
        views(r@) == attempts@.map_values(|a: DiscoveryAttempt| attempt_line(a)),
{
    let mut r: Vec<String> = Vec::new();
    let mut i: usize = 0;
    while i < attempts.len()
        invariant
            i <= attempts@.len(),
            r@.len() == i,
            forall|j: int| 0 <= j < i ==> (#[trigger] r@[j])@ == attempt_line(attempts@[j]),
        decreases attempts@.len() - i,
    {
        let a = &attempts[i];
        let text = match &a.path {
            Some(path) => {
                let mut text = join5("  - ", a.label.as_str(), ": ", path.as_str(), " (");
                text.push_str(a.detail.as_str());
                text.push_str(")");
                text
            },
            None => {
                let mut text = join3("  - ", a.label.as_str(), ": ");
                text.push_str(a.detail.as_str());
                text
            },
        };
        r.push(text);
        i = i + 1;
    }
    assert(views(r@) =~= attempts@.map_values(|a: DiscoveryAttempt| attempt_line(a)));
    r
}

/// What is told of the search for an ONNX Runtime. `reason` is why it cannot be
/// used.
pub open spec fn onnx_debug_lines(
    discovery: Discovery,
    availability: OnnxRuntimeAvailability,
    reason: Seq<char>,
) -> Seq<Seq<char>> {
    let (status, why) = match availability {
        OnnxRuntimeAvailability::Ready => (
            "ready"@,
            "runner discovered from "@ + discovery.source@,
        ),
        OnnxRuntimeAvailability::Installable => (
            "installable"@,
            "bundled runner can be installed"@,
        ),
        OnnxRuntimeAvailability::Unavailable => ("unavailable"@, reason),
    };
    line("  status: "@ + status) + line("  reason: "@ + why) + line("  tried:"@)
        + discovery.attempts@.map_values(|a: DiscoveryAttempt| attempt_line(a))
}

pub fn print_onnxruntime_debug_details(
    discovery: &Discovery,
    availability: OnnxRuntimeAvailability,
    reason: &str,
) -> (r: Vec<String>)
    ensures
        views(r@) == onnx_debug_lines(*discovery, availability, reason@),
{
    let mut r = no_lines();
    let (status, why) = match availability {
        OnnxRuntimeAvailability::Ready => (
            "ready",
            join2("runner discovered from ", discovery.source.as_str()),
        ),
        OnnxRuntimeAvailability::Installable => (
            "installable",
            "bundled runner can be installed".to_owned(),
        ),
        OnnxRuntimeAvailability::Unavailable => ("unavailable", reason.to_owned()),
    };
    add_line(&mut r, join2("  status: ", status));
    assert(views(r@) =~= line("  status: "@ + status@));
    add_line(&mut r, join2("  reason: ", why.as_str()));
    add_line(&mut r, "  tried:".to_owned());
    add_lines(&mut r, tell_attempts(&discovery.attempts));
    r
}

/// What probing a Burn runtime for a model found.
#[derive(Debug)]
pub struct BurnProbeReport {
    pub available: bool,
    pub reason: String,
    pub architecture: String,
    pub checks: Vec<DoctorCheck>,
}

pub open spec fn probe_check_line(c: DoctorCheck) -> Seq<char> {
    "  - "@ + c.name@ + ": "@ + (if c.ok {
        "ok"@
    } else {
        "failed"@
    }) + " ("@ + c.detail@ + ")"@
}

/// What is told of the probe of a Burn runtime.
pub open spec fn burn_debug_lines(report: BurnProbeReport) -> Seq<Seq<char>> {
    line(
        "  status: "@ + if report.available {
            "available"@
        } else {
            "unavailable"@
        },
    ) + line("  reason: "@ + report.reason@) + line("  architecture: "@ + report.architecture@)
        + line("  checks:"@) + report.checks@.map_values(|c: DoctorCheck| probe_check_line(c))
}

fn tell_probe_checks(checks: &Vec<DoctorCheck>) -> (r: Vec<String>)
    ensures
        views(r@) == checks@.map_values(|c: DoctorCheck| probe_check_line(c)),
{
    let mut r: Vec<String> = Vec::new();
    let mut i: usize = 0;
    while i < checks.len()
        invariant
            i <= checks@.len(),
            r@.len() == i,
            forall|j: int| 0 <= j < i ==> (#[trigger] r@[j])@ == probe_check_line(checks@[j]),
        decreases checks@.len() - i,
    {
        let c = &checks[i];
        let status = if c.ok {
            "ok"
        } else {
            "failed"
        };
        let mut text = join5("  - ", c.name.as_str(), ": ", status, " (");
        text.push_str(c.detail.as_str());
        text.push_str(")");
        r.push(text);
        i = i + 1;
    }
    assert(views(r@) =~= checks@.map_values(|c: DoctorCheck| probe_check_line(c)));
    r
}

pub fn print_burn_debug_details(report: &BurnProbeReport) -> (r: Vec<String>)
    ensures
        views(r@) == burn_debug_lines(*report),
{
    let mut r = no_lines();
    let status = if report.available {
        "available"
    } else {
        "unavailable"
    };
    add_line(&mut r, join2("  status: ", status));
    assert(views(r@) =~= line("  status: "@ + status@));
    add_line(&mut r, join2("  reason: ", report.reason.as_str()));
    add_line(&mut r, join2("  architecture: ", report.architecture.as_str()));
    add_line(&mut r, "  checks:".to_owned());
    add_lines(&mut r, tell_probe_checks(&report.checks));
    r
}

/// What the diagnosis of the backends rests on. `executable` is its path, or why
/// it is unknown.
#[derive(Debug)]
pub struct BackendDiagnosis {
    pub executable: Result<String, String>,
    pub cache: String,
    pub cuda_cache: String,
    pub rocm_cache: String,
    pub metal_cache: String,
    pub checks: Vec<DoctorCheck>,
    pub vllm_checks: Vec<DoctorCheck>,
    pub runtimes: Vec<RuntimeState>,
    /// What a build with Burn has to say of it.
    pub burn: Option<BurnDiagnosis>,
}

/// A Burn runtime under the name it is shown by, with the label of its mode.
#[derive(Debug)]
pub struct BurnRuntime {
    pub name: String,
    pub label: String,
    pub available: bool,
    pub detail: String,
}

#[derive(Debug)]
pub struct BurnDiagnosis {
    pub checks: Vec<DoctorCheck>,
    pub runtimes: Vec<BurnRuntime>,
}

/// A check of Burn holds or fails, with nothing in between.
pub open spec fn burn_check_row(c: DoctorCheck) -> Seq<char> {
    column(c.name@, 24) + column(
        if c.ok {
            "ok"@
        } else {
            "missing"@
        },
        7,
    ) + c.detail@
}

pub open spec fn burn_checks(burn: Option<BurnDiagnosis>) -> Seq<Seq<char>> {
    match burn {
        Some(b) => b.checks@.map_values(|c: DoctorCheck| burn_check_row(c)),
        None => Seq::empty(),
    }
}

fn tell_burn_checks(burn: &Option<BurnDiagnosis>) -> (r: Vec<String>)
    ensures
        views(r@) == burn_checks(*burn),
{
    let mut rows: Vec<String> = Vec::new();
    if let Some(b) = burn {
        let checks = &b.checks;
        let mut i: usize = 0;
        while i < checks.len()
            invariant
                i <= checks@.len(),
                rows@.len() == i,
                forall|j: int| 0 <= j < i ==> (#[trigger] rows@[j])@ == burn_check_row(checks@[j]),
            decreases checks@.len() - i,
        {
            let c = &checks[i];
            let mut row = empty_row();
            add_column(&mut row, c.name.as_str(), 24);
            assert(row@ =~= column(c.name@, 24));
            let status = if c.ok {
                "ok"
            } else {
                "missing"
            };
            add_column(&mut row, status, 7);
            row.push_str(c.detail.as_str());
            rows.push(row);
            i = i + 1;
        }
    }
    assert(views(rows@) =~= burn_checks(*burn));
    rows
}

pub open spec fn burn_runtime_row(b: BurnRuntime) -> Seq<char> {
    column(b.name@, 24) + column(
        if b.available {
            "ready"@
        } else {
            "unavailable"@
        },
        12,
    ) + b.detail@
}

/// The Burn runtimes, each with a remark where details are asked for.
pub open spec fn burn_runtime_lines(runtimes: Seq<BurnRuntime>, debug: bool) -> Seq<Seq<char>>
    decreases runtimes.len(),
{
    if runtimes.len() == 0 {
        Seq::empty()
    } else {
        let b = runtimes.last();
        burn_runtime_lines(runtimes.drop_last(), debug) + line(burn_runtime_row(b)) + (if debug {
            line("  Burn "@ + b.label@ + " is an in-process probe-gated runtime"@)
        } else {
            Seq::empty()
        })
    }
}

pub open spec fn burn_runtimes(burn: Option<BurnDiagnosis>, debug: bool) -> Seq<Seq<char>> {
    match burn {
        Some(b) => burn_runtime_lines(b.runtimes@, debug),
        None => Seq::empty(),
    }
}

fn tell_burn_runtimes(burn: &Option<BurnDiagnosis>, debug: bool) -> (r: Vec<String>)
    ensures
        views(r@) == burn_runtimes(*burn, debug),
{
    let mut r = no_lines();
    if let Some(diagnosis) = burn {
        let all = &diagnosis.runtimes;
        let mut i: usize = 0;
        assert(all@.take(0) =~= Seq::empty());
        while i < all.len()
            invariant
                i <= all@.len(),
                views(r@) == burn_runtime_lines(all@.take(i as int), debug),
            decreases all@.len() - i,
        {
            assert(all@.take(i + 1).drop_last() =~= all@.take(i as int));
            let b = &all[i];
            let mut row = empty_row();
            add_column(&mut row, b.name.as_str(), 24);
            assert(row@ =~= column(b.name@, 24));
            let status = if b.available {
                "ready"
            } else {
                "unavailable"
            };
            add_column(&mut row, status, 12);
            row.push_str(b.detail.as_str());
            add_line(&mut r, row);
            if debug {
                add_line(
                    &mut r,
                    join3("  Burn ", b.label.as_str(), " is an in-process probe-gated runtime"),
                );
            } else {
                assert(views(r@) + Seq::<Seq<char>>::empty() =~= views(r@));
            }
            i = i + 1;
        }
        assert(all@.take(i as int) =~= all@);
    }
    r
}

pub open spec fn executable_text(executable: Result<String, String>) -> Seq<char> {
    match executable {
        Ok(path) => path@,
        Err(error) => "unknown ("@ + error@ + ")"@,
    }
}

/// The ONNX Runtimes, each with the search for it where details are asked for.
pub open spec fn runtime_lines(runtimes: Seq<RuntimeState>, debug: bool) -> Seq<Seq<char>>
    decreases runtimes.len(),
{
    if runtimes.len() == 0 {
        Seq::empty()
    } else {
        let s = runtimes.last();
        runtime_lines(runtimes.drop_last(), debug) + line(state_row(s)) + (if debug {
            onnx_debug_lines(s.discovery, s.availability, s.reason@)
        } else {
            Seq::empty()
        })
    }
}

fn tell_runtimes(runtimes: &Vec<RuntimeState>, debug: bool) -> (r: Vec<String>)
    ensures
        views(r@) == runtime_lines(runtimes@, debug),
{
    let mut r = no_lines();
    let mut i: usize = 0;
    assert(runtimes@.take(0) =~= Seq::empty());
    while i < runtimes.len()
        invariant
            i <= runtimes@.len(),
            views(r@) == runtime_lines(runtimes@.take(i as int), debug),
        decreases runtimes@.len() - i,
    {
        assert(runtimes@.take(i + 1).drop_last() =~= runtimes@.take(i as int));
        let s = &runtimes[i];
        add_line(&mut r, make_state_row(s));
        if debug {
            add_lines(
                &mut r,
                print_onnxruntime_debug_details(&s.discovery, s.availability, s.reason.as_str()),
            );
        } else {
            assert(views(r@) + Seq::<Seq<char>>::empty() =~= views(r@));
        }
        i = i + 1;
    }
    assert(runtimes@.take(i as int) =~= runtimes@);
    r
}

/// The diagnosis of the backends.
pub open spec fn diagnosis_lines(d: BackendDiagnosis, host: Host, debug: bool) -> Seq<Seq<char>> {
    line("Werk1112 backend diagnostics"@) + line("executable: "@ + executable_text(d.executable))
        + line("compiled runtimes: "@ + runtime_summary(host)) + line(
        "managed cache: "@ + d.cache@,
    ) + line("CUDA cache: "@ + d.cuda_cache@) + line("ROCm cache: "@ + d.rocm_cache@) + line(
        "Metal cache: "@ + d.metal_cache@,
    ) + line(""@) + check_rows(d.checks@) + check_rows(d.vllm_checks@) + burn_checks(d.burn) + line(
        ""@,
    ) + line(column("RUNTIME"@, 24) + column("STATUS"@, 12) + "DETAIL"@) + burn_runtimes(
        d.burn,
        debug,
    ) + runtime_lines(d.runtimes@, debug)
}

pub fn print_backend_doctor(d: &BackendDiagnosis, host: Host, debug: bool) -> (r: Vec<String>)
    ensures
        views(r@) == diagnosis_lines(*d, host, debug),
{
    let mut r = no_lines();
    add_line(&mut r, "Werk1112 backend diagnostics".to_owned());
    assert(views(r@) =~= line("Werk1112 backend diagnostics"@));
    let executable = match &d.executable {
        Ok(path) => path.clone(),
        Err(error) => join3("unknown (", error.as_str(), ")"),
    };
    add_line(&mut r, join2("executable: ", executable.as_str()));
    let summary = compiled_runtime_summary(host);
    add_line(&mut r, join2("compiled runtimes: ", summary.as_str()));
    add_line(&mut r, join2("managed cache: ", d.cache.as_str()));
    add_line(&mut r, join2("CUDA cache: ", d.cuda_cache.as_str()));
    add_line(&mut r, join2("ROCm cache: ", d.rocm_cache.as_str()));
    add_line(&mut r, join2("Metal cache: ", d.metal_cache.as_str()));
    add_line(&mut r, "".to_owned());
    add_lines(&mut r, tell_checks(&d.checks));
    add_lines(&mut r, tell_checks(&d.vllm_checks));
    add_lines(&mut r, tell_burn_checks(&d.burn));
    add_line(&mut r, "".to_owned());
    let mut head = empty_row();
    add_column(&mut head, "RUNTIME", 24);
    assert(head@ =~= column("RUNTIME"@, 24));
    add_column(&mut head, "STATUS", 12);
    head.push_str("DETAIL");
    add_line(&mut r, head);
    add_lines(&mut r, tell_burn_runtimes(&d.burn, debug));
    add_lines(&mut r, tell_runtimes(&d.runtimes, debug));
    r
}

// ---------------------------------------------------------------------------
// The media companion and the models
// ---------------------------------------------------------------------------

#[derive(Debug)]
pub struct CompanionCheck {
    pub name: String,
    pub available: bool,
    pub required: bool,
    pub detail: String,
}

#[derive(Debug)]
pub struct CompanionReport {
    pub available: bool,
    pub summary: String,
    pub launcher: Option<String>,
    pub checks: Vec<CompanionCheck>,
}

/// A check that speaks of a runtime, where one is asked for.
pub open spec fn speaks_of(c: CompanionCheck, runtime: Option<Seq<char>>) -> bool {
    match runtime {
        Some(name) => holds(lowered(c.name@), lowered(name)) || holds(
            lowered(c.detail@),
            lowered(name),
        ),
        None => true,
    }
}

fn check_speaks_of(c: &CompanionCheck, runtime: Option<&str>) -> (r: bool)
    ensures
        r == speaks_of(*c, opt_str_view(runtime)),
{
    match runtime {
        Some(name) => {
            let name = str_lower(name);
            let own = str_lower(c.name.as_str());
            let detail = str_lower(c.detail.as_str());
            str_contains(own.as_str(), name.as_str()) || str_contains(
                detail.as_str(),
                name.as_str(),
            )
        },
        None => true,
    }
}

pub open spec fn companion_row(c: CompanionCheck) -> Seq<char> {
    let status = if c.available {
        "ok"@
    } else if c.required {
        "missing"@
    } else {
        "optional"@
    };
    column(status, 12) + column(c.name@, 24) + c.detail@
}

pub open spec fn companion_rows(checks: Seq<CompanionCheck>, runtime: Option<Seq<char>>) -> Seq<
    Seq<char>,
>
    decreases checks.len(),
{
    if checks.len() == 0 {
        Seq::empty()
    } else {
        let rest = companion_rows(checks.drop_last(), runtime);
        if speaks_of(checks.last(), runtime) {
            rest + line(companion_row(checks.last()))
        } else {
            rest
        }
    }
}

fn tell_companion(checks: &Vec<CompanionCheck>, runtime: Option<&str>) -> (r: Vec<String>)
    ensures
        views(r@) == companion_rows(checks@, opt_str_view(runtime)),
{
    let mut r = no_lines();
    let mut i: usize = 0;
    assert(checks@.take(0) =~= Seq::empty());
    while i < checks.len()
        invariant
            i <= checks@.len(),
            views(r@) == companion_rows(checks@.take(i as int), opt_str_view(runtime)),
        decreases checks@.len() - i,
    {
        assert(checks@.take(i + 1).drop_last() =~= checks@.take(i as int));
        let c = &checks[i];
        if check_speaks_of(c, runtime) {
            let status = if c.available {
                "ok"
            } else if c.required {
                "missing"
            } else {
                "optional"
            };
            let mut row = empty_row();
            add_column(&mut row, status, 12);
            assert(row@ =~= column(status@, 12));
            add_column(&mut row, c.name.as_str(), 24);
            row.push_str(c.detail.as_str());
            add_line(&mut r, row);
        }
        i = i + 1;
    }
    assert(checks@.take(i as int) =~= checks@);
    r
}

/// A candidate of a plan, with the name of its status.
#[derive(Debug)]
pub struct PlannedCandidate {
    pub runtime_id: String,
    pub status: String,
    pub reasons: Vec<String>,
}

/// What planning for a model came to, with the names of its task, layout and
/// fit.
#[derive(Debug)]
pub struct ModelPlan {
    pub layout: String,
    pub fit: String,
    pub selected_runtime: Option<String>,
    pub readiness: Option<TaskReadiness>,
    pub candidates: Vec<PlannedCandidate>,
}

#[derive(Debug)]
pub struct ModelDiagnosis {
    pub id: String,
    pub task: String,
    /// The plan, or why there is none.
    pub plan: Result<ModelPlan, String>,
}

pub open spec fn candidate_row(c: PlannedCandidate) -> Seq<char> {
    "  "@ + column(c.runtime_id@, 24) + c.status@ + ": "@ + if c.reasons@.len() == 0 {
        "eligible"@
    } else {
        joined(views(c.reasons@), "; "@)
    }
}

pub open spec fn candidate_rows(all: Seq<PlannedCandidate>) -> Seq<Seq<char>> {
    all.map_values(|c: PlannedCandidate| candidate_row(c))
}

fn tell_planned(all: &Vec<PlannedCandidate>) -> (r: Vec<String>)
    ensures
        views(r@) == candidate_rows(all@),
{
    let mut rows: Vec<String> = Vec::new();
    let mut i: usize = 0;
    while i < all.len()
        invariant
            i <= all@.len(),
            rows@.len() == i,
            forall|j: int| 0 <= j < i ==> (#[trigger] rows@[j])@ == candidate_row(all@[j]),
        decreases all@.len() - i,
    {
        let c = &all[i];
        let mut row = "  ".to_owned();
        add_column(&mut row, c.runtime_id.as_str(), 24);
        row.push_str(c.status.as_str());
        row.push_str(": ");
        if c.reasons.len() == 0 {
            row.push_str("eligible");
        } else {
            let reasons = join_strings(&c.reasons, "; ");
            row.push_str(reasons.as_str());
        }
        rows.push(row);
        i = i + 1;
    }
    assert(views(rows@) =~= candidate_rows(all@));
    rows
}

pub open spec fn model_lines(m: ModelDiagnosis) -> Seq<Seq<char>> {
    match m.plan {
        Ok(plan) => line(
            "Model "@ + m.id@ + ": task="@ + m.task@ + ", layout="@ + plan.layout@ + ", fit="@
                + plan.fit@ + ", runtime="@ + match opt_view(plan.selected_runtime) {
                Some(name) => name,
                None => "none"@,
            },
        ) + (match plan.readiness {
            Some(readiness) => readiness_lines(readiness@),
            None => Seq::empty(),
        }) + candidate_rows(plan.candidates@),
        Err(error) => line("Model "@ + m.id@ + ": diagnostic warning: "@ + error@),
    }
}

fn tell_model(m: &ModelDiagnosis) -> (r: Vec<String>)
    ensures
        views(r@) == model_lines(*m),
{
    let mut r = no_lines();
    match &m.plan {
        Ok(plan) => {
            let mut text = join5("Model ", m.id.as_str(), ": task=", m.task.as_str(), ", layout=");
            text.push_str(plan.layout.as_str());
            text.push_str(", fit=");
            text.push_str(plan.fit.as_str());
            text.push_str(", runtime=");
            match &plan.selected_runtime {
                Some(name) => {
                    text.push_str(name.as_str());
                },
                None => {
                    text.push_str("none");
                },
            }
            let ghost first = text@;
            add_line(&mut r, text);
            assert(views(r@) =~= line(first));
            match &plan.readiness {
                Some(readiness) => {
                    add_lines(&mut r, print_task_readiness(readiness));
                },
                None => {
                    assert(views(r@) + Seq::<Seq<char>>::empty() =~= views(r@));
                },
            }
            add_lines(&mut r, tell_planned(&plan.candidates));
        },
        Err(error) => {
            let mut text = join3("Model ", m.id.as_str(), ": diagnostic warning: ");
            text.push_str(error.as_str());
            let ghost first = text@;
            add_line(&mut r, text);
            assert(views(r@) =~= line(first));
        },
    }
    r
}

/// The task that a model is diagnosed for: the one that was asked for, or the
/// first of the model, which is known to the user by the name `model`.
pub fn diagnosed_task(asked: Option<InferenceTask>, model: &str, manifest: &ModelManifest) -> (r:
    Result<InferenceTask, String>)
    ensures
        match shown_task(asked, Some(manifest)) {
            Some(task) => r is Ok && r->Ok_0 == task,
            None => r is Err && r->Err_0@ == "model '"@ + model@
                + "' does not declare an inference task"@,
        },
{
    match asked {
        Some(task) => Ok(task),
        None => if manifest.metadata.tasks.len() > 0 {
            Ok(manifest.metadata.tasks[0])
        } else {
            Err(join3("model '", model, "' does not declare an inference task"))
        },
    }
}

/// The names of the models that can do a task.
pub open spec fn able_models(all: Seq<ModelManifest>, task: InferenceTask) -> Seq<Seq<char>>
    decreases all.len(),
{
    if all.len() == 0 {
        Seq::empty()
    } else {
        let rest = able_models(all.drop_last(), task);
        if all.last().metadata.tasks@.contains(task) {
            rest.push(all.last().id@)
        } else {
            rest
        }
    }
}

pub fn models_for_task(all: &Vec<ModelManifest>, task: InferenceTask) -> (r: Vec<String>)
    ensures
        views(r@) == able_models(all@, task),
{
    let mut r = no_lines();
    let mut i: usize = 0;
    assert(all@.take(0) =~= Seq::empty());
    while i < all.len()
        invariant
            i <= all@.len(),
            views(r@) == able_models(all@.take(i as int), task),
        decreases all@.len() - i,
    {
        assert(all@.take(i + 1).drop_last() =~= all@.take(i as int));
        if has_task(&all[i].metadata.tasks, task) {
            let ghost before = r@;
            r.push(all[i].id.as_str().to_owned());
            assert(views(r@) =~= views(before).push(all@[i as int].id@));
        }
        i = i + 1;
    }
    assert(all@.take(i as int) =~= all@);
    r
}

/// The installed models that can do a task.
#[derive(Debug)]
pub struct TaskDiagnosis {
    pub task: String,
    pub models: Vec<String>,
}

pub open spec fn task_line(t: TaskDiagnosis) -> Seq<char> {
    "Task "@ + t.task@ + ": "@ + decimal(t.models@.len()) + " installed model(s)"@ + if t.models@.len()
        == 0 {
        ""@
    } else {
        " ("@ + joined(views(t.models@), ", "@) + ")"@
    }
}

fn tell_task(t: &TaskDiagnosis) -> (r: String)
    ensures
        r@ == task_line(*t),
{
    let count = usize_text(t.models.len());
    let mut r = join5("Task ", t.task.as_str(), ": ", count.as_str(), " installed model(s)");
    if t.models.len() == 0 {
        r.push_str("");
    } else {
        let list = join_strings(&t.models, ", ");
        let part = join3(" (", list.as_str(), ")");
        r.push_str(part.as_str());
    }
    r
}

/// The diagnosis of the media companion, of a task and of a model, below that of
/// the backends.
pub open spec fn inference_lines(
    backends: Seq<Seq<char>>,
    report: CompanionReport,
    runtime: Option<Seq<char>>,
    task: Option<TaskDiagnosis>,
    model: Option<ModelDiagnosis>,
) -> Seq<Seq<char>> {
    line("Werk runtime diagnostics"@) + backends + line(
        "Media companion: "@ + (if report.available {
            "available"@
        } else {
            "unavailable"@
        }) + " ("@ + report.summary@ + ")"@,
    ) + opt_line("Companion launcher: "@, opt_view(report.launcher)) + companion_rows(
        report.checks@,
        runtime,
    ) + (match task {
        Some(task) => line(task_line(task)),
        None => Seq::empty(),
    }) + (match model {
        Some(model) => model_lines(model),
        None => Seq::empty(),
    })
}

pub fn print_inference_doctor(
    backends: Vec<String>,
    report: &CompanionReport,
    runtime: Option<&str>,
    task: &Option<TaskDiagnosis>,
    model: &Option<ModelDiagnosis>,
) -> (r: Vec<String>)
    ensures
        views(r@) == inference_lines(
            views(backends@),
            *report,
            opt_str_view(runtime),
            *task,
            *model,
        ),
{
    let mut r = no_lines();
    add_line(&mut r, "Werk runtime diagnostics".to_owned());
    assert(views(r@) =~= line("Werk runtime diagnostics"@));
    add_lines(&mut r, backends);
    let state = if report.available {
        "available"
    } else {
        "unavailable"
    };
    add_line(
        &mut r,
        join5("Media companion: ", state, " (", report.summary.as_str(), ")"),
    );
    add_opt_line(&mut r, "Companion launcher: ", opt_str(&report.launcher));
    add_lines(&mut r, tell_companion(&report.checks, runtime));
    match task {
        Some(task) => {
            add_line(&mut r, tell_task(task));
        },
        None => {
            assert(views(r@) + Seq::<Seq<char>>::empty() =~= views(r@));
        },
    }
    match model {
        Some(model) => {
            add_lines(&mut r, tell_model(model));
        },
        None => {
            assert(views(r@) + Seq::<Seq<char>>::empty() =~= views(r@));
        },
    }
    r
}

// ---------------------------------------------------------------------------
// Performance
// ---------------------------------------------------------------------------

/// What the in-process llama.cpp runtime says of itself, written out.
#[derive(Debug)]
pub struct RuntimeReport {
    pub runtime: String,
    pub native_commit: String,
    pub compiled: String,
    pub modern_sampler: String,
    pub flash_attn_supported: String,
    pub flash_attn_requested: Option<String>,
    pub cuda_compute_cap: Option<String>,
    pub ctx_size: String,
    pub batch_size: String,
    pub ubatch_size: String,
    pub threads: String,
    pub threads_batch: String,
    pub gpu_layers: String,
    pub main_gpu: String,
    pub kv_cache_type: String,
    pub kv_offload: String,
    pub warmup_tokens: String,
    pub warnings: Vec<String>,
}

pub open spec fn runtime_report_lines(p: RuntimeReport) -> Seq<Seq<char>> {
    line("runtime: "@ + p.runtime@ + " "@ + p.native_commit@) + line("compiled: "@ + p.compiled@)
        + line("modern sampler: "@ + p.modern_sampler@) + line(
        "flash attention supported: "@ + p.flash_attn_supported@,
    ) + opt_line("flash attention requested: "@, opt_view(p.flash_attn_requested)) + opt_line(
        "CUDA_COMPUTE_CAP: "@,
        opt_view(p.cuda_compute_cap),
    ) + line(
        "ctx/batch/ubatch: "@ + p.ctx_size@ + "/"@ + p.batch_size@ + "/"@ + p.ubatch_size@,
    ) + line("threads: generation "@ + p.threads@ + ", batch "@ + p.threads_batch@) + line(
        "gpu layers/main gpu: "@ + p.gpu_layers@ + "/"@ + p.main_gpu@,
    ) + line("KV cache: "@ + p.kv_cache_type@ + ", offload: "@ + p.kv_offload@) + line(
        "warmup tokens: "@ + p.warmup_tokens@,
    ) + crate::workload::labelled("warning: "@, views(p.warnings@))
}

fn pair_text(label: &str, a: &str, between: &str, b: &str) -> (r: String)
    ensures
        r@ == label@ + a@ + between@ + b@,
{
    let mut r = join3(label, a, between);
    r.push_str(b);
    r
}

pub fn print_runtime_report(p: &RuntimeReport) -> (r: Vec<String>)
    ensures
        views(r@) == runtime_report_lines(*p),
{
    let mut r = no_lines();
    add_line(
        &mut r,
        pair_text("runtime: ", p.runtime.as_str(), " ", p.native_commit.as_str()),
    );
    assert(views(r@) =~= line("runtime: "@ + p.runtime@ + " "@ + p.native_commit@));
    add_line(&mut r, join2("compiled: ", p.compiled.as_str()));
    add_line(&mut r, join2("modern sampler: ", p.modern_sampler.as_str()));
    add_line(&mut r, join2("flash attention supported: ", p.flash_attn_supported.as_str()));
    add_opt_line(&mut r, "flash attention requested: ", opt_str(&p.flash_attn_requested));
    add_opt_line(&mut r, "CUDA_COMPUTE_CAP: ", opt_str(&p.cuda_compute_cap));
    let mut sizes = pair_text("ctx/batch/ubatch: ", p.ctx_size.as_str(), "/", p.batch_size.as_str());
    sizes.push_str("/");
    sizes.push_str(p.ubatch_size.as_str());
    add_line(&mut r, sizes);
    add_line(
        &mut r,
        pair_text("threads: generation ", p.threads.as_str(), ", batch ", p.threads_batch.as_str()),
    );
    add_line(
        &mut r,
        pair_text("gpu layers/main gpu: ", p.gpu_layers.as_str(), "/", p.main_gpu.as_str()),
    );
    add_line(
        &mut r,
        pair_text("KV cache: ", p.kv_cache_type.as_str(), ", offload: ", p.kv_offload.as_str()),
    );
    add_line(&mut r, join2("warmup tokens: ", p.warmup_tokens.as_str()));
    add_lines(&mut r, crate::workload::label_all("warning: ", &p.warnings));
    r
}

/// The backend whose runtime reports on itself.
pub fn runtime_report_for_choice(choice: BackendChoice) -> (r: Option<LlamaCppMode>)
    ensures
        r == match choice {
            BackendChoice::LlamaFast(mode) => Some(mode),
            _ => None,
        },
{
    match choice {
        BackendChoice::LlamaFast(mode) => Some(mode),
        _ => None,
    }
}

/// What is told of the performance of a model. There is a report where the
/// backend has one.
pub open spec fn perf_lines(
    m: ModelManifest,
    found: BackendChoice,
    mode_label: Seq<char>,
    report: Option<&RuntimeReport>,
) -> Seq<Seq<char>> {
    line("Werk1112 performance diagnostics"@) + line("model: "@ + m.id@) + line(
        "format: "@ + format_title(m.format),
    ) + line("architecture: "@ + or_unknown(opt_view(m.architecture))) + line(
        "selected backend: "@ + backend_name(found, mode_label),
    ) + match report {
        Some(report) => runtime_report_lines(*report),
        None => line("runtime: "@ + backend_name(found, mode_label)) + line(
            "note: detailed legacy FFI diagnostics are available only for llama-legacy backends"@,
        ),
    }
}

pub fn print_perf_doctor(
    manifest: &ModelManifest,
    found: BackendChoice,
    mode_label: &str,
    report: Option<&RuntimeReport>,
) -> (r: Vec<String>)
    ensures
        views(r@) == perf_lines(*manifest, found, mode_label@, report),
{
    let mut r = no_lines();
    add_line(&mut r, "Werk1112 performance diagnostics".to_owned());
    assert(views(r@) =~= line("Werk1112 performance diagnostics"@));
    add_line(&mut r, join2("model: ", manifest.id.as_str()));
    add_line(&mut r, join2("format: ", format_debug_name(manifest.format)));
    let architecture = text_or_unknown(&manifest.architecture);
    add_line(&mut r, join2("architecture: ", architecture.as_str()));
    add_line(&mut r, join2("selected backend: ", backend_label(found, mode_label)));
    match report {
        Some(report) => {
            add_lines(&mut r, print_runtime_report(report));
        },
        None => {
            let ghost before = views(r@);
            add_line(&mut r, join2("runtime: ", backend_label(found, mode_label)));
            add_line(
                &mut r,
                "note: detailed legacy FFI diagnostics are available only for llama-legacy backends".to_owned(),
            );
            assert(views(r@) =~= before + (line("runtime: "@ + backend_name(found, mode_label@))
                + line(
                "note: detailed legacy FFI diagnostics are available only for llama-legacy backends"@,
            )));
        },
    }
    r
}

// ---------------------------------------------------------------------------
// What diagnostics tell
// ---------------------------------------------------------------------------

/// The first usable attempt is the one that is used.
pub proof fn first_usable_attempts_are_used(attempts: Seq<DiscoveryAttempt>, j: int)
    ensures
        match first_usable(attempts) {
            Some(i) => 0 <= i < attempts.len() && attempts[i].usable && (0 <= j < i
                ==> !attempts[j].usable),
            None => 0 <= j < attempts.len() ==> !attempts[j].usable,
        },
    decreases attempts.len(),
{
    if attempts.len() > 0 {
        let few = attempts.drop_last();
        first_usable_attempts_are_used(few, j);
        if 0 <= j < few.len() {
            assert(few[j] == attempts[j]);
        }
        if let Some(i) = first_usable(few) {
            assert(few[i] == attempts[i]);
        }
    }
}

/// A path is told under the label that it was tried by, the first of them counting.
pub proof fn paths_are_told_by_label(attempts: Seq<DiscoveryAttempt>, label: Seq<char>, k: int)
    ensures
        0 <= k < attempts.len() && attempts[k].label@ == label && (forall|j: int|
            0 <= j < k ==> (#[trigger] attempts[j]).label@ != label) ==> labelled_path(
            attempts,
            label,
        ) == opt_view(attempts[k].path),
        (forall|j: int| 0 <= j < attempts.len() ==> (#[trigger] attempts[j]).label@ != label)
            ==> labelled_path(attempts, label) is None,
    decreases attempts.len(),
{
    if attempts.len() > 0 && attempts[0].label@ != label {
        let rest = attempts.drop_first();
        paths_are_told_by_label(rest, label, k - 1);
        if forall|j: int| 0 <= j < attempts.len() ==> (#[trigger] attempts[j]).label@ != label {
            assert forall|j: int| 0 <= j < rest.len() implies (#[trigger] rest[j]).label@
                != label by {
                assert(rest[j] == attempts[j + 1]);
            }
        }
        if 0 < k < attempts.len() && (forall|j: int|
            0 <= j < k ==> (#[trigger] attempts[j]).label@ != label) {
            assert forall|j: int| 0 <= j < k - 1 implies (#[trigger] rest[j]).label@ != label by {
                assert(rest[j] == attempts[j + 1]);
            }
            assert(rest[k - 1] == attempts[k]);
        }
    }
}

/// What was found is shown before where it would be kept, and that before what is said
/// otherwise.
pub proof fn found_paths_are_shown(d: Discovery, v: VllmDiscovery, otherwise: Seq<char>)
    ensures
        d.path is Some ==> shown_path(d, otherwise) == d.path->0@,
        d.path is None && d.attempts@.len() == 0 ==> shown_path(d, otherwise) == otherwise,
        d.path is None && labelled_path(d.attempts@, "managed cache"@) is Some ==> shown_path(
            d,
            otherwise,
        ) == labelled_path(d.attempts@, "managed cache"@)->0,
        (first_usable(v.discovery.attempts@) matches Some(i) && v.discovery.attempts@[i].path
            is Some) ==> vllm_path(v) == v.discovery.attempts@[first_usable(
            v.discovery.attempts@,
        )->0].path->0@,
        v.discovery.attempts@.len() == 0 ==> vllm_path(v) == v.managed_path@,
{
}

/// A check is well, missing, or a warning where it says that it is only tried; what is
/// not required is optional, and not missing.
pub proof fn checks_are_well_or_missing(c: DoctorCheck, k: CompanionCheck)
    ensures
        check_status(c) == "warn"@ <==> holds(c.detail@, "best-effort on WSL"@),
        !holds(c.detail@, "best-effort on WSL"@) ==> (c.ok <==> check_status(c) == "ok"@),
        !holds(c.detail@, "best-effort on WSL"@) && !c.ok ==> check_status(c) == "missing"@,
        k.available ==> column("ok"@, 12).is_prefix_of(companion_row(k)),
        !k.available && k.required ==> column("missing"@, 12).is_prefix_of(companion_row(k)),
        !k.available && !k.required ==> column("optional"@, 12).is_prefix_of(companion_row(k)),
        c.ok ==> ("  - "@ + c.name@ + ": "@ + "ok"@).is_prefix_of(probe_check_line(c)),
        !c.ok ==> ("  - "@ + c.name@ + ": "@ + "failed"@).is_prefix_of(probe_check_line(c)),
        c.ok ==> (column(c.name@, 24) + column("ok"@, 7)).is_prefix_of(burn_check_row(c)),
        !c.ok ==> (column(c.name@, 24) + column("missing"@, 7)).is_prefix_of(burn_check_row(c)),
        c.detail@.is_suffix_of(check_row(c)),
        c.detail@.is_suffix_of(burn_check_row(c)),
        k.detail@.is_suffix_of(companion_row(k)),
{
    reveal_strlit("warn");
    reveal_strlit("ok");
    reveal_strlit("missing");
    assert("warn"@.len() == 4 && "ok"@.len() == 2 && "missing"@.len() == 7);
    let status = if k.available {
        "ok"@
    } else if k.required {
        "missing"@
    } else {
        "optional"@
    };
    let row = companion_row(k);
    assert(column(status, 12) =~= row.take(column(status, 12).len() as int));
    assert(k.detail@ =~= row.skip(row.len() - k.detail@.len()));
    let word = if c.ok {
        "ok"@
    } else {
        "failed"@
    };
    let probe = "  - "@ + c.name@ + ": "@ + word;
    assert(probe =~= probe_check_line(c).take(probe.len() as int));
    let state = if c.ok {
        "ok"@
    } else {
        "missing"@
    };
    let burn = burn_check_row(c);
    let head = column(c.name@, 24) + column(state, 7);
    assert(head =~= burn.take(head.len() as int));
    assert(c.detail@ =~= burn.skip(burn.len() - c.detail@.len()));
    assert(c.detail@ =~= check_row(c).skip(check_row(c).len() - c.detail@.len()));
}

/// Checks are shown of the runtime that was asked about, and of all where none was.
pub proof fn checks_are_shown_of_the_runtime(
    checks: Seq<CompanionCheck>,
    c: CompanionCheck,
    name: Seq<char>,
)
    ensures
        companion_rows(Seq::empty(), Some(name)).len() == 0,
        companion_rows(checks.push(c), None) == companion_rows(checks, None).push(companion_row(c)),
        holds(lowered(c.name@), lowered(name)) || holds(lowered(c.detail@), lowered(name))
            ==> companion_rows(checks.push(c), Some(name)) == companion_rows(
            checks,
            Some(name),
        ).push(companion_row(c)),
        !holds(lowered(c.name@), lowered(name)) && !holds(lowered(c.detail@), lowered(name))
            ==> companion_rows(checks.push(c), Some(name)) == companion_rows(checks, Some(name)),
{
    assert(checks.push(c).drop_last() =~= checks);
    let row = companion_row(c);
    assert(companion_rows(checks, None) + line(row) =~= companion_rows(checks, None).push(row));
    assert(companion_rows(checks, Some(name)) + line(row) =~= companion_rows(
        checks,
        Some(name),
    ).push(row));
}

/// A model is named under a task exactly where it has the task.
pub proof fn able_models_are_named(all: Seq<ModelManifest>, m: ModelManifest, task: InferenceTask)
    ensures
        able_models(Seq::empty(), task).len() == 0,
        m.metadata.tasks@.contains(task) ==> able_models(all.push(m), task) == able_models(
            all,
            task,
        ).push(m.id@),
        !m.metadata.tasks@.contains(task) ==> able_models(all.push(m), task) == able_models(
            all,
            task,
        ),
{
    assert(all.push(m).drop_last() =~= all);
}

/// Runtimes are shown in their order, those of Burn only where it was built in.
pub proof fn runtimes_are_shown_where_built(
    all: Seq<RegisteredRuntime>,
    d: RegisteredRuntime,
    p: Platform,
)
    ensures
        registered_rows(all.push(d), p, true) == registered_rows(all, p, true).push(
            registered_row(d, p),
        ),
        d.runtime is Burn ==> registered_rows(all.push(d), p, false) == registered_rows(
            all,
            p,
            false,
        ),
        !(d.runtime is Burn) ==> registered_rows(all.push(d), p, false) == registered_rows(
            all,
            p,
            false,
        ).push(registered_row(d, p)),
        d.implemented ==> (column(d.display_name@, 24) + column("implemented"@, 12)).is_prefix_of(
            registered_row(d, p),
        ),
        !d.implemented ==> (column(d.display_name@, 24) + column("pending"@, 12)).is_prefix_of(
            registered_row(d, p),
        ),
        d.install_target is None ==> "-"@.is_suffix_of(registered_row(d, p)),
{
    assert(all.push(d).drop_last() =~= all);
    let row = registered_row(d, p);
    assert(registered_rows(all, p, true) + line(row) =~= registered_rows(all, p, true).push(row));
    assert(registered_rows(all, p, false) + line(row) =~= registered_rows(all, p, false).push(row));
    let head = column(d.display_name@, 24) + column(
        if d.implemented {
            "implemented"@
        } else {
            "pending"@
        },
        12,
    );
    assert(head =~= row.take(head.len() as int));
    if d.install_target is None {
        assert("-"@ =~= row.skip(row.len() - "-"@.len()));
    }
}

/// A runtime is shown by its state: where it was found, that it can be had, or why not.
pub proof fn states_are_shown(s: RuntimeState)
    ensures
        s.availability is Ready && s.discovery.path is Some ==> state_row(s) == column(s.name@, 24)
            + (column("ready"@, 12) + s.discovery.path->0@),
        s.availability is Installable ==> (column(s.name@, 24) + column(
            "installable"@,
            12,
        )).is_prefix_of(state_row(s)),
        s.availability is Unavailable ==> state_row(s) == column(s.name@, 24) + (column(
            "unavailable"@,
            12,
        ) + s.reason@),
{
    if s.availability is Installable {
        let head = column(s.name@, 24) + column("installable"@, 12);
        assert(head =~= state_row(s).take(head.len() as int));
    }
}

/// A runtime counts as found where it has a path, and as helpful where it also answers.
pub proof fn found_runtimes_have_paths(d: LlamaDiscovery, o: OnnxDiscovery)
    ensures
        d.discovery.path is Some ==> llama_row(d) == column(llama_mode_name(d.mode), 8) + column(
            d.discovery.source@,
            16,
        ) + column("yes"@, 7) + column(
            if d.help_ok {
                "yes"@
            } else {
                "no"@
            },
            7,
        ) + d.discovery.path->0@,
        d.discovery.path is None ==> (column(llama_mode_name(d.mode), 8) + column(
            d.discovery.source@,
            16,
        ) + column("no"@, 7) + column("no"@, 7)).is_prefix_of(llama_row(d)),
        o.discovery.attempts@.len() == 0 && o.discovery.path is None ==> onnx_row(o) == column(
            onnx_mode_name(o.mode),
            8,
        ) + column(o.discovery.source@, 16) + column("no"@, 7) + column("no"@, 7)
            + o.managed_path@,
{
    if d.discovery.path is None {
        let head = column(llama_mode_name(d.mode), 8) + column(d.discovery.source@, 16) + column(
            "no"@,
            7,
        ) + column("no"@, 7);
        assert(head =~= llama_row(d).take(head.len() as int));
    }
}

} // verus!

//! The parameters that a task takes, and which of them the runtimes of a model
//! support.

use vstd::prelude::*;

use crate::args::{backend_arg_name, requested_backend_label, BackendArg};
use crate::commands::check_sources;
use crate::manifest::{has_task, InferenceTask, ModelManifest};
use crate::readiness::{print_task_readiness, readiness_lines, TaskReadiness};
use crate::report_lines::{add_column, add_line, add_lines, column, empty_row, line, no_lines};
use crate::text::{join2, join3, lowered, opt_view, str_eq, str_eq_ignore_case, views};

verus! {

/// The task whose parameters are shown: the one that was asked for, or the first
/// of the model.
pub open spec fn shown_task(asked: Option<InferenceTask>, manifest: Option<&ModelManifest>) -> Option<
    InferenceTask,
> {
    if asked is Some {
        asked
    } else {
        match manifest {
            Some(m) => if m.metadata.tasks@.len() > 0 {
                Some(m.metadata.tasks@[0])
            } else {
                None
            },
            None => None,
        }
    }
}

/// Chooses the task. `name` is that of a task that was asked for.
pub fn parameters_task(
    asked: Option<InferenceTask>,
    name: &str,
    manifest: Option<&ModelManifest>,
) -> (r: Result<InferenceTask, String>)
    ensures
        match r {
            Ok(task) => shown_task(asked, manifest) == Some(task) && (manifest matches Some(m)
                ==> m.metadata.tasks@.contains(task)),
            Err(message) => match shown_task(asked, manifest) {
                None => message@ == "provide --task or an installed MODEL with declared tasks"@,
                Some(task) => manifest matches Some(m) && !m.metadata.tasks@.contains(task)
                    && message@ == "model '"@ + m.id@ + "' does not declare support for task "@
                    + name@,
            },
        },
{
    let task = match asked {
        Some(task) => task,
        None => match manifest {
            Some(m) => if m.metadata.tasks.len() > 0 {
                m.metadata.tasks[0]
            } else {
                return Err(
                    "provide --task or an installed MODEL with declared tasks".to_owned(),
                );
            },
            None => {
                return Err(
                    "provide --task or an installed MODEL with declared tasks".to_owned(),
                );
            },
        },
    };
    if let Some(m) = manifest {
        if !has_task(&m.metadata.tasks, task) {
            let mut message = join3(
                "model '",
                m.id.as_str(),
                "' does not declare support for task ",
            );
            message.push_str(name);
            return Err(message);
        }
    }
    Ok(task)
}

/// A runtime that could do the task: its names, how it is preferred, and what it
/// makes of each parameter.
#[derive(Debug)]
pub struct RuntimeCandidate {
    pub id: String,
    pub backend: String,
    pub accelerator: String,
    pub available: bool,
    pub priority: i64,
    /// The name of the support for each parameter.
    pub support: Vec<(String, String)>,
}

pub open spec fn same_name(a: Seq<char>, b: Seq<char>) -> bool {
    lowered(a) == lowered(b)
}

/// A candidate that goes by this name; Metal also goes by that of its shaders.
pub open spec fn goes_by(c: RuntimeCandidate, name: Seq<char>) -> bool {
    same_name(c.id@, name) || same_name(c.backend@, name) || same_name(c.accelerator@, name) || (
    name == "metal"@ && same_name(c.accelerator@, "mps"@))
}

fn candidate_goes_by(c: &RuntimeCandidate, name: &str) -> (r: bool)
    ensures
        r == goes_by(*c, name@),
{
    str_eq_ignore_case(c.id.as_str(), name) || str_eq_ignore_case(c.backend.as_str(), name)
        || str_eq_ignore_case(c.accelerator.as_str(), name) || (str_eq(name, "metal")
        && str_eq_ignore_case(c.accelerator.as_str(), "mps"))
}

/// The candidates that go by the name of the backend, where one was named.
pub open spec fn kept_candidates(all: Seq<RuntimeCandidate>, backend: BackendArg) -> Seq<
    RuntimeCandidate,
> {
    if backend is Auto {
        all
    } else {
        all.filter(|c: RuntimeCandidate| goes_by(c, backend_arg_name(backend)))
    }
}

/// Keeps the candidates of a backend. A model without any is refused.
pub fn retain_candidates(candidates: Vec<RuntimeCandidate>, backend: BackendArg, has_model: bool) -> (r:
    Result<Vec<RuntimeCandidate>, String>)
    ensures
        match r {
            Ok(kept) => kept@ == kept_candidates(candidates@, backend) && (backend is Auto
                || !has_model || kept@.len() > 0),
            Err(message) => !(backend is Auto) && has_model && kept_candidates(
                candidates@,
                backend,
            ).len() == 0 && message@ == "no runtime matching backend '"@ + backend_arg_name(backend)
                + "' supports model/task"@,
        },
{
    if backend == BackendArg::Auto {
        return Ok(candidates);
    }
    let name = requested_backend_label(backend);
    let ghost all = candidates@;
    let ghost keep = |c: RuntimeCandidate| goes_by(c, backend_arg_name(backend));
    let mut rest = candidates;
    let mut kept: Vec<RuntimeCandidate> = Vec::new();
    let ghost mut n: int = 0;
    proof {
        reveal(Seq::filter);
        assert(all.take(0) =~= Seq::empty());
        assert(all.skip(0) =~= all);
    }
    assert(kept@ =~= all.take(0).filter(keep));
    while rest.len() > 0
        invariant
            0 <= n <= all.len(),
            rest@ == all.skip(n),
            name@ == backend_arg_name(backend),
            keep == (|c: RuntimeCandidate| goes_by(c, backend_arg_name(backend))),
            kept@ == all.take(n).filter(keep),
        decreases rest@.len(),
    {
        let c = rest.remove(0);
        proof {
            reveal(Seq::filter);
            assert(c == all[n]);
            assert(rest@ =~= all.skip(n + 1));
            assert(all.take(n + 1).drop_last() =~= all.take(n));
        }
        if candidate_goes_by(&c, name) {
            kept.push(c);
        }
        proof {
            n = n + 1;
        }
    }
    assert(all.take(n) =~= all);
    if has_model && kept.len() == 0 {
        return Err(join3("no runtime matching backend '", name, "' supports model/task"));
    }
    Ok(kept)
}

/// The candidate that is preferred: the last of those with the highest priority.
pub open spec fn preferred(all: Seq<RuntimeCandidate>, only_available: bool) -> Option<int>
    decreases all.len(),
{
    if all.len() == 0 {
        None
    } else {
        let rest = preferred(all.drop_last(), only_available);
        let last = all.last();
        if only_available && !last.available {
            rest
        } else {
            match rest {
                Some(i) => if all[i].priority > last.priority {
                    Some(i)
                } else {
                    Some(all.len() - 1)
                },
                None => Some(all.len() - 1),
            }
        }
    }
}

/// The candidate whose support is shown: the preferred of those that are
/// available, or else of all.
pub open spec fn shown_candidate(all: Seq<RuntimeCandidate>) -> Option<int> {
    match preferred(all, true) {
        Some(i) => Some(i),
        None => preferred(all, false),
    }
}

fn find_preferred(all: &Vec<RuntimeCandidate>, only_available: bool) -> (r: Option<usize>)
    ensures
        match r {
            Some(i) => i < all@.len() && preferred(all@, only_available) == Some(i as int),
            None => preferred(all@, only_available) is None,
        },
{
    let mut found: Option<usize> = None;
    let mut i: usize = 0;
    assert(all@.take(0) =~= Seq::empty());
    while i < all.len()
        invariant
            i <= all@.len(),
            match found {
                Some(k) => k < i && preferred(all@.take(i as int), only_available) == Some(
                    k as int,
                ),
                None => preferred(all@.take(i as int), only_available) is None,
            },
        decreases all@.len() - i,
    {
        assert(all@.take(i + 1).drop_last() =~= all@.take(i as int));
        if !only_available || all[i].available {
            let replace = match found {
                Some(k) => all[k].priority <= all[i].priority,
                None => true,
            };
            if replace {
                found = Some(i);
            }
        }
        i = i + 1;
    }
    assert(all@.take(i as int) =~= all@);
    found
}

pub fn parameter_support_candidate(all: &Vec<RuntimeCandidate>) -> (r: Option<usize>)
    ensures
        match r {
            Some(i) => i < all@.len() && shown_candidate(all@) == Some(i as int),
            None => shown_candidate(all@) is None,
        },
{
    match find_preferred(all, true) {
        Some(i) => Some(i),
        None => find_preferred(all, false),
    }
}

/// The candidates that are shown, and the one whose support is.
#[derive(Debug)]
pub struct ShownCandidates {
    pub candidates: Vec<RuntimeCandidate>,
    pub support: Option<usize>,
}

/// What is wrong with the parameters that are asked for: a model that no runtime of
/// the backend can run, then sources without a model.
pub open spec fn parameters_error(
    candidates: Seq<RuntimeCandidate>,
    backend: BackendArg,
    has_model: bool,
    sources: bool,
) -> Option<Seq<char>> {
    if !(backend is Auto) && has_model && kept_candidates(candidates, backend).len() == 0 {
        Some(
            "no runtime matching backend '"@ + backend_arg_name(backend)
                + "' supports model/task"@,
        )
    } else if sources && !has_model {
        Some("--sources requires an installed MODEL"@)
    } else {
        None
    }
}

/// Chooses among the candidates of a model.
pub fn choose_candidates(
    candidates: Vec<RuntimeCandidate>,
    backend: BackendArg,
    has_model: bool,
    sources: bool,
) -> (r: Result<ShownCandidates, String>)
    ensures
        match parameters_error(candidates@, backend, has_model, sources) {
            Some(message) => r is Err && r->Err_0@ == message,
            None => r is Ok && ({
                let kept = kept_candidates(candidates@, backend);
                &&& r->Ok_0.candidates@ == kept
                &&& match r->Ok_0.support {
                    Some(i) => i < kept.len() && shown_candidate(kept) == Some(i as int),
                    None => shown_candidate(kept) is None,
                }
            }),
        },
{
    let candidates = match retain_candidates(candidates, backend, has_model) {
        Ok(candidates) => candidates,
        Err(message) => {
            return Err(message);
        },
    };
    match check_sources(sources, has_model) {
        Ok(()) => {},
        Err(message) => {
            return Err(message);
        },
    }
    let support = parameter_support_candidate(&candidates);
    Ok(ShownCandidates { candidates, support })
}

/// The model of an example: the one that was named, or what stands for one.
pub fn example_model(manifest: Option<&ModelManifest>) -> (r: String)
    ensures
        r@ == match manifest {
            Some(m) => m.id@,
            None => "MODEL"@,
        },
{
    match manifest {
        Some(m) => m.id.as_str().to_owned(),
        None => "MODEL".to_owned(),
    }
}

/// No candidate that could be shown has a higher priority than the preferred.
pub proof fn preferred_has_the_highest_priority(all: Seq<RuntimeCandidate>, only_available: bool)
    ensures
        match preferred(all, only_available) {
            Some(i) => 0 <= i < all.len() && (only_available ==> all[i].available) && forall|j: int|
                0 <= j < all.len() && (only_available ==> (#[trigger] all[j]).available)
                    ==> all[j].priority <= all[i].priority,
            None => forall|j: int|
                0 <= j < all.len() ==> only_available && !(#[trigger] all[j]).available,
        },
    decreases all.len(),
{
    if all.len() > 0 {
        let rest = all.drop_last();
        preferred_has_the_highest_priority(rest, only_available);
        assert forall|j: int| 0 <= j < rest.len() implies rest[j] == #[trigger] all[j] by {}
    }
}

/// A parameter, with the names of its parts.
#[derive(Debug)]
pub struct ParameterDescriptor {
    pub path: String,
    pub value_type: String,
    pub category: String,
    pub cli_flag: String,
    pub default: Option<String>,
}

pub open spec fn support_of(support: Seq<(String, String)>, path: Seq<char>) -> Seq<char>
    decreases support.len(),
{
    if support.len() == 0 {
        "-"@
    } else if support[0].0@ == path {
        support[0].1@
    } else {
        support_of(support.drop_first(), path)
    }
}

fn find_support(support: &Vec<(String, String)>, path: &str) -> (r: String)
    ensures
        r@ == support_of(support@, path@),
{
    let mut i: usize = 0;
    assert(support@.skip(0) =~= support@);
    while i < support.len()
        invariant
            i <= support@.len(),
            support_of(support@, path@) == support_of(support@.skip(i as int), path@),
        decreases support@.len() - i,
    {
        assert(support@.skip(i as int).drop_first() =~= support@.skip(i + 1));
        if str_eq(support[i].0.as_str(), path) {
            return support[i].1.clone();
        }
        i = i + 1;
    }
    "-".to_owned()
}

pub open spec fn parameter_row(
    path: Seq<char>,
    value_type: Seq<char>,
    category: Seq<char>,
    flag: Seq<char>,
    support: Seq<char>,
    default: Seq<char>,
) -> Seq<char> {
    column(path, 34) + column(value_type, 12) + column(category, 16) + column(flag, 18) + column(
        support,
        15,
    ) + default
}

fn make_parameter_row(
    path: &str,
    value_type: &str,
    category: &str,
    flag: &str,
    support: &str,
    default: &str,
) -> (r: String)
    ensures
        r@ == parameter_row(path@, value_type@, category@, flag@, support@, default@),
{
    let mut r = empty_row();
    add_column(&mut r, path, 34);
    assert(r@ =~= column(path@, 34));
    add_column(&mut r, value_type, 12);
    add_column(&mut r, category, 16);
    add_column(&mut r, flag, 18);
    add_column(&mut r, support, 15);
    r.push_str(default);
    r
}

pub open spec fn descriptor_row(d: ParameterDescriptor, support: Option<Seq<(String, String)>>) -> Seq<
    char,
> {
    parameter_row(
        d.path@,
        d.value_type@,
        d.category@,
        d.cli_flag@,
        match support {
            Some(support) => support_of(support, d.path@),
            None => "-"@,
        },
        match opt_view(d.default) {
            Some(default) => default,
            None => "-"@,
        },
    )
}

/// The table of parameters.
pub open spec fn parameter_table(
    task: Seq<char>,
    descriptors: Seq<ParameterDescriptor>,
    support: Option<Seq<(String, String)>>,
    readiness: Option<&TaskReadiness>,
) -> Seq<Seq<char>> {
    line("Parameters for "@ + task) + line(
        parameter_row("PATH"@, "TYPE"@, "CATEGORY"@, "CLI FLAG"@, "SUPPORT"@, "DEFAULT"@),
    ) + descriptors.map_values(|d: ParameterDescriptor| descriptor_row(d, support)) + match readiness {
        Some(readiness) => readiness_lines(readiness@),
        None => Seq::empty(),
    }
}

pub open spec fn support_list(candidate: Option<&RuntimeCandidate>) -> Option<Seq<(String, String)>> {
    match candidate {
        Some(c) => Some(c.support@),
        None => None,
    }
}

pub fn print_parameters(
    task: &str,
    descriptors: &Vec<ParameterDescriptor>,
    candidate: Option<&RuntimeCandidate>,
    readiness: Option<&TaskReadiness>,
) -> (r: Vec<String>)
    ensures
        views(r@) == parameter_table(task@, descriptors@, support_list(candidate), readiness),
{
    let mut r = no_lines();
    add_line(&mut r, join2("Parameters for ", task));
    assert(views(r@) =~= line("Parameters for "@ + task@));
    add_line(
        &mut r,
        make_parameter_row("PATH", "TYPE", "CATEGORY", "CLI FLAG", "SUPPORT", "DEFAULT"),
    );
    let ghost support_seq = support_list(candidate);
    let mut rows: Vec<String> = Vec::new();
    let mut i: usize = 0;
    while i < descriptors.len()
        invariant
            i <= descriptors@.len(),
            rows@.len() == i,
            support_seq == support_list(candidate),
            forall|j: int|
                0 <= j < i ==> (#[trigger] rows@[j])@ == descriptor_row(
                    descriptors@[j],
                    support_seq,
                ),
        decreases descriptors@.len() - i,
    {
        let d = &descriptors[i];
        let support = match candidate {
            Some(c) => find_support(&c.support, d.path.as_str()),
            None => "-".to_owned(),
        };
        let default = match &d.default {
            Some(default) => default.as_str(),
            None => "-",
        };
        rows.push(
            make_parameter_row(
                d.path.as_str(),
                d.value_type.as_str(),
                d.category.as_str(),
                d.cli_flag.as_str(),
                support.as_str(),
                default,
            ),
        );
        i = i + 1;
    }
    assert(views(rows@) =~= descriptors@.map_values(
        |d: ParameterDescriptor| descriptor_row(d, support_seq),
    ));
    add_lines(&mut r, rows);
    match readiness {
        Some(readiness) => {
            add_lines(&mut r, print_task_readiness(readiness));
        },
        None => {
            assert(views(r@) + Seq::<Seq<char>>::empty() =~= views(r@));
        },
    }
    r
}

// ---------------------------------------------------------------------------
// What is shown of the parameters
// ---------------------------------------------------------------------------

/// The parameters are those of the task that was asked for, or of the first that the
/// model has.
pub proof fn asked_tasks_are_shown(task: InferenceTask, manifest: &ModelManifest)
    ensures
        forall|m: Option<&ModelManifest>| #[trigger] shown_task(Some(task), m) == Some(task),
        shown_task(None, None) is None,
        shown_task(None, Some(manifest)) is None <==> manifest.metadata.tasks@.len() == 0,
        manifest.metadata.tasks@.len() > 0 ==> shown_task(None, Some(manifest)) == Some(
            manifest.metadata.tasks@[0],
        ),
{
}

proof fn lemma_kept(
    all: Seq<RuntimeCandidate>,
    pred: spec_fn(RuntimeCandidate) -> bool,
    c: RuntimeCandidate,
)
    ensures
        all.filter(pred).contains(c) ==> all.contains(c) && pred(c),
    decreases all.len(),
{
    reveal(Seq::filter);
    if all.len() > 0 && all.filter(pred).contains(c) {
        let few = all.drop_last();
        lemma_kept(few, pred, c);
        let i = choose|i: int| 0 <= i < all.filter(pred).len() && all.filter(pred)[i] == c;
        if i < few.filter(pred).len() {
            assert(few.filter(pred)[i] == c);
            let k = choose|k: int| 0 <= k < few.len() && few[k] == c;
            assert(all[k] == c);
        } else {
            assert(all[all.len() - 1] == c);
        }
    }
}

/// A candidate is kept where what was named is its own name, its backend's or its
/// accelerator's, whatever the case of the letters; all are kept where nothing is named.
pub proof fn candidates_are_kept_by_name(
    all: Seq<RuntimeCandidate>,
    c: RuntimeCandidate,
    backend: BackendArg,
)
    ensures
        kept_candidates(all, BackendArg::Auto) == all,
        !(backend is Auto) && all.contains(c) ==> {
            let name = backend_arg_name(backend);
            kept_candidates(all, backend).contains(c) <==> lowered(c.id@) == lowered(name)
                || lowered(c.backend@) == lowered(name) || lowered(c.accelerator@) == lowered(name)
                || (backend is Metal && lowered(c.accelerator@) == lowered("mps"@))
        },
        kept_candidates(all, backend).contains(c) ==> all.contains(c),
{
    let name = backend_arg_name(backend);
    let kept = |c: RuntimeCandidate| goes_by(c, name);
    if !(backend is Auto) {
        lemma_kept(all, kept, c);
        if all.contains(c) && kept(c) {
            let i = choose|i: int| 0 <= i < all.len() && all[i] == c;
            all.lemma_filter_contains(kept, i);
        }
        crate::args::arguments_have_their_names(backend);
    }
}

/// An available candidate is shown before any other, and of those the one that comes
/// first by its priority.
pub proof fn available_candidates_are_shown(all: Seq<RuntimeCandidate>, j: int)
    requires
        0 <= j < all.len(),
    ensures
        shown_candidate(all) matches Some(i) && 0 <= i < all.len(),
        all[j].available ==> all[shown_candidate(all)->0].available,
        all[j].available ==> all[j].priority <= all[shown_candidate(all)->0].priority,
        !all[shown_candidate(all)->0].available ==> all[j].priority <= all[shown_candidate(
            all,
        )->0].priority,
{
    preferred_has_the_highest_priority(all, true);
    preferred_has_the_highest_priority(all, false);
}

/// What a runtime says of a parameter is what stands first under its path.
pub proof fn support_is_what_the_runtime_says(
    support: Seq<(String, String)>,
    path: Seq<char>,
    k: int,
)
    ensures
        0 <= k < support.len() && support[k].0@ == path && (forall|j: int|
            0 <= j < k ==> (#[trigger] support[j]).0@ != path) ==> support_of(support, path)
            == support[k].1@,
        (forall|j: int| 0 <= j < support.len() ==> (#[trigger] support[j]).0@ != path)
            ==> support_of(support, path) == "-"@,
    decreases support.len(),
{
    if support.len() > 0 && support[0].0@ != path {
        let rest = support.drop_first();
        support_is_what_the_runtime_says(rest, path, k - 1);
        if forall|j: int| 0 <= j < support.len() ==> (#[trigger] support[j]).0@ != path {
            assert forall|j: int| 0 <= j < rest.len() implies (#[trigger] rest[j]).0@ != path by {
                assert(rest[j] == support[j + 1]);
            }
        }
        if 0 < k < support.len() && (forall|j: int|
            0 <= j < k ==> (#[trigger] support[j]).0@ != path) {
            assert forall|j: int| 0 <= j < k - 1 implies (#[trigger] rest[j]).0@ != path by {
                assert(rest[j] == support[j + 1]);
            }
            assert(rest[k - 1] == support[k]);
        }
    }
}

/// Below its head, the table has one row for each parameter, in their order.
pub proof fn every_parameter_has_its_row(
    task: Seq<char>,
    descriptors: Seq<ParameterDescriptor>,
    support: Option<Seq<(String, String)>>,
    readiness: Option<&TaskReadiness>,
    i: int,
)
    requires
        0 <= i < descriptors.len(),
    ensures
        ({
            let row = parameter_table(task, descriptors, support, readiness)[i + 2];
            &&& column(descriptors[i].path@, 34).is_prefix_of(row)
            &&& descriptors[i].default is Some ==> descriptors[i].default->0@.is_suffix_of(row)
            &&& descriptors[i].default is None ==> "-"@.is_suffix_of(row)
        }),
        parameter_table(task, descriptors, support, None).len() == descriptors.len() + 2,
{
    let d = descriptors[i];
    let row = parameter_table(task, descriptors, support, readiness)[i + 2];
    assert(row == descriptor_row(d, support));
    let default = match opt_view(d.default) {
        Some(default) => default,
        None => "-"@,
    };
    assert(default.is_suffix_of(row)) by {
        assert(row.skip(row.len() - default.len()) =~= default);
    }
    assert(column(d.path@, 34).is_prefix_of(row));
}

} // verus!

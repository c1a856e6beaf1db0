//! Whether a model can do a task here, and what is missing where it cannot.

use vstd::prelude::*;

use crate::report_lines::{add_line, add_lines, line, no_lines};
use crate::text::{join2, join3, join_strings, joined, opt_view, views};

verus! {

#[derive(Clone, Copy, Debug, PartialEq, Eq, Structural)]
pub enum TaskReadinessStatus {
    Available,
    FallbackAvailable,
    Installable,
    NotImplemented,
    Unavailable,
}

/// Something that is missing and can be had in several ways, each a list of
/// packages.
#[derive(Debug)]
pub struct DependencyGroup {
    pub purpose: String,
    pub any_of: Vec<Vec<String>>,
}

/// Whether a task can be done, by what, and what is missing. An install command
/// is one that was found to be safe to recommend.
#[derive(Debug)]
pub struct TaskReadiness {
    pub status: TaskReadinessStatus,
    pub detail: String,
    pub adapter: Option<String>,
    pub required_backend: Option<String>,
    pub install_command: Option<String>,
    pub missing_dependencies: Vec<String>,
    pub missing_dependency_groups: Vec<DependencyGroup>,
}

pub ghost struct GroupView {
    pub purpose: Seq<char>,
    pub any_of: Seq<Seq<Seq<char>>>,
}

pub ghost struct ReadinessView {
    pub status: TaskReadinessStatus,
    pub detail: Seq<char>,
    pub adapter: Option<Seq<char>>,
    pub required_backend: Option<Seq<char>>,
    pub install_command: Option<Seq<char>>,
    pub missing: Seq<Seq<char>>,
    pub groups: Seq<GroupView>,
}

impl DependencyGroup {
    pub open spec fn view(&self) -> GroupView {
        GroupView {
            purpose: self.purpose@,
            any_of: self.any_of@.map_values(|way: Vec<String>| views(way@)),
        }
    }
}

impl TaskReadiness {
    pub open spec fn view(&self) -> ReadinessView {
        ReadinessView {
            status: self.status,
            detail: self.detail@,
            adapter: opt_view(self.adapter),
            required_backend: opt_view(self.required_backend),
            install_command: opt_view(self.install_command),
            missing: views(self.missing_dependencies@),
            groups: self.missing_dependency_groups@.map_values(|g: DependencyGroup| g@),
        }
    }

    /// Readiness with nothing to install.
    pub fn plain(status: TaskReadinessStatus, detail: String, adapter: Option<String>) -> (r: Self)
        ensures
            r@ == plain_readiness(status, detail@, opt_view(adapter)),
    {
        let r = TaskReadiness {
            status,
            detail,
            adapter,
            required_backend: None,
            install_command: None,
            missing_dependencies: Vec::new(),
            missing_dependency_groups: Vec::new(),
        };
        assert(r@.missing =~= Seq::empty());
        assert(r@.groups =~= Seq::empty());
        r
    }
}

pub open spec fn plain_readiness(
    status: TaskReadinessStatus,
    detail: Seq<char>,
    adapter: Option<Seq<char>>,
) -> ReadinessView {
    ReadinessView {
        status,
        detail,
        adapter,
        required_backend: None,
        install_command: None,
        missing: Seq::empty(),
        groups: Seq::empty(),
    }
}

pub open spec fn status_name(status: TaskReadinessStatus) -> Seq<char> {
    match status {
        TaskReadinessStatus::Available => "available"@,
        TaskReadinessStatus::FallbackAvailable => "fallback_available"@,
        TaskReadinessStatus::Installable => "installable"@,
        TaskReadinessStatus::NotImplemented => "not_implemented"@,
        TaskReadinessStatus::Unavailable => "unavailable"@,
    }
}

pub fn task_readiness_status_label(status: TaskReadinessStatus) -> (r: &'static str)
    ensures
        r@ == status_name(status),
{
    match status {
        TaskReadinessStatus::Available => "available",
        TaskReadinessStatus::FallbackAvailable => "fallback_available",
        TaskReadinessStatus::Installable => "installable",
        TaskReadinessStatus::NotImplemented => "not_implemented",
        TaskReadinessStatus::Unavailable => "unavailable",
    }
}

pub open spec fn opt_line(label: Seq<char>, value: Option<Seq<char>>) -> Seq<Seq<char>> {
    match value {
        Some(value) => line(label + value),
        None => Seq::empty(),
    }
}

pub fn add_opt_line(lines: &mut Vec<String>, label: &str, value: Option<&str>)
    ensures
        views(final(lines)@) == views(old(lines)@) + opt_line(
            label@,
            crate::text::opt_str_view(value),
        ),
{
    match value {
        Some(value) => {
            add_line(lines, join2(label, value));
        },
        None => {
            assert(views(lines@) + Seq::<Seq<char>>::empty() =~= views(lines@));
        },
    }
}

pub open spec fn group_line(g: GroupView) -> Seq<char> {
    "  Missing dependency choice ("@ + g.purpose + "): "@ + joined(
        g.any_of.map_values(|way: Seq<Seq<char>>| joined(way, " + "@)),
        " OR "@,
    )
}

fn describe_group(g: &DependencyGroup) -> (r: String)
    ensures
        r@ == group_line(g@),
{
    let mut ways: Vec<String> = Vec::new();
    let mut i: usize = 0;
    while i < g.any_of.len()
        invariant
            i <= g.any_of@.len(),
            ways@.len() == i,
            forall|j: int|
                0 <= j < i ==> (#[trigger] ways@[j])@ == joined(views(g.any_of@[j]@), " + "@),
        decreases g.any_of@.len() - i,
    {
        ways.push(join_strings(&g.any_of[i], " + "));
        i = i + 1;
    }
    assert(views(ways@) =~= g@.any_of.map_values(|way: Seq<Seq<char>>| joined(way, " + "@)));
    let text = join_strings(&ways, " OR ");
    let mut r = join3("  Missing dependency choice (", g.purpose.as_str(), "): ");
    r.push_str(text.as_str());
    r
}

/// What is recommended: to install what is missing where that helps, or to look
/// elsewhere where nothing does.
pub open spec fn recommendation(v: ReadinessView) -> Seq<Seq<char>> {
    match v.status {
        TaskReadinessStatus::Installable => opt_line("  Recommendation: "@, v.install_command),
        TaskReadinessStatus::NotImplemented => line(
            "  Recommendation: choose a supported task/model or add a dedicated adapter"@,
        ),
        _ => Seq::empty(),
    }
}

/// What is told of the readiness of a task.
pub open spec fn readiness_lines(v: ReadinessView) -> Seq<Seq<char>> {
    line("Task readiness: "@ + status_name(v.status)) + line("  "@ + v.detail) + opt_line(
        "  Adapter: "@,
        v.adapter,
    ) + opt_line("  Required backend: "@, v.required_backend) + opt_line(
        "  Missing dependencies: "@,
        if v.missing.len() == 0 {
            None
        } else {
            Some(joined(v.missing, ", "@))
        },
    ) + v.groups.map_values(|g: GroupView| group_line(g)) + recommendation(v)
}

pub fn print_task_readiness(readiness: &TaskReadiness) -> (r: Vec<String>)
    ensures
        views(r@) == readiness_lines(readiness@),
{
    let mut r = no_lines();
    add_line(
        &mut r,
        join2("Task readiness: ", task_readiness_status_label(readiness.status)),
    );
    assert(views(r@) =~= line("Task readiness: "@ + status_name(readiness.status)));
    add_line(&mut r, join2("  ", readiness.detail.as_str()));
    add_opt_line(&mut r, "  Adapter: ", crate::text::opt_str(&readiness.adapter));
    add_opt_line(
        &mut r,
        "  Required backend: ",
        crate::text::opt_str(&readiness.required_backend),
    );
    let missing: Option<String> = if readiness.missing_dependencies.len() == 0 {
        None
    } else {
        Some(join_strings(&readiness.missing_dependencies, ", "))
    };
    add_opt_line(&mut r, "  Missing dependencies: ", crate::text::opt_str(&missing));
    let ghost head = views(r@);
    let mut groups: Vec<String> = Vec::new();
    let mut i: usize = 0;
    while i < readiness.missing_dependency_groups.len()
        invariant
            i <= readiness.missing_dependency_groups@.len(),
            groups@.len() == i,
            forall|j: int|
                0 <= j < i ==> (#[trigger] groups@[j])@ == group_line(
                    readiness.missing_dependency_groups@[j]@,
                ),
        decreases readiness.missing_dependency_groups@.len() - i,
    {
        groups.push(describe_group(&readiness.missing_dependency_groups[i]));
        i = i + 1;
    }
    assert(views(groups@) =~= readiness@.groups.map_values(|g: GroupView| group_line(g)));
    add_lines(&mut r, groups);
    match readiness.status {
        TaskReadinessStatus::Installable => {
            add_opt_line(
                &mut r,
                "  Recommendation: ",
                crate::text::opt_str(&readiness.install_command),
            );
        },
        TaskReadinessStatus::NotImplemented => {
            add_line(
                &mut r,
                "  Recommendation: choose a supported task/model or add a dedicated adapter".to_owned(),
            );
        },
        _ => {
            assert(views(r@) + Seq::<Seq<char>>::empty() =~= views(r@));
        },
    }
    r
}

// ---------------------------------------------------------------------------
// What readiness shows
// ---------------------------------------------------------------------------

/// A task's state is shown by its own word, and what is missing is shown where something
/// is; a command is recommended where it would help.
pub proof fn readiness_shows_what_is_missing(v: ReadinessView)
    ensures
        readiness_lines(v)[0] == "Task readiness: "@ + status_name(v.status),
        readiness_lines(v)[1] == "  "@ + v.detail,
        v.adapter is Some ==> readiness_lines(v)[2] == "  Adapter: "@ + v.adapter->0,
        v.adapter is None && v.required_backend is Some ==> readiness_lines(v)[2]
            == "  Required backend: "@ + v.required_backend->0,
        v.status is Installable && v.install_command is Some ==> readiness_lines(v).last()
            == "  Recommendation: "@ + v.install_command->0,
        v.status is NotImplemented ==> "  Recommendation: "@.is_prefix_of(
            readiness_lines(v).last(),
        ),
        readiness_lines(plain_readiness(v.status, v.detail, None)).len() == if v.status
            is NotImplemented {
            3int
        } else {
            2
        },
        status_name(TaskReadinessStatus::Available) == "available"@,
        status_name(TaskReadinessStatus::Unavailable) == "unavailable"@,
        status_name(TaskReadinessStatus::Installable) == "installable"@,
        status_name(TaskReadinessStatus::FallbackAvailable) == "fallback_available"@,
        status_name(TaskReadinessStatus::NotImplemented) == "not_implemented"@,
{
    reveal_strlit("  Recommendation: ");
    reveal_strlit("  Recommendation: choose a supported task/model or add a dedicated adapter");
    assert("  Recommendation: "@
        =~= "  Recommendation: choose a supported task/model or add a dedicated adapter"@.take(
        "  Recommendation: "@.len() as int,
    ));
}

} // verus!

//! Requests to a running server about its inference states.

use vstd::prelude::*;

use crate::args::{
    RuntimeDemotionTierArg, RuntimeMemoryTierArg, RuntimeStateCommands, RuntimeStateTierArg,
};
use crate::text::{opt_view, views};

verus! {

/// Where an inference state is held.
#[derive(Clone, Copy, Debug, PartialEq, Eq, Structural)]
pub enum StateTier {
    Vram,
    Ram,
    Disk,
    External,
}

impl From<RuntimeStateTierArg> for StateTier {
    fn from(value: RuntimeStateTierArg) -> (r: Self) {
        match value {
            RuntimeStateTierArg::Vram => StateTier::Vram,
            RuntimeStateTierArg::Ram => StateTier::Ram,
            RuntimeStateTierArg::Disk => StateTier::Disk,
            RuntimeStateTierArg::External => StateTier::External,
        }
    }
}

impl vstd::std_specs::convert::FromSpecImpl<RuntimeStateTierArg> for StateTier {
    open spec fn obeys_from_spec() -> bool {
        true
    }

    open spec fn from_spec(value: RuntimeStateTierArg) -> Self {
        state_tier(value)
    }
}

impl From<RuntimeMemoryTierArg> for StateTier {
    fn from(value: RuntimeMemoryTierArg) -> (r: Self) {
        match value {
            RuntimeMemoryTierArg::Vram => StateTier::Vram,
            RuntimeMemoryTierArg::Ram => StateTier::Ram,
        }
    }
}

impl vstd::std_specs::convert::FromSpecImpl<RuntimeMemoryTierArg> for StateTier {
    open spec fn obeys_from_spec() -> bool {
        true
    }

    open spec fn from_spec(value: RuntimeMemoryTierArg) -> Self {
        memory_tier(value)
    }
}

impl From<RuntimeDemotionTierArg> for StateTier {
    fn from(value: RuntimeDemotionTierArg) -> (r: Self) {
        match value {
            RuntimeDemotionTierArg::Ram => StateTier::Ram,
            RuntimeDemotionTierArg::Disk => StateTier::Disk,
        }
    }
}

impl vstd::std_specs::convert::FromSpecImpl<RuntimeDemotionTierArg> for StateTier {
    open spec fn obeys_from_spec() -> bool {
        true
    }

    open spec fn from_spec(value: RuntimeDemotionTierArg) -> Self {
        demotion_tier(value)
    }
}

pub open spec fn state_tier(value: RuntimeStateTierArg) -> StateTier {
    match value {
        RuntimeStateTierArg::Vram => StateTier::Vram,
        RuntimeStateTierArg::Ram => StateTier::Ram,
        RuntimeStateTierArg::Disk => StateTier::Disk,
        RuntimeStateTierArg::External => StateTier::External,
    }
}

pub open spec fn memory_tier(value: RuntimeMemoryTierArg) -> StateTier {
    match value {
        RuntimeMemoryTierArg::Vram => StateTier::Vram,
        RuntimeMemoryTierArg::Ram => StateTier::Ram,
    }
}

pub open spec fn demotion_tier(value: RuntimeDemotionTierArg) -> StateTier {
    match value {
        RuntimeDemotionTierArg::Ram => StateTier::Ram,
        RuntimeDemotionTierArg::Disk => StateTier::Disk,
    }
}

#[derive(Clone, Copy, Debug, PartialEq, Eq, Structural)]
pub enum StateAction {
    Pin,
    Unpin,
    Promote,
    Demote,
    Evict,
}

#[derive(Clone, Copy, Debug, PartialEq, Eq, Structural)]
pub struct StateActionRequest {
    pub action: StateAction,
    pub target_tier: Option<StateTier>,
    pub dry_run: bool,
    pub allow_experimental: bool,
}

/// The request that a command amounts to. Nothing is changed unless the command
/// says so.
pub open spec fn action_request(command: RuntimeStateCommands) -> StateActionRequest {
    match command {
        RuntimeStateCommands::Pin { execute } => StateActionRequest {
            action: StateAction::Pin,
            target_tier: None,
            dry_run: !execute,
            allow_experimental: false,
        },
        RuntimeStateCommands::Unpin { execute } => StateActionRequest {
            action: StateAction::Unpin,
            target_tier: None,
            dry_run: !execute,
            allow_experimental: false,
        },
        RuntimeStateCommands::Promote { target, execute, allow_experimental } => StateActionRequest {
            action: StateAction::Promote,
            target_tier: Some(memory_tier(target)),
            dry_run: !execute,
            allow_experimental,
        },
        RuntimeStateCommands::Demote { target, execute, allow_experimental } => StateActionRequest {
            action: StateAction::Demote,
            target_tier: Some(demotion_tier(target)),
            dry_run: !execute,
            allow_experimental,
        },
        RuntimeStateCommands::Evict { execute } => StateActionRequest {
            action: StateAction::Evict,
            target_tier: None,
            dry_run: !execute,
            allow_experimental: false,
        },
    }
}

pub fn runtime_state_action_request(command: RuntimeStateCommands) -> (r: StateActionRequest)
    ensures
        r == action_request(command),
{
    match command {
        RuntimeStateCommands::Pin { execute } => StateActionRequest {
            action: StateAction::Pin,
            target_tier: None,
            dry_run: !execute,
            allow_experimental: false,
        },
        RuntimeStateCommands::Unpin { execute } => StateActionRequest {
            action: StateAction::Unpin,
            target_tier: None,
            dry_run: !execute,
            allow_experimental: false,
        },
        RuntimeStateCommands::Promote { target, execute, allow_experimental } => StateActionRequest {
            action: StateAction::Promote,
            target_tier: Some(StateTier::from(target)),
            dry_run: !execute,
            allow_experimental,
        },
        RuntimeStateCommands::Demote { target, execute, allow_experimental } => StateActionRequest {
            action: StateAction::Demote,
            target_tier: Some(StateTier::from(target)),
            dry_run: !execute,
            allow_experimental,
        },
        RuntimeStateCommands::Evict { execute } => StateActionRequest {
            action: StateAction::Evict,
            target_tier: None,
            dry_run: !execute,
            allow_experimental: false,
        },
    }
}

pub open spec fn executes(command: RuntimeStateCommands) -> bool {
    match command {
        RuntimeStateCommands::Pin { execute } => execute,
        RuntimeStateCommands::Unpin { execute } => execute,
        RuntimeStateCommands::Promote { execute, .. } => execute,
        RuntimeStateCommands::Demote { execute, .. } => execute,
        RuntimeStateCommands::Evict { execute } => execute,
    }
}

/// Every action is a preview unless it is told to execute, and only a promotion
/// or a demotion names a tier: a promotion one in memory, a demotion none in
/// video memory.
pub proof fn actions_preview_by_default(command: RuntimeStateCommands)
    ensures
        action_request(command).dry_run == !executes(command),
        action_request(command).target_tier is Some <==> action_request(command).action is Promote
            || action_request(command).action is Demote,
        action_request(command).action is Promote ==> action_request(command).target_tier == Some(
            StateTier::Vram,
        ) || action_request(command).target_tier == Some(StateTier::Ram),
        action_request(command).action is Demote ==> action_request(command).target_tier == Some(
            StateTier::Ram,
        ) || action_request(command).target_tier == Some(StateTier::Disk),
        action_request(command).allow_experimental ==> action_request(command).target_tier is Some,
{
}

/// Which states to prune.
#[derive(Debug, PartialEq, Eq)]
pub enum StateSelector {
    Ids { ids: Vec<String> },
    Filter {
        model_id: Option<String>,
        tier: Option<StateTier>,
        older_than_unix_ms: Option<u64>,
    },
    All { confirm: bool },
}

pub ghost enum SelectorView {
    Ids(Seq<Seq<char>>),
    Filter(Option<Seq<char>>, Option<StateTier>, Option<u64>),
    All(bool),
}

impl StateSelector {
    pub open spec fn view(&self) -> SelectorView {
        match self {
            StateSelector::Ids { ids } => SelectorView::Ids(views(ids@)),
            StateSelector::Filter { model_id, tier, older_than_unix_ms } => SelectorView::Filter(
                opt_view(*model_id),
                *tier,
                *older_than_unix_ms,
            ),
            StateSelector::All { confirm } => SelectorView::All(*confirm),
        }
    }
}

pub open spec fn one_if(b: bool) -> int {
    if b {
        1
    } else {
        0
    }
}

/// What pruning selects: there has to be exactly one selector, and selecting
/// everything has to be confirmed, and nothing else.
pub open spec fn prune_selection(
    ids: Seq<Seq<char>>,
    model: Option<Seq<char>>,
    tier: Option<RuntimeStateTierArg>,
    older_than_unix_ms: Option<u64>,
    all: bool,
    confirm_all: bool,
) -> Result<SelectorView, Seq<char>> {
    let has_filter = model is Some || tier is Some || older_than_unix_ms is Some;
    if one_if(ids.len() > 0) + one_if(has_filter) + one_if(all) != 1 {
        Err(
            "runtime prune requires exactly one selector: --id, a model/tier/time filter, or --all --confirm-all"@,
        )
    } else if all && !confirm_all {
        Err("--all requires --confirm-all; no states were selected"@)
    } else if !all && confirm_all {
        Err("--confirm-all is valid only with --all"@)
    } else if all {
        Ok(SelectorView::All(true))
    } else if ids.len() > 0 {
        Ok(SelectorView::Ids(ids))
    } else {
        Ok(
            SelectorView::Filter(
                model,
                match tier {
                    Some(tier) => Some(state_tier(tier)),
                    None => None,
                },
                older_than_unix_ms,
            ),
        )
    }
}

pub open spec fn selector_result(r: Result<StateSelector, String>) -> Result<
    SelectorView,
    Seq<char>,
> {
    match r {
        Ok(selector) => Ok(selector@),
        Err(message) => Err(message@),
    }
}

pub fn runtime_prune_selector(
    ids: Vec<String>,
    model: Option<String>,
    tier: Option<RuntimeStateTierArg>,
    older_than_unix_ms: Option<u64>,
    all: bool,
    confirm_all: bool,
) -> (r: Result<StateSelector, String>)
    ensures
        selector_result(r) == prune_selection(
            views(ids@),
            opt_view(model),
            tier,
            older_than_unix_ms,
            all,
            confirm_all,
        ),
{
    let has_filter = model.is_some() || tier.is_some() || older_than_unix_ms.is_some();
    let has_ids = ids.len() > 0;
    let mut selectors: u8 = 0;
    if has_ids {
        selectors = selectors + 1;
    }
    if has_filter {
        selectors = selectors + 1;
    }
    if all {
        selectors = selectors + 1;
    }
    assert(views(ids@).len() == ids@.len());
    if selectors != 1 {
        return Err(
            "runtime prune requires exactly one selector: --id, a model/tier/time filter, or --all --confirm-all".to_owned(),
        );
    }
    if all {
        if !confirm_all {
            return Err("--all requires --confirm-all; no states were selected".to_owned());
        }
        return Ok(StateSelector::All { confirm: true });
    }
    if confirm_all {
        return Err("--confirm-all is valid only with --all".to_owned());
    }
    if has_ids {
        return Ok(StateSelector::Ids { ids });
    }
    let tier = match tier {
        Some(tier) => Some(StateTier::from(tier)),
        None => None,
    };
    Ok(StateSelector::Filter { model_id: model, tier, older_than_unix_ms })
}

/// Everything is selected only where it was asked for and confirmed, and a
/// selection by identifiers or by a filter is never empty of conditions.
pub proof fn pruning_everything_is_confirmed(
    ids: Seq<Seq<char>>,
    model: Option<Seq<char>>,
    tier: Option<RuntimeStateTierArg>,
    older_than_unix_ms: Option<u64>,
    all: bool,
    confirm_all: bool,
)
    ensures
        ({
            let r = prune_selection(ids, model, tier, older_than_unix_ms, all, confirm_all);
            &&& (r matches Ok(SelectorView::All(_)) ==> all && confirm_all)
            &&& (r matches Ok(SelectorView::Ids(chosen)) ==> chosen.len() > 0)
            &&& (r matches Ok(SelectorView::Filter(m, t, o)) ==> m is Some || t is Some
                || o is Some)
        }),
{
}

// ---------------------------------------------------------------------------
// What commands do
// ---------------------------------------------------------------------------

/// Each command asks for its own action, on the tier that was named, and does no more
/// than show it unless it is told to.
pub proof fn commands_ask_for_their_actions(
    execute: bool,
    experimental: bool,
    up: RuntimeMemoryTierArg,
    down: RuntimeDemotionTierArg,
    tier: RuntimeStateTierArg,
)
    ensures
        action_request(RuntimeStateCommands::Pin { execute }).action is Pin,
        action_request(RuntimeStateCommands::Unpin { execute }).action is Unpin,
        action_request(RuntimeStateCommands::Evict { execute }).action is Evict,
        ({
            let r = action_request(
                RuntimeStateCommands::Promote {
                    target: up,
                    execute,
                    allow_experimental: experimental,
                },
            );
            &&& r.action is Promote
            &&& r.target_tier == Some(StateTier::Vram) <==> up is Vram
            &&& r.target_tier == Some(StateTier::Ram) <==> up is Ram
            &&& r.allow_experimental == experimental
            &&& r.dry_run != execute
        }),
        ({
            let r = action_request(
                RuntimeStateCommands::Demote {
                    target: down,
                    execute,
                    allow_experimental: experimental,
                },
            );
            &&& r.action is Demote
            &&& r.target_tier == Some(StateTier::Ram) <==> down is Ram
            &&& r.target_tier == Some(StateTier::Disk) <==> down is Disk
            &&& r.allow_experimental == experimental
            &&& r.dry_run != execute
        }),
        action_request(RuntimeStateCommands::Pin { execute }).dry_run != execute,
        action_request(RuntimeStateCommands::Unpin { execute }).dry_run != execute,
        action_request(RuntimeStateCommands::Evict { execute }).dry_run != execute,
        state_tier(tier) is Vram <==> tier is Vram,
        state_tier(tier) is Ram <==> tier is Ram,
        state_tier(tier) is Disk <==> tier is Disk,
        state_tier(tier) is External <==> tier is External,
{
}

/// Pruning goes by exactly one thing, and by that thing as it was given; two at once, or
/// none, are refused.
pub proof fn pruning_goes_by_what_was_given(
    ids: Seq<Seq<char>>,
    model: Option<Seq<char>>,
    tier: Option<RuntimeStateTierArg>,
    older: Option<u64>,
    all: bool,
    confirmed: bool,
)
    ensures
        prune_selection(Seq::empty(), None, None, None, false, confirmed) is Err,
        prune_selection(Seq::empty(), None, None, None, true, true) == Ok::<
            SelectorView,
            Seq<char>,
        >(SelectorView::All(true)),
        ids.len() > 0 ==> prune_selection(ids, None, None, None, false, false) == Ok::<
            SelectorView,
            Seq<char>,
        >(SelectorView::Ids(ids)),
        ids.len() > 0 && (model is Some || tier is Some || older is Some || all)
            ==> prune_selection(ids, model, tier, older, all, confirmed) is Err,
        all && (model is Some || tier is Some || older is Some) ==> prune_selection(
            ids,
            model,
            tier,
            older,
            all,
            confirmed,
        ) is Err,
        all != confirmed ==> prune_selection(ids, model, tier, older, all, confirmed) is Err,
        (model is Some || tier is Some || older is Some) ==> {
            prune_selection(Seq::empty(), model, tier, older, false, false) matches Ok(
                SelectorView::Filter(m, t, o),
            ) && m == model && o == older && (t is Some <==> tier is Some) && (t is Some ==> t->0
                == state_tier(tier->0))
        },
{
}

} // verus!

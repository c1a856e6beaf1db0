//! Conversations: what is sent in a turn, what is forgotten to make room, and
//! what is kept of the answer.

use vstd::prelude::*;
use vstd::utf8::encode_utf8;

use crate::args::ChatTemplateArg;
use crate::backend::{yes_no, yes_no_text, BackendChoice};
use crate::json::{field, unsigned_of, Json, JsonView};
use crate::manifest::{ModelFormat, ModelManifest};
use crate::messages::{
    duplicate_messages, is_image_kind, kind_is_image, message_views, part_views, ChatMessage,
    ContentPart, ContentView, ImageUrlSpec, ImageView, MessageContent, MessageView, PartView,
};
use crate::text::{
    clone_strings, decimal, join2, join3, join5, lowered, opt_view, str_eq, str_eq_ignore_case,
    usize_text, views,
};

verus! {

/// Tokens that stay free beside the prompt and the answer.
pub const CHAT_CONTEXT_SAFETY_TOKENS: usize = 64;

pub const DEFAULT_LLAMA_CONTEXT_SIZE: usize = 4096;

pub const DEFAULT_MAX_NEW_TOKENS: usize = 256;

// ---------------------------------------------------------------------------
// Estimating the length of a prompt
// ---------------------------------------------------------------------------

/// A third of the bytes, rounded up.
pub open spec fn text_tokens(text: Seq<char>) -> nat {
    (encode_utf8(text).len() + 2) as nat / 3
}

pub open spec fn part_tokens(part: PartView) -> nat {
    if part.kind == "text"@ {
        match part.text {
            Some(text) => text_tokens(text),
            None => 0,
        }
    } else if is_image_kind(part.kind) {
        let detail = match part.image_url {
            Some(ImageView::Object(_, detail)) => detail,
            _ => None,
        };
        if detail == Some("low"@) {
            256
        } else if detail == Some("high"@) {
            2048
        } else {
            1024
        }
    } else {
        0
    }
}

pub open spec fn parts_tokens(parts: Seq<PartView>) -> nat
    decreases parts.len(),
{
    if parts.len() == 0 {
        0
    } else {
        parts_tokens(parts.drop_last()) + part_tokens(parts.last())
    }
}

pub open spec fn content_tokens(content: ContentView) -> nat {
    match content {
        ContentView::Text(text) => text_tokens(text),
        ContentView::Parts(parts) => parts_tokens(parts),
    }
}

/// The largest number that fits, for a sum that does not.
pub open spec fn capped(n: nat) -> nat {
    if n <= usize::MAX {
        n
    } else {
        usize::MAX as nat
    }
}

fn bytes_to_tokens(text: &str) -> (r: usize)
    ensures
        r == text_tokens(text@),
{
    let n: usize = text.as_bytes().len();
    let whole: usize = n / 3;
    if n % 3 == 0 {
        whole
    } else {
        whole + 1
    }
}

fn content_part_tokens(part: &ContentPart) -> (r: usize)
    ensures
        r == part_tokens(part@),
{
    proof {
        reveal_strlit("text");
        reveal_strlit("image_url");
        reveal_strlit("input_image");
        reveal_strlit("low");
        reveal_strlit("high");
    }
    if str_eq(part.kind.as_str(), "text") {
        match &part.text {
            Some(text) => bytes_to_tokens(text.as_str()),
            None => 0,
        }
    } else if kind_is_image(part.kind.as_str()) {
        if let Some(ImageUrlSpec::Object { detail: Some(detail), .. }) = &part.image_url {
            if str_eq(detail.as_str(), "low") {
                return 256;
            }
            if str_eq(detail.as_str(), "high") {
                return 2048;
            }
        }
        1024
    } else {
        0
    }
}

/// An estimate of what the content of a message takes: a third of the bytes of
/// text, and a fixed number for each image by its level of detail.
pub fn cli_message_content_tokens(content: &MessageContent) -> (r: usize)
    ensures
        r == capped(content_tokens(content@)),
{
    match content {
        MessageContent::Text(text) => bytes_to_tokens(text.as_str()),
        MessageContent::Parts(parts) => {
            let mut tokens: usize = 0;
            let mut i: usize = 0;
            let ghost all = part_views(parts@);
            while i < parts.len()
                invariant
                    i <= parts@.len(),
                    all == part_views(parts@),
                    tokens == capped(parts_tokens(all.take(i as int))),
                decreases parts@.len() - i,
            {
                assert(all.take(i + 1).drop_last() =~= all.take(i as int));
                assert(all[i as int] == parts@[i as int]@);
                tokens = tokens.saturating_add(content_part_tokens(&parts[i]));
                i = i + 1;
            }
            assert(all.take(all.len() as int) =~= all);
            tokens
        },
    }
}

pub open spec fn message_tokens(m: MessageView) -> nat {
    16 + match m.content {
        Some(content) => content_tokens(content),
        None => 0,
    }
}

pub open spec fn messages_tokens(messages: Seq<MessageView>) -> nat
    decreases messages.len(),
{
    if messages.len() == 0 {
        16
    } else {
        messages_tokens(messages.drop_last()) + message_tokens(messages.last())
    }
}

/// The larger of what the rendered prompt and what the messages take.
pub open spec fn prompt_tokens(rendered_bytes: nat, messages: Seq<MessageView>) -> nat {
    let rendered = if rendered_bytes == 0 {
        1
    } else {
        (rendered_bytes + 2) as nat / 3
    };
    if rendered > messages_tokens(messages) {
        rendered
    } else {
        messages_tokens(messages)
    }
}

/// An estimate of what a prompt takes, from the length of its text in bytes.
pub fn estimate_chat_prompt_tokens(rendered_bytes: usize, messages: &Vec<ChatMessage>) -> (r: usize)
    ensures
        r == capped(prompt_tokens(rendered_bytes as nat, message_views(messages@))),
{
    let mut structured: usize = 16;
    let mut i: usize = 0;
    let ghost all = message_views(messages@);
    while i < messages.len()
        invariant
            i <= messages@.len(),
            all == message_views(messages@),
            structured == capped(messages_tokens(all.take(i as int))),
        decreases messages@.len() - i,
    {
        assert(all.take(i + 1).drop_last() =~= all.take(i as int));
        assert(all[i as int] == messages@[i as int]@);
        let content: usize = match &messages[i].content {
            Some(content) => cli_message_content_tokens(content),
            None => 0,
        };
        structured = structured.saturating_add(content.saturating_add(16));
        i = i + 1;
    }
    assert(all.take(all.len() as int) =~= all);
    let rendered: usize = if rendered_bytes == 0 {
        1
    } else if rendered_bytes % 3 == 0 {
        rendered_bytes / 3
    } else {
        rendered_bytes / 3 + 1
    };
    if rendered > structured {
        rendered
    } else {
        structured
    }
}

// ---------------------------------------------------------------------------
// Making room
// ---------------------------------------------------------------------------

pub open spec fn has_role(m: MessageView, role: Seq<char>) -> bool {
    lowered(m.role) == lowered(role)
}

pub open spec fn is_system(m: MessageView) -> bool {
    has_role(m, "system"@)
}

/// A message that belongs to the one before it: an answer, or what a tool gave.
pub open spec fn continues_turn(m: MessageView) -> bool {
    has_role(m, "assistant"@) || has_role(m, "tool"@)
}

/// Where the oldest turn starts: at the first message that is not the system's.
pub open spec fn turn_start(messages: Seq<MessageView>) -> int
    decreases messages.len(),
{
    if messages.len() == 0 || !is_system(messages[0]) {
        0
    } else {
        1 + turn_start(messages.drop_first())
    }
}

/// How many of the messages continue a turn that is under way.
pub open spec fn continuation(messages: Seq<MessageView>) -> int
    decreases messages.len(),
{
    if messages.len() == 0 || !continues_turn(messages[0]) {
        0
    } else {
        1 + continuation(messages.drop_first())
    }
}

/// Where the oldest turn ends.
pub open spec fn turn_end(messages: Seq<MessageView>) -> int {
    let start = turn_start(messages);
    start + 1 + continuation(messages.skip(start + 1))
}

/// There is an oldest turn, and it is not the current one.
pub open spec fn can_forget(messages: Seq<MessageView>) -> bool {
    turn_start(messages) < messages.len() && turn_end(messages) < messages.len()
}

/// The conversation without its oldest turn.
pub open spec fn forget_turn(messages: Seq<MessageView>) -> Seq<MessageView> {
    messages.take(turn_start(messages)) + messages.skip(turn_end(messages))
}

/// The conversation without its oldest `n` turns.
pub open spec fn forget_turns(messages: Seq<MessageView>, n: nat) -> Seq<MessageView>
    decreases n,
{
    if n == 0 {
        messages
    } else {
        forget_turn(forget_turns(messages, (n - 1) as nat))
    }
}

/// The oldest `n` turns can be forgotten one after the other.
pub open spec fn can_forget_turns(messages: Seq<MessageView>, n: nat) -> bool {
    forall|j: nat| j < n ==> can_forget(#[trigger] forget_turns(messages, j))
}

pub proof fn lemma_turn_start(messages: Seq<MessageView>)
    ensures
        0 <= turn_start(messages) <= messages.len(),
        forall|i: int| 0 <= i < turn_start(messages) ==> is_system(#[trigger] messages[i]),
        turn_start(messages) < messages.len() ==> !is_system(messages[turn_start(messages)]),
    decreases messages.len(),
{
    if messages.len() > 0 && is_system(messages[0]) {
        let rest = messages.drop_first();
        lemma_turn_start(rest);
        assert forall|i: int| 0 <= i < turn_start(messages) implies is_system(
            #[trigger] messages[i],
        ) by {
            if i > 0 {
                assert(messages[i] == rest[i - 1]);
            }
        }
    }
}

pub proof fn lemma_continuation(messages: Seq<MessageView>)
    ensures
        0 <= continuation(messages) <= messages.len(),
        forall|i: int| 0 <= i < continuation(messages) ==> continues_turn(#[trigger] messages[i]),
        continuation(messages) < messages.len() ==> !continues_turn(
            messages[continuation(messages)],
        ),
    decreases messages.len(),
{
    if messages.len() > 0 && continues_turn(messages[0]) {
        let rest = messages.drop_first();
        lemma_continuation(rest);
        assert forall|i: int| 0 <= i < continuation(messages) implies continues_turn(
            #[trigger] messages[i],
        ) by {
            if i > 0 {
                assert(messages[i] == rest[i - 1]);
            }
        }
    }
}

pub open spec fn system_messages(messages: Seq<MessageView>) -> Seq<MessageView> {
    messages.filter(|m: MessageView| is_system(m))
}

proof fn lemma_no_system_in_turn(messages: Seq<MessageView>)
    requires
        can_forget(messages),
    ensures
        forall|i: int|
            turn_start(messages) <= i < turn_end(messages) ==> !is_system(#[trigger] messages[i]),
{
    let start = turn_start(messages);
    lemma_turn_start(messages);
    let rest = messages.skip(start + 1);
    lemma_continuation(rest);
    assert forall|i: int| start <= i < turn_end(messages) implies !is_system(
        #[trigger] messages[i],
    ) by {
        if i > start {
            assert(messages[i] == rest[i - start - 1]);
            assert(continues_turn(rest[i - start - 1]));
            lemma_roles_differ();
        }
    }
}

proof fn lemma_roles_differ()
    ensures
        lowered("system"@) != lowered("assistant"@),
        lowered("system"@) != lowered("tool"@),
{
    reveal_strlit("system");
    reveal_strlit("assistant");
    reveal_strlit("tool");
    assert(lowered("system"@).len() == 6);
    assert(lowered("assistant"@).len() == 9);
    assert(lowered("tool"@).len() == 4);
}

proof fn lemma_filter_none(messages: Seq<MessageView>)
    requires
        forall|i: int| 0 <= i < messages.len() ==> !is_system(#[trigger] messages[i]),
    ensures
        system_messages(messages) == Seq::<MessageView>::empty(),
    decreases messages.len(),
{
    reveal(Seq::filter);
    if messages.len() > 0 {
        lemma_filter_none(messages.drop_last());
    }
    assert(system_messages(messages) =~= Seq::<MessageView>::empty());
}

/// Forgetting a turn forgets no system message, keeps the last message, and
/// keeps everything after the turn.
pub proof fn forgetting_keeps_the_rest(messages: Seq<MessageView>)
    requires
        can_forget(messages),
    ensures
        system_messages(forget_turn(messages)) == system_messages(messages),
        forget_turn(messages).len() > 0,
        forget_turn(messages).last() == messages.last(),
        forget_turn(messages).len() < messages.len(),
        messages.skip(turn_end(messages)).is_suffix_of(forget_turn(messages)),
{
    let start = turn_start(messages);
    let end = turn_end(messages);
    lemma_turn_start(messages);
    lemma_continuation(messages.skip(start + 1));
    lemma_no_system_in_turn(messages);
    let p = |m: MessageView| is_system(m);
    let head = messages.take(start);
    let turn = messages.subrange(start, end);
    let tail = messages.skip(end);
    assert(messages =~= head + turn + tail);
    assert forall|i: int| 0 <= i < turn.len() implies !is_system(#[trigger] turn[i]) by {
        assert(turn[i] == messages[start + i]);
    }
    lemma_filter_none(turn);
    Seq::filter_distributes_over_add(head + turn, tail, p);
    Seq::filter_distributes_over_add(head, turn, p);
    Seq::filter_distributes_over_add(head, tail, p);
    assert(head.filter(p) + turn.filter(p) =~= head.filter(p));
    let after = forget_turn(messages);
    assert(after.skip(after.len() - tail.len()) =~= tail);
}

/// However many turns are forgotten, the system messages and the current message
/// stay.
pub proof fn trimming_keeps_system_and_current(messages: Seq<MessageView>, n: nat)
    requires
        can_forget_turns(messages, n),
    ensures
        system_messages(forget_turns(messages, n)) == system_messages(messages),
        messages.len() > 0 ==> forget_turns(messages, n).len() > 0 && forget_turns(
            messages,
            n,
        ).last() == messages.last(),
        forget_turns(messages, n).len() + n <= messages.len(),
    decreases n,
{
    if n > 0 {
        let fewer = (n - 1) as nat;
        assert(can_forget_turns(messages, fewer)) by {
            assert forall|j: nat| j < fewer implies can_forget(
                #[trigger] forget_turns(messages, j),
            ) by {}
        }
        trimming_keeps_system_and_current(messages, fewer);
        assert(can_forget(forget_turns(messages, fewer)));
        forgetting_keeps_the_rest(forget_turns(messages, fewer));
    }
}

/// The renderer may give the messages a text that leaves them within the budget.
pub open spec fn may_fit<R: Fn(&Vec<ChatMessage>) -> usize>(
    render: R,
    messages: Seq<MessageView>,
    budget: nat,
) -> bool {
    exists|v: Vec<ChatMessage>, n: usize|
        message_views(v@) == messages && #[trigger] call_ensures(render, (&v,), n) && prompt_tokens(
            n as nat,
            messages,
        ) <= budget
}

/// The renderer may give the messages a text that goes beyond the budget.
pub open spec fn may_exceed<R: Fn(&Vec<ChatMessage>) -> usize>(
    render: R,
    messages: Seq<MessageView>,
    budget: nat,
) -> bool {
    exists|v: Vec<ChatMessage>, n: usize|
        message_views(v@) == messages && #[trigger] call_ensures(render, (&v,), n) && prompt_tokens(
            n as nat,
            messages,
        ) > budget
}

/// The oldest turns are forgotten while the prompt exceeds the budget, as long as
/// there is one beside the current one.
pub open spec fn trims<R: Fn(&Vec<ChatMessage>) -> usize>(
    render: R,
    before: Seq<MessageView>,
    after: Seq<MessageView>,
    forgotten: nat,
    budget: nat,
) -> bool {
    &&& after == forget_turns(before, forgotten)
    &&& can_forget_turns(before, forgotten)
    &&& forall|j: nat|
        j < forgotten ==> may_exceed(render, #[trigger] forget_turns(before, j), budget)
}

pub open spec fn too_large_message(
    messages: Seq<MessageView>,
    context_size: nat,
    max_tokens: nat,
) -> Seq<char> {
    if turn_start(messages) == messages.len() {
        "system prompt is too large for the "@ + decimal(context_size)
            + "-token context; increase --ctx-size"@
    } else {
        "current message is too large for the "@ + decimal(context_size)
            + "-token context after reserving "@ + decimal(max_tokens)
            + " response tokens; shorten it, reduce --max-tokens, or increase --ctx-size"@
    }
}

pub open spec fn no_room_message(context_size: nat, max_tokens: nat) -> Seq<char> {
    "chat response budget ("@ + decimal(max_tokens) + " tokens) leaves no prompt space in the "@
        + decimal(context_size)
        + "-token context; reduce --max-tokens or increase --ctx-size"@
}

pub open spec fn count_view(r: Result<usize, String>) -> Result<nat, Seq<char>> {
    match r {
        Ok(n) => Ok(n as nat),
        Err(message) => Err(message@),
    }
}

/// What trimming may come to: how many messages are gone, or why it was given
/// up. Without a context nothing is forgotten; a context that the answer alone
/// would fill is refused first.
pub open spec fn trim_result<R: Fn(&Vec<ChatMessage>) -> usize>(
    render: R,
    before: Seq<MessageView>,
    after: Seq<MessageView>,
    context_size: Option<usize>,
    max_tokens: usize,
    r: Result<nat, Seq<char>>,
) -> bool {
    match context_size {
        None => r == Ok::<nat, Seq<char>>(0) && after == before,
        Some(size) => if max_tokens + CHAT_CONTEXT_SAFETY_TOKENS > usize::MAX {
            r == Err::<nat, Seq<char>>("chat response token reserve overflowed"@) && after
                == before
        } else if max_tokens + CHAT_CONTEXT_SAFETY_TOKENS >= size {
            r == Err::<nat, Seq<char>>(no_room_message(size as nat, max_tokens as nat)) && after
                == before
        } else {
            let budget = (size - max_tokens - CHAT_CONTEXT_SAFETY_TOKENS) as nat;
            exists|forgotten: nat|
                #[trigger] trims(render, before, after, forgotten, budget) && match r {
                    Ok(removed) => removed == before.len() - after.len() && may_fit(
                        render,
                        after,
                        budget,
                    ),
                    Err(message) => !can_forget(after) && may_exceed(render, after, budget)
                        && message == too_large_message(after, size as nat, max_tokens as nat),
                }
        },
    }
}

fn find_turn_start(messages: &Vec<ChatMessage>) -> (r: usize)
    ensures
        r == turn_start(message_views(messages@)),
        r <= messages@.len(),
{
    let ghost all = message_views(messages@);
    let mut i: usize = 0;
    assert(all.skip(0) =~= all);
    while i < messages.len()
        invariant
            i <= messages@.len(),
            all == message_views(messages@),
            turn_start(all) == i + turn_start(all.skip(i as int)),
        decreases messages@.len() - i,
    {
        assert(all.skip(i as int).drop_first() =~= all.skip(i + 1));
        assert(all[i as int] == messages@[i as int]@);
        if !str_eq_ignore_case(messages[i].role.as_str(), "system") {
            return i;
        }
        i = i + 1;
    }
    i
}

fn find_turn_end(messages: &Vec<ChatMessage>, start: usize) -> (r: usize)
    requires
        start == turn_start(message_views(messages@)),
        start < messages@.len(),
    ensures
        r == turn_end(message_views(messages@)),
        start < r <= messages@.len(),
{
    let ghost all = message_views(messages@);
    let ghost rest = all.skip(start + 1);
    let count: usize = messages.len();
    assert(start < count);
    let mut i: usize = start + 1;
    assert(all.skip(i as int) =~= rest);
    while i < messages.len()
        invariant
            start < i <= messages@.len(),
            all == message_views(messages@),
            start == turn_start(all),
            rest == all.skip(start + 1),
            continuation(rest) == (i - start - 1) + continuation(all.skip(i as int)),
        decreases messages@.len() - i,
    {
        assert(all.skip(i as int).drop_first() =~= all.skip(i + 1));
        assert(all[i as int] == messages@[i as int]@);
        if !(str_eq_ignore_case(messages[i].role.as_str(), "assistant") || str_eq_ignore_case(
            messages[i].role.as_str(),
            "tool",
        )) {
            return i;
        }
        i = i + 1;
    }
    i
}

fn drop_between(messages: &mut Vec<ChatMessage>, start: usize, end: usize)
    requires
        start <= end <= old(messages)@.len(),
    ensures
        final(messages)@ == old(messages)@.take(start as int) + old(messages)@.skip(end as int),
{
    let ghost before = messages@;
    let mut left: usize = end - start;
    assert(before.take(start as int) + before.skip(start as int) =~= before);
    while left > 0
        invariant
            before == old(messages)@,
            start <= end <= before.len(),
            left <= end - start,
            messages@ == before.take(start as int) + before.skip(end - left),
        decreases left,
    {
        let ghost at = messages@;
        messages.remove(start);
        left = left - 1;
        assert(messages@ =~= before.take(start as int) + before.skip(end - left));
    }
}

/// Forgets the oldest turns until the prompt fits, and says how many messages
/// that were. `render` gives the length in bytes of the text that the messages
/// become.
pub fn trim_chat_history_to_context<R: Fn(&Vec<ChatMessage>) -> usize>(
    render: R,
    messages: &mut Vec<ChatMessage>,
    context_size: Option<usize>,
    max_tokens: usize,
) -> (r: Result<usize, String>)
    requires
        forall|v: &Vec<ChatMessage>| #[trigger] call_requires(render, (v,)),
    ensures
        trim_result(
            render,
            message_views(old(messages)@),
            message_views(final(messages)@),
            context_size,
            max_tokens,
            count_view(r),
        ),
{
    let size: usize = match context_size {
        Some(size) => size,
        None => {
            return Ok(0);
        },
    };
    let reserved: usize = match max_tokens.checked_add(CHAT_CONTEXT_SAFETY_TOKENS) {
        Some(reserved) => reserved,
        None => {
            return Err("chat response token reserve overflowed".to_owned());
        },
    };
    if reserved >= size {
        let max_text = usize_text(max_tokens);
        let size_text = usize_text(size);
        return Err(
            join5(
                "chat response budget (",
                max_text.as_str(),
                " tokens) leaves no prompt space in the ",
                size_text.as_str(),
                "-token context; reduce --max-tokens or increase --ctx-size",
            ),
        );
    }
    let budget: usize = size - reserved;
    let ghost before = message_views(messages@);
    let mut removed: usize = 0;
    let ghost mut forgotten: nat = 0;
    let first_len: usize = messages.len();
    loop
        invariant
            forall|v: &Vec<ChatMessage>| #[trigger] call_requires(render, (v,)),
            context_size == Some(size),
            reserved == max_tokens + CHAT_CONTEXT_SAFETY_TOKENS,
            reserved < size,
            budget == size - reserved,
            before == message_views(old(messages)@),
            first_len == before.len(),
            trims(render, before, message_views(messages@), forgotten, budget as nat),
            removed == before.len() - messages@.len(),
        decreases messages@.len(),
    {
        let ghost here = message_views(messages@);
        assert(budget as nat == (size - max_tokens - CHAT_CONTEXT_SAFETY_TOKENS) as nat);
        let rendered: usize = render(&*messages);
        let estimated: usize = estimate_chat_prompt_tokens(rendered, &*messages);
        proof {
            let v = *messages;
            assert(message_views(v@) == here && call_ensures(render, (&v,), rendered));
        }
        if estimated <= budget {
            assert(may_fit(render, here, budget as nat));
            return Ok(removed);
        }
        assert(may_exceed(render, here, budget as nat));
        let start: usize = find_turn_start(&*messages);
        let size_text = usize_text(size);
        if start == messages.len() {
            return Err(
                join3(
                    "system prompt is too large for the ",
                    size_text.as_str(),
                    "-token context; increase --ctx-size",
                ),
            );
        }
        let end: usize = find_turn_end(&*messages, start);
        if end == messages.len() {
            let max_text = usize_text(max_tokens);
            return Err(
                join5(
                    "current message is too large for the ",
                    size_text.as_str(),
                    "-token context after reserving ",
                    max_text.as_str(),
                    " response tokens; shorten it, reduce --max-tokens, or increase --ctx-size",
                ),
            );
        }
        let ghost at = messages@;
        drop_between(messages, start, end);
        proof {
            assert(message_views(messages@) =~= here.take(start as int) + here.skip(end as int));
            assert(message_views(messages@) == forget_turn(here));
            assert forall|j: nat| j < forgotten + 1 implies can_forget(
                #[trigger] forget_turns(before, j),
            ) && may_exceed(render, forget_turns(before, j), budget as nat) by {
                if j == forgotten {
                    assert(forget_turns(before, j) == here);
                }
            }
            forgotten = forgotten + 1;
            assert(forget_turns(before, forgotten) == forget_turn(here));
        }
        removed = removed + (end - start);
    }
}

/// With a renderer whose lengths are `lengths`, only one number of turns can be
/// forgotten: the least that makes the prompt fit.
pub proof fn trimming_is_determined<R: Fn(&Vec<ChatMessage>) -> usize>(
    render: R,
    lengths: spec_fn(Seq<MessageView>) -> nat,
    before: Seq<MessageView>,
    a: nat,
    b: nat,
    budget: nat,
)
    requires
        forall|v: Vec<ChatMessage>, n: usize| #[trigger]
            call_ensures(render, (&v,), n) ==> n == lengths(message_views(v@)),
        trims(render, before, forget_turns(before, a), a, budget),
        trims(render, before, forget_turns(before, b), b, budget),
        may_fit(render, forget_turns(before, a), budget),
        may_fit(render, forget_turns(before, b), budget),
    ensures
        a == b,
        prompt_tokens(lengths(forget_turns(before, a)), forget_turns(before, a)) <= budget,
        forall|j: nat|
            j < a ==> prompt_tokens(
                lengths(#[trigger] forget_turns(before, j)),
                forget_turns(before, j),
            ) > budget,
{
    assert forall|j: nat| j < a implies prompt_tokens(
        lengths(#[trigger] forget_turns(before, j)),
        forget_turns(before, j),
    ) > budget by {
        assert(may_exceed(render, forget_turns(before, j), budget));
    }
    if a < b {
        assert(may_exceed(render, forget_turns(before, a), budget));
    }
    if b < a {
        assert(may_exceed(render, forget_turns(before, b), budget));
    }
}

// ---------------------------------------------------------------------------
// Templates
// ---------------------------------------------------------------------------

/// Who turns messages into a prompt.
#[derive(Clone, Copy, Debug, PartialEq, Eq, Structural)]
pub enum ChatTemplateSource {
    Model,
    Werk,
    Nobody,
}

impl ChatTemplateSource {
    pub open spec fn name(self) -> Seq<char> {
        match self {
            ChatTemplateSource::Model => "model"@,
            ChatTemplateSource::Werk => "werk"@,
            ChatTemplateSource::Nobody => "none"@,
        }
    }

    pub fn as_str(self) -> (r: &'static str)
        ensures
            r@ == self.name(),
    {
        match self {
            ChatTemplateSource::Model => "model",
            ChatTemplateSource::Werk => "werk",
            ChatTemplateSource::Nobody => "none",
        }
    }
}

#[derive(Clone, Copy, Debug)]
pub struct ChatTemplateOptions {
    pub default_source: ChatTemplateSource,
    pub model_template_preferred: bool,
    pub override_name: Option<&'static str>,
}

#[derive(Debug)]
pub struct ChatTemplateInfo {
    pub source: ChatTemplateSource,
    pub name: String,
    pub applied_by_werk: bool,
    pub override_from_cli: Option<String>,
}

/// A prompt, and how it came about.
#[derive(Debug)]
pub struct PromptSpec {
    pub prompt: String,
    pub stop: Vec<String>,
    pub chat_template: ChatTemplateInfo,
    pub assistant_end_token: Option<String>,
}

pub open spec fn is_llama(backend: BackendChoice) -> bool {
    backend is LlamaServer || backend is LlamaFast || backend is LlamaHighlevel
}

pub open spec fn default_source(format: ModelFormat, backend: BackendChoice) -> ChatTemplateSource {
    if (is_llama(backend) && format is Gguf) || backend is Mlx || backend is MlxVlm || backend
        is TransformersCompat || backend is Vllm || backend is VllmRocm {
        ChatTemplateSource::Model
    } else {
        ChatTemplateSource::Werk
    }
}

fn backend_is_llama(backend: BackendChoice) -> (r: bool)
    ensures
        r == is_llama(backend),
{
    match backend {
        BackendChoice::LlamaServer(_) => true,
        BackendChoice::LlamaFast(_) => true,
        BackendChoice::LlamaHighlevel(_) => true,
        _ => false,
    }
}

pub fn chat_template_default_source(manifest: &ModelManifest, backend: BackendChoice) -> (r:
    ChatTemplateSource)
    ensures
        r == default_source(manifest.format, backend),
{
    if backend_is_llama(backend) && manifest.format == ModelFormat::Gguf {
        return ChatTemplateSource::Model;
    }
    match backend {
        BackendChoice::Mlx => ChatTemplateSource::Model,
        BackendChoice::MlxVlm => ChatTemplateSource::Model,
        BackendChoice::TransformersCompat => ChatTemplateSource::Model,
        BackendChoice::Vllm => ChatTemplateSource::Model,
        BackendChoice::VllmRocm => ChatTemplateSource::Model,
        _ => ChatTemplateSource::Werk,
    }
}

pub open spec fn prefers_model_template(format: ModelFormat, backend: BackendChoice) -> bool {
    backend is TransformersCompat || (is_llama(backend) && format is Gguf) || backend is Vllm
        || backend is VllmRocm
}

pub fn chat_template_model_preferred(manifest: &ModelManifest, backend: BackendChoice) -> (r: bool)
    ensures
        r == prefers_model_template(manifest.format, backend),
{
    backend == BackendChoice::TransformersCompat || (backend_is_llama(backend) && manifest.format
        == ModelFormat::Gguf) || backend == BackendChoice::Vllm || backend
        == BackendChoice::VllmRocm
}

/// How the messages of a model become a prompt on a backend.
pub fn chat_template_options_for_backend(
    manifest: &ModelManifest,
    backend: BackendChoice,
    override_arg: Option<ChatTemplateArg>,
) -> (r: ChatTemplateOptions)
    ensures
        r.default_source == default_source(manifest.format, backend),
        r.model_template_preferred == prefers_model_template(manifest.format, backend),
        match override_arg {
            Some(arg) => r.override_name matches Some(name) && name@ == arg.name(),
            None => r.override_name is None,
        },
{
    let override_name = match override_arg {
        Some(arg) => Some(arg.template_name()),
        None => None,
    };
    ChatTemplateOptions {
        default_source: chat_template_default_source(manifest, backend),
        model_template_preferred: chat_template_model_preferred(manifest, backend),
        override_name,
    }
}

/// A model whose own template is preferred is also left to it by default.
pub proof fn preferred_templates_are_the_default(format: ModelFormat, backend: BackendChoice)
    ensures
        prefers_model_template(format, backend) ==> default_source(format, backend) is Model,
{
}

/// The messages go along only where the model makes the prompt.
pub fn generation_request_messages(prompt: &PromptSpec, messages: &Vec<ChatMessage>) -> (r: Vec<
    ChatMessage,
>)
    ensures
        message_views(r@) == if prompt.chat_template.source is Model {
            message_views(messages@)
        } else {
            Seq::empty()
        },
{
    if prompt.chat_template.source == ChatTemplateSource::Model {
        duplicate_messages(messages)
    } else {
        let r: Vec<ChatMessage> = Vec::new();
        assert(message_views(r@) =~= Seq::empty());
        r
    }
}

/// How a prompt came about, a line each.
pub open spec fn prompt_notes(
    prompt: PromptSpec,
    message_count: nat,
    history_enabled: Option<bool>,
) -> Seq<Seq<char>> {
    let info = prompt.chat_template;
    let always = seq![
        "history messages: "@ + decimal(message_count),
        "chat template source: "@ + info.source.name(),
        "chat template: "@ + info.name@,
        "chat template applied by werk: "@ + yes_no_text(info.applied_by_werk),
    ];
    let with_override = match opt_view(info.override_from_cli) {
        Some(name) => always.push("chat template override: "@ + name),
        None => always,
    };
    let with_token = match opt_view(prompt.assistant_end_token) {
        Some(token) => with_override.push("assistant end token: "@ + token),
        None => with_override,
    };
    match history_enabled {
        Some(enabled) => with_token.push("history enabled: "@ + yes_no_text(enabled)),
        None => with_token,
    }
}

fn push_note(notes: &mut Vec<String>, label: &str, value: &str)
    ensures
        views(final(notes)@) == views(old(notes)@).push(label@ + value@),
{
    let ghost before = notes@;
    notes.push(join2(label, value));
    assert(views(notes@) =~= views(before).push(label@ + value@));
}

pub fn prompt_diagnostics(
    prompt: &PromptSpec,
    message_count: usize,
    history_enabled: Option<bool>,
) -> (r: Vec<String>)
    ensures
        views(r@) == prompt_notes(*prompt, message_count as nat, history_enabled),
{
    let mut notes: Vec<String> = Vec::new();
    let count = usize_text(message_count);
    push_note(&mut notes, "history messages: ", count.as_str());
    push_note(&mut notes, "chat template source: ", prompt.chat_template.source.as_str());
    push_note(&mut notes, "chat template: ", prompt.chat_template.name.as_str());
    push_note(
        &mut notes,
        "chat template applied by werk: ",
        yes_no(prompt.chat_template.applied_by_werk),
    );
    assert(views(notes@) =~= seq![
        "history messages: "@ + decimal(message_count as nat),
        "chat template source: "@ + prompt.chat_template.source.name(),
        "chat template: "@ + prompt.chat_template.name@,
        "chat template applied by werk: "@ + yes_no_text(prompt.chat_template.applied_by_werk),
    ]);
    if let Some(name) = &prompt.chat_template.override_from_cli {
        push_note(&mut notes, "chat template override: ", name.as_str());
    }
    if let Some(token) = &prompt.assistant_end_token {
        push_note(&mut notes, "assistant end token: ", token.as_str());
    }
    if let Some(enabled) = history_enabled {
        push_note(&mut notes, "history enabled: ", yes_no(enabled));
    }
    notes
}

pub fn merged_diagnostics(first: &Vec<String>, second: &Vec<String>) -> (r: Vec<String>)
    ensures
        views(r@) == views(first@) + views(second@),
{
    let mut merged = clone_strings(first);
    let mut more = clone_strings(second);
    let ghost a = merged@;
    let ghost b = more@;
    merged.append(&mut more);
    assert(views(merged@) =~= views(a) + views(b));
    merged
}

// ---------------------------------------------------------------------------
// The size of the context
// ---------------------------------------------------------------------------

/// The size that the model was made with, by the first of two settings.
pub open spec fn trained_context(constraints: JsonView) -> nat {
    let setting = match field(constraints, "max_position_embeddings"@) {
        Some(value) => Some(value),
        None => field(constraints, "model_max_length"@),
    };
    match unsigned_of(setting) {
        Some(size) => if size <= usize::MAX {
            size as nat
        } else {
            DEFAULT_LLAMA_CONTEXT_SIZE as nat
        },
        None => DEFAULT_LLAMA_CONTEXT_SIZE as nat,
    }
}

/// The context that a conversation has to stay within. Only a llama.cpp server
/// has one; a configured size of zero stands for the size of the model.
pub fn chat_context_size(backend: BackendChoice, constraints: &Json, configured: Option<usize>) -> (r:
    Option<usize>)
    ensures
        if backend is LlamaServer {
            r matches Some(size) && size == match configured {
                Some(configured) => if configured == 0 {
                    trained_context(constraints@)
                } else {
                    configured as nat
                },
                None => DEFAULT_LLAMA_CONTEXT_SIZE as nat,
            }
        } else {
            r is None
        },
{
    match backend {
        BackendChoice::LlamaServer(_) => {},
        _ => {
            return None;
        },
    }
    match configured {
        Some(0) => {
            let setting = match constraints.get("max_position_embeddings") {
                Some(value) => Some(value),
                None => constraints.get("model_max_length"),
            };
            let value: Option<u64> = match setting {
                Some(value) => value.as_u64(),
                None => None,
            };
            match value {
                Some(size) => if size <= usize::MAX as u64 {
                    Some(size as usize)
                } else {
                    Some(DEFAULT_LLAMA_CONTEXT_SIZE)
                },
                None => Some(DEFAULT_LLAMA_CONTEXT_SIZE),
            }
        },
        Some(size) => Some(size),
        None => Some(DEFAULT_LLAMA_CONTEXT_SIZE),
    }
}

// ---------------------------------------------------------------------------
// What trimming is for
// ---------------------------------------------------------------------------

/// Three bytes of text count as one token, rounded up; an image counts by its detail.
pub proof fn tokens_are_thirds_of_bytes(text: Seq<char>, url: Seq<char>, part: PartView)
    ensures
        3 * text_tokens(text) >= encode_utf8(text).len(),
        3 * text_tokens(text) < encode_utf8(text).len() + 3,
        part.kind == "text"@ && part.text == Some(text) ==> part_tokens(part) == text_tokens(text),
        part.kind != "text"@ && (part.kind == "image_url"@ || part.kind == "input_image"@) ==> {
            &&& part.image_url == Some(ImageView::Object(url, Some("low"@))) ==> part_tokens(part)
                == 256
            &&& part.image_url == Some(ImageView::Object(url, Some("high"@))) ==> part_tokens(part)
                == 2048
            &&& part.image_url == Some(ImageView::Object(url, None)) ==> part_tokens(part) == 1024
            &&& part.image_url == Some(ImageView::Url(url)) ==> part_tokens(part) == 1024
            &&& part.image_url is None ==> part_tokens(part) == 1024
        },
        part.kind != "text"@ && part.kind != "image_url"@ && part.kind != "input_image"@
            ==> part_tokens(part) == 0,
{
    reveal_strlit("low");
    reveal_strlit("high");
    assert("low"@.len() != "high"@.len());
}

/// Each message adds what it holds and a little for its role; what is shown to the model
/// is at least what its messages take.
pub proof fn messages_add_up(
    messages: Seq<MessageView>,
    m: MessageView,
    parts: Seq<PartView>,
    part: PartView,
    text: Seq<char>,
    bytes: nat,
)
    ensures
        messages_tokens(Seq::<MessageView>::empty()) == 16,
        m.content is None ==> messages_tokens(messages.push(m)) == messages_tokens(messages) + 16,
        m.content == Some(ContentView::Text(text)) ==> messages_tokens(messages.push(m))
            == messages_tokens(messages) + 16 + text_tokens(text),
        m.content == Some(ContentView::Parts(parts)) ==> messages_tokens(messages.push(m))
            == messages_tokens(messages) + 16 + parts_tokens(parts),
        parts_tokens(parts.push(part)) == parts_tokens(parts) + part_tokens(part),
        parts_tokens(Seq::<PartView>::empty()) == 0,
        prompt_tokens(bytes, messages) >= messages_tokens(messages),
        3 * prompt_tokens(bytes, messages) >= bytes,
        prompt_tokens(bytes, messages) == messages_tokens(messages) || 3 * prompt_tokens(
            bytes,
            messages,
        ) < bytes + 3 || bytes == 0,
{
    assert(messages.push(m).drop_last() =~= messages);
    assert(parts.push(part).drop_last() =~= parts);
}

/// What is forgotten is the oldest turn: the first message that is not of the system and
/// the answers and the tools' results that follow it.
pub proof fn oldest_turns_are_forgotten(
    system: Seq<MessageView>,
    asked: MessageView,
    answers: Seq<MessageView>,
    rest: Seq<MessageView>,
)
    requires
        forall|i: int|
            0 <= i < system.len() ==> lowered((#[trigger] system[i]).role) == lowered("system"@),
        lowered(asked.role) != lowered("system"@),
        forall|i: int|
            0 <= i < answers.len() ==> lowered((#[trigger] answers[i]).role) == lowered(
                "assistant"@,
            ) || lowered(answers[i].role) == lowered("tool"@),
        rest.len() > 0 ==> lowered(rest[0].role) != lowered("assistant"@) && lowered(rest[0].role)
            != lowered("tool"@),
    ensures
        can_forget(system + seq![asked] + answers + rest) == (rest.len() > 0),
        rest.len() > 0 ==> forget_turn(system + seq![asked] + answers + rest) == system + rest,
{
    let all = system + seq![asked] + answers + rest;
    let start = turn_start(all);
    lemma_turn_start(all);
    assert(all[system.len() as int] == asked);
    if start < system.len() {
        assert(all[start] == system[start]);
    }
    assert(start == system.len());
    let after = all.skip(start + 1);
    assert(after =~= answers + rest);
    lemma_continuation(after);
    let n = continuation(after);
    if n < answers.len() {
        assert(after[n] == answers[n]);
    }
    if n > answers.len() {
        assert(after[answers.len() as int] == rest[0]);
    }
    assert(n == answers.len());
    assert(all.take(start) =~= system);
    assert(all.skip(turn_end(all)) =~= rest);
}

/// Once trimmed, a prompt leaves room for the answer and a reserve, and what was removed
/// is what is missing; without a context, nothing is removed.
pub proof fn trimmed_prompts_leave_room<R: Fn(&Vec<ChatMessage>) -> usize>(
    render: R,
    before: Seq<MessageView>,
    after: Seq<MessageView>,
    size: usize,
    max_tokens: usize,
    removed: nat,
)
    requires
        trim_result(render, before, after, Some(size), max_tokens, Ok(removed)),
    ensures
        after.len() + removed == before.len(),
        exists|v: Vec<ChatMessage>, n: usize|
            message_views(v@) == after && #[trigger] call_ensures(render, (&v,), n)
                && prompt_tokens(n as nat, after) + max_tokens + 64 <= size,
        max_tokens + 64 < size,
        system_messages(after) == system_messages(before),
{
    let budget = (size - max_tokens - CHAT_CONTEXT_SAFETY_TOKENS) as nat;
    let forgotten = choose|forgotten: nat|
        #[trigger] trims(render, before, after, forgotten, budget) && removed == before.len()
            - after.len() && may_fit(render, after, budget);
    trimming_keeps_system_and_current(before, forgotten);
}

/// Nothing is removed where there is no context to keep to or no room in it.
pub proof fn hopeless_prompts_stay_whole<R: Fn(&Vec<ChatMessage>) -> usize>(
    render: R,
    before: Seq<MessageView>,
    after: Seq<MessageView>,
    context_size: Option<usize>,
    max_tokens: usize,
    r: Result<nat, Seq<char>>,
)
    requires
        trim_result(render, before, after, context_size, max_tokens, r),
        context_size is None || context_size->0 <= max_tokens + 64,
    ensures
        after == before,
        r is Ok <==> context_size is None,
        r is Ok ==> r->Ok_0 == 0,
{
}

/// A model brings its own template to the runtimes that read it from the model, and to
/// no other.
pub proof fn runtimes_that_read_templates_use_them(
    format: ModelFormat,
    mode: crate::args::LlamaCppMode,
    device: crate::args::CandleDeviceMode,
    onnx: crate::args::OnnxRuntimeMode,
    burn: crate::args::BurnMode,
)
    ensures
        format is Gguf <==> default_source(format, BackendChoice::LlamaServer(mode)) is Model,
        format is Gguf <==> default_source(format, BackendChoice::LlamaFast(mode)) is Model,
        format is Gguf <==> default_source(format, BackendChoice::LlamaHighlevel(mode)) is Model,
        default_source(format, BackendChoice::Mlx) is Model,
        default_source(format, BackendChoice::MlxVlm) is Model,
        default_source(format, BackendChoice::TransformersCompat) is Model,
        default_source(format, BackendChoice::Vllm) is Model,
        default_source(format, BackendChoice::VllmRocm) is Model,
        default_source(format, BackendChoice::Candle(device)) is Werk,
        default_source(format, BackendChoice::OnnxRuntime(onnx)) is Werk,
        default_source(format, BackendChoice::Burn(burn)) is Werk,
        default_source(format, BackendChoice::Auto) is Werk,
        !prefers_model_template(format, BackendChoice::Mlx),
        !prefers_model_template(format, BackendChoice::MlxVlm),
        forall|b: BackendChoice|
            !(b is Mlx) && !(b is MlxVlm) ==> (#[trigger] prefers_model_template(format, b)
                <==> default_source(format, b) is Model),
{
}

/// The context a model was trained with is what its configuration says, the positions
/// before the length of its tokenizer, and 4096 tokens where it says nothing.
pub proof fn trained_contexts_are_configured(constraints: JsonView, n: u64)
    requires
        n <= usize::MAX,
    ensures
        unsigned_of(field(constraints, "max_position_embeddings"@)) == Some(n) ==> trained_context(
            constraints,
        ) == n,
        field(constraints, "max_position_embeddings"@) is None && unsigned_of(
            field(constraints, "model_max_length"@),
        ) == Some(n) ==> trained_context(constraints) == n,
        field(constraints, "max_position_embeddings"@) is None && field(
            constraints,
            "model_max_length"@,
        ) is None ==> trained_context(constraints) == 4096,
{
}

} // verus!

//! Tool calls, put together from the pieces in which a stream brings them.

use std::collections::BTreeMap;

use vstd::prelude::*;
use vstd::std_specs::cmp::OrdSpec;
use vstd::std_specs::iter::IteratorSpec;

use crate::messages::{call_views, CallView, ChatCompletionFunctionCall, ChatCompletionToolCall};
use crate::text::opt_view;

verus! {

/// The highest index of a call, and one more.
pub const MAX_TOOL_CALLS: usize = 1024;

#[derive(Debug)]
pub struct ChatCompletionFunctionDelta {
    pub name: Option<String>,
    pub arguments: Option<String>,
}

/// A piece of the call with this index.
#[derive(Debug)]
pub struct ChatCompletionToolCallDelta {
    pub index: usize,
    pub id: Option<String>,
    pub kind: Option<String>,
    pub function: Option<ChatCompletionFunctionDelta>,
}

pub ghost struct DeltaView {
    pub index: int,
    pub id: Option<Seq<char>>,
    pub kind: Option<Seq<char>>,
    pub name: Option<Seq<char>>,
    pub arguments: Option<Seq<char>>,
}

impl ChatCompletionToolCallDelta {
    pub open spec fn view(&self) -> DeltaView {
        DeltaView {
            index: self.index as int,
            id: opt_view(self.id),
            kind: opt_view(self.kind),
            name: match self.function {
                Some(function) => opt_view(function.name),
                None => None,
            },
            arguments: match self.function {
                Some(function) => opt_view(function.arguments),
                None => None,
            },
        }
    }
}

pub open spec fn delta_views(deltas: Seq<ChatCompletionToolCallDelta>) -> Seq<DeltaView> {
    deltas.map_values(|d: ChatCompletionToolCallDelta| d@)
}

pub open spec fn or_empty(s: Option<Seq<char>>) -> Seq<char> {
    match s {
        Some(s) => s,
        None => Seq::empty(),
    }
}

/// A call before its first piece.
pub open spec fn blank_call() -> CallView {
    CallView {
        id: Seq::empty(),
        kind: "function"@,
        name: Seq::empty(),
        arguments: Seq::empty(),
    }
}

/// A piece lengthens the id, the name and the arguments, and replaces the kind.
pub open spec fn with_delta(call: CallView, delta: DeltaView) -> CallView {
    CallView {
        id: call.id + or_empty(delta.id),
        kind: match delta.kind {
            Some(kind) => kind,
            None => call.kind,
        },
        name: call.name + or_empty(delta.name),
        arguments: call.arguments + or_empty(delta.arguments),
    }
}

/// The calls after one more piece.
pub open spec fn with_piece(calls: Map<int, CallView>, delta: DeltaView) -> Map<int, CallView> {
    let before = if calls.dom().contains(delta.index) {
        calls[delta.index]
    } else {
        blank_call()
    };
    calls.insert(delta.index, with_delta(before, delta))
}

/// The calls after the pieces, in order, up to the first whose index is too
/// high.
pub open spec fn with_pieces(calls: Map<int, CallView>, deltas: Seq<DeltaView>) -> Map<int, CallView>
    decreases deltas.len(),
{
    if deltas.len() == 0 || deltas[0].index >= MAX_TOOL_CALLS {
        calls
    } else {
        with_pieces(with_piece(calls, deltas[0]), deltas.drop_first())
    }
}

pub open spec fn all_in_range(deltas: Seq<DeltaView>) -> bool {
    forall|i: int| 0 <= i < deltas.len() ==> (#[trigger] deltas[i]).index < MAX_TOOL_CALLS
}

/// The calls that are being put together, by their indices.
pub struct ToolCallAccumulator {
    calls: BTreeMap<usize, ChatCompletionToolCall>,
}

/// An index of a call.
pub open spec fn is_index(k: int) -> bool {
    0 <= k <= usize::MAX
}

proof fn lemma_ascending(keys: Seq<usize>)
    requires
        vstd::std_specs::btree::increasing_seq(keys),
    ensures
        forall|i: int, j: int| 0 <= i < j < keys.len() ==> #[trigger] keys[i] < #[trigger] keys[j],
{
    broadcast use vstd::std_specs::btree::group_btree_axioms;

    assert forall|i: int, j: int| 0 <= i < j < keys.len() implies #[trigger] keys[i]
        < #[trigger] keys[j] by {
        assert(keys[i].cmp_spec(&keys[j]) is Less);
    }
}

impl ToolCallAccumulator {
    /// The call of each index.
    pub closed spec fn view(&self) -> Map<int, CallView> {
        Map::new(
            |k: int| is_index(k) && self.calls@.contains_key(k as usize),
            |k: int| self.calls@[k as usize]@,
        )
    }

    pub fn new() -> (r: Self)
        ensures
            r@ == Map::<int, CallView>::empty(),
    {
        let r = ToolCallAccumulator { calls: BTreeMap::new() };
        assert(r@ =~= Map::<int, CallView>::empty());
        r
    }

    fn add_piece(&mut self, delta: ChatCompletionToolCallDelta)
        ensures
            final(self)@ == with_piece(old(self)@, delta@),
    {
        broadcast use vstd::std_specs::btree::group_btree_axioms;

        let index = delta.index;
        let ghost before = old(self)@;
        let mut call = match self.calls.remove(&index) {
            Some(call) => call,
            None => ChatCompletionToolCall {
                id: String::new(),
                kind: "function".to_owned(),
                function: ChatCompletionFunctionCall {
                    name: String::new(),
                    arguments: String::new(),
                },
            },
        };
        let ghost start = call@;
        let ghost d = delta@;
        proof {
            if before.contains_key(d.index) {
                assert(start == before[d.index]);
            } else {
                assert(start.id =~= blank_call().id && start.name =~= blank_call().name
                    && start.arguments =~= blank_call().arguments);
            }
        }
        if let Some(id) = delta.id {
            call.id.push_str(id.as_str());
        }
        if let Some(kind) = delta.kind {
            call.kind = kind;
        }
        if let Some(function) = delta.function {
            if let Some(name) = function.name {
                call.function.name.push_str(name.as_str());
            }
            if let Some(arguments) = function.arguments {
                call.function.arguments.push_str(arguments.as_str());
            }
        }
        proof {
            assert(call@.id =~= start.id + or_empty(d.id));
            assert(call@.name =~= start.name + or_empty(d.name));
            assert(call@.arguments =~= start.arguments + or_empty(d.arguments));
            assert(call@ == with_delta(start, d));
        }
        let _ = self.calls.insert(index, call);
        assert(self@ =~= with_piece(before, d));
    }

    /// Adds the pieces, in order. One whose index is too high is refused; those
    /// before it have been added.
    pub fn extend(&mut self, deltas: Vec<ChatCompletionToolCallDelta>) -> (r: Result<(), String>)
        ensures
            final(self)@ == with_pieces(old(self)@, delta_views(deltas@)),
            r is Ok <==> all_in_range(delta_views(deltas@)),
            r matches Err(message) ==> message@ == "tool-call index exceeds 1023"@,
    {
        let ghost all = delta_views(deltas@);
        let ghost first = self@;
        let mut rest = deltas;
        let ghost mut done: int = 0;
        assert(all.skip(0) =~= all);
        while rest.len() > 0
            invariant
                first == old(self)@,
                all == delta_views(deltas@),
                0 <= done <= all.len(),
                delta_views(rest@) == all.skip(done),
                with_pieces(first, all) == with_pieces(self@, all.skip(done)),
                forall|i: int| 0 <= i < done ==> (#[trigger] all[i]).index < MAX_TOOL_CALLS,
            decreases rest@.len(),
        {
            let ghost left = rest@;
            assert(delta_views(left).len() == left.len());
            let delta = rest.remove(0);
            proof {
                assert(delta@ == delta_views(left)[0]);
                assert(delta@ == all[done]);
                assert(delta_views(rest@) =~= all.skip(done).drop_first());
                assert(all.skip(done).drop_first() =~= all.skip(done + 1));
            }
            if delta.index >= MAX_TOOL_CALLS {
                assert(!all_in_range(all)) by {
                    assert(all[done].index >= MAX_TOOL_CALLS);
                }
                return Err("tool-call index exceeds 1023".to_owned());
            }
            self.add_piece(delta);
            proof {
                done = done + 1;
            }
        }
        proof {
            assert(all.skip(done).len() == 0);
            assert(done == all.len());
        }
        Ok(())
    }

    proof fn lemma_listed(&self, keys: Seq<usize>, calls: Seq<ChatCompletionToolCall>)
        requires
            keys.len() == calls.len(),
            forall|i: int, j: int| 0 <= i < j < keys.len() ==> #[trigger] keys[i] < #[trigger] keys[j],
            forall|i: int|
                0 <= i < keys.len() ==> self.calls@.contains_key(#[trigger] keys[i])
                    && self.calls@[keys[i]]@ == calls[i]@,
            forall|k: usize| #[trigger] self.calls@.contains_key(k) ==> keys.contains(k),
        ensures
            in_index_order(call_views(calls), self@),
            all_complete(self@) <==> forall|i: int|
                0 <= i < calls.len() ==> is_complete((#[trigger] calls[i])@),
    {
        let indices = Seq::new(keys.len(), |i: int| keys[i] as int);
        assert forall|k: int| #[trigger] self@.dom().contains(k) implies indices.contains(k) by {
            let i = choose|i: int| 0 <= i < keys.len() && keys[i] == k as usize;
            assert(keys.contains(k as usize));
            assert(indices[i] == k);
        }
        assert forall|i: int| 0 <= i < indices.len() implies self@.dom().contains(
            #[trigger] indices[i],
        ) && self@[indices[i]] == calls[i]@ by {
            assert(self.calls@.contains_key(keys[i]));
        }
        assert(lists(indices, self@));
        assert(call_views(calls) =~= indices.map_values(|k: int| self@[k]));
        if forall|i: int| 0 <= i < calls.len() ==> is_complete((#[trigger] calls[i])@) {
            assert forall|k: int| #[trigger] self@.dom().contains(k) implies is_complete(
                self@[k],
            ) by {
                let i = choose|i: int| 0 <= i < indices.len() && indices[i] == k;
                assert(indices.contains(k));
                assert(is_complete(calls[i]@));
            }
        } else {
            let i = choose|i: int| 0 <= i < calls.len() && !is_complete((#[trigger] calls[i])@);
            assert(self@.dom().contains(indices[i]));
        }
    }

    /// The calls in the order of their indices. One without an id or a name is
    /// refused.
    pub fn finish(self) -> (r: Result<Vec<ChatCompletionToolCall>, String>)
        ensures
            match r {
                Ok(calls) => all_complete(self@) && in_index_order(call_views(calls@), self@),
                Err(message) => !all_complete(self@) && message@
                    == "backend returned incomplete tool-call metadata"@,
            },
    {
        broadcast use vstd::std_specs::btree::group_btree_axioms;

        let mut calls: Vec<ChatCompletionToolCall> = Vec::new();
        let mut complete = true;
        let ghost mut keys: Seq<usize> = Seq::empty();
        let all = self.calls.iter();
        proof {
            lemma_ascending(all.remaining().map_values(|kv: (&usize, &ChatCompletionToolCall)| *kv.0));
            assert forall|i: int, j: int| 0 <= i < j < all.remaining().len() implies *(
            #[trigger] all.remaining()[i]).0 < *(#[trigger] all.remaining()[j]).0 by {
                let ks = all.remaining().map_values(
                    |kv: (&usize, &ChatCompletionToolCall)| *kv.0,
                );
                assert(ks[i] < ks[j]);
            }
        }
        for pair in it: all
            invariant
                calls@.len() == it.index(),
                keys.len() == it.index(),
                forall|i: int|
                    #![trigger keys[i]]
                    #![trigger it.seq()[i]]
                    0 <= i < keys.len() ==> keys[i] == *it.seq()[i].0,
                forall|i: int|
                    0 <= i < calls@.len() ==> (#[trigger] calls@[i])@ == it.seq()[i].1@,
                forall|i: int|
                    0 <= i < it.seq().len() ==> self.calls@.contains_key(*it.seq()[i].0)
                        && self.calls@[*it.seq()[i].0] == *(#[trigger] it.seq()[i]).1,
                forall|k: usize| #[trigger]
                    self.calls@.contains_key(k) ==> it.seq().contains((&k, &self.calls@[k])),
                forall|i: int, j: int|
                    0 <= i < j < it.seq().len() ==> *(#[trigger] it.seq()[i]).0 < *(
                    #[trigger] it.seq()[j]).0,
                complete == (forall|i: int|
                    0 <= i < calls@.len() ==> is_complete((#[trigger] calls@[i])@)),
        {
            let call = pair.1.duplicate();
            let ghost before = calls@;
            let known = call.id.as_str().unicode_len() > 0 && call.function.name.as_str().unicode_len()
                > 0;
            assert(known == is_complete(call@));
            calls.push(call);
            proof {
                keys = keys.push(*pair.0);
                assert(calls@.last() == call);
                if complete && known {
                } else if known {
                    let i = choose|i: int|
                        0 <= i < before.len() && !is_complete((#[trigger] before[i])@);
                    assert(calls@[i] == before[i]);
                }
            }
            complete = complete && known;
        }
        proof {
            self.lemma_listed(keys, calls@);
        }
        if !complete {
            return Err("backend returned incomplete tool-call metadata".to_owned());
        }
        Ok(calls)
    }
}

impl Default for ToolCallAccumulator {
    fn default() -> (r: Self)
        ensures
            r@ == Map::<int, CallView>::empty(),
    {
        ToolCallAccumulator::new()
    }
}

pub open spec fn is_complete(call: CallView) -> bool {
    call.id.len() > 0 && call.name.len() > 0
}

pub open spec fn all_complete(calls: Map<int, CallView>) -> bool {
    forall|k: int| #[trigger] calls.dom().contains(k) ==> is_complete(calls[k])
}

/// `keys` are the indices of `calls`, ascending.
pub open spec fn lists(keys: Seq<int>, calls: Map<int, CallView>) -> bool {
    &&& forall|i: int, j: int| 0 <= i < j < keys.len() ==> #[trigger] keys[i] < #[trigger] keys[j]
    &&& forall|i: int| 0 <= i < keys.len() ==> calls.dom().contains(#[trigger] keys[i])
    &&& forall|k: int| #[trigger] calls.dom().contains(k) ==> keys.contains(k)
}

pub open spec fn in_index_order(listed: Seq<CallView>, calls: Map<int, CallView>) -> bool {
    exists|keys: Seq<int>| #[trigger]
        lists(keys, calls) && listed == keys.map_values(|k: int| calls[k])
}

/// What the stream is cut into makes no difference: pieces given at once and
/// pieces given one batch after another make the same calls.
pub proof fn batches_make_no_difference(
    calls: Map<int, CallView>,
    first: Seq<DeltaView>,
    second: Seq<DeltaView>,
)
    requires
        all_in_range(first),
    ensures
        with_pieces(calls, first + second) == with_pieces(with_pieces(calls, first), second),
    decreases first.len(),
{
    if first.len() == 0 {
        assert(first + second =~= second);
    } else {
        let rest = first.drop_first();
        assert((first + second).drop_first() =~= rest + second);
        assert((first + second)[0] == first[0]);
        assert(all_in_range(rest)) by {
            assert forall|i: int| 0 <= i < rest.len() implies (#[trigger] rest[i]).index
                < MAX_TOOL_CALLS by {
                assert(rest[i] == first[i + 1]);
            }
        }
        batches_make_no_difference(with_piece(calls, first[0]), rest, second);
    }
}

/// Pieces of different calls may come in either order.
pub proof fn calls_do_not_mix(calls: Map<int, CallView>, a: DeltaView, b: DeltaView)
    requires
        a.index != b.index,
    ensures
        with_piece(with_piece(calls, a), b) == with_piece(with_piece(calls, b), a),
{
    assert(with_piece(with_piece(calls, a), b) =~= with_piece(with_piece(calls, b), a));
}

/// The calls of two lists in index order are the same: the order is fixed.
pub proof fn index_order_is_unique(a: Seq<CallView>, b: Seq<CallView>, calls: Map<int, CallView>)
    requires
        in_index_order(a, calls),
        in_index_order(b, calls),
    ensures
        a == b,
{
    let ka = choose|keys: Seq<int>| #[trigger]
        lists(keys, calls) && a == keys.map_values(|k: int| calls[k]);
    let kb = choose|keys: Seq<int>| #[trigger]
        lists(keys, calls) && b == keys.map_values(|k: int| calls[k]);
    lemma_same_keys(ka, kb, calls);
}

proof fn lemma_same_keys(ka: Seq<int>, kb: Seq<int>, calls: Map<int, CallView>)
    requires
        lists(ka, calls),
        lists(kb, calls),
    ensures
        ka == kb,
{
    lemma_prefix(ka, kb, calls, ka.len() as int);
    lemma_prefix(kb, ka, calls, kb.len() as int);
    assert(ka =~= kb);
}

/// Every key of `ka` stands at the same place in `kb`.
proof fn lemma_prefix(ka: Seq<int>, kb: Seq<int>, calls: Map<int, CallView>, n: int)
    requires
        lists(ka, calls),
        lists(kb, calls),
        0 <= n <= ka.len(),
    ensures
        n <= kb.len(),
        forall|i: int| 0 <= i < n ==> ka[i] == kb[i],
    decreases n,
{
    if n > 0 {
        lemma_prefix(ka, kb, calls, n - 1);
        let i = n - 1;
        assert(calls.dom().contains(ka[i]));
        let p = choose|p: int| 0 <= p < kb.len() && kb[p] == ka[i];
        assert(kb.contains(ka[i]));
        if p < i {
            assert(ka[p] == kb[p]);
            assert(ka[p] < ka[i]);
        }
        assert(i < kb.len());
        assert(calls.dom().contains(kb[i]));
        assert(ka.contains(kb[i]));
        let q = choose|q: int| 0 <= q < ka.len() && ka[q] == kb[i];
        if q < i {
            assert(ka[q] == kb[q]);
            assert(kb[q] < kb[i]);
        }
        if p > i {
            assert(kb[i] < kb[p]);
            if q > i {
                assert(ka[i] < ka[q]);
            }
        }
    }
}

// ---------------------------------------------------------------------------
// What pieces make
// ---------------------------------------------------------------------------

/// The pieces of a call are joined in the order in which they come; the last kind given
/// is the kind of the call, a function where none is; and nothing changes of the others.
pub proof fn pieces_make_calls(calls: Map<int, CallView>, d: DeltaView, other: int)
    ensures
        ({
            let after = with_piece(calls, d);
            let before = if calls.dom().contains(d.index) {
                calls[d.index]
            } else {
                CallView {
                    id: Seq::empty(),
                    kind: "function"@,
                    name: Seq::empty(),
                    arguments: Seq::empty(),
                }
            };
            &&& after.dom().contains(d.index)
            &&& d.arguments is Some ==> after[d.index].arguments == before.arguments
                + d.arguments->0
            &&& d.arguments is None ==> after[d.index].arguments == before.arguments
            &&& d.name is Some ==> after[d.index].name == before.name + d.name->0
            &&& d.name is None ==> after[d.index].name == before.name
            &&& d.id is Some ==> after[d.index].id == before.id + d.id->0
            &&& d.id is None ==> after[d.index].id == before.id
            &&& d.kind is Some ==> after[d.index].kind == d.kind->0
            &&& d.kind is None ==> after[d.index].kind == before.kind
            &&& other != d.index ==> (after.dom().contains(other) <==> calls.dom().contains(other))
            &&& other != d.index && calls.dom().contains(other) ==> after[other] == calls[other]
        }),
        with_pieces(calls, Seq::empty()) == calls,
        d.index < 1024 ==> with_pieces(calls, seq![d]) == with_piece(calls, d),
        d.index >= 1024 ==> with_pieces(calls, seq![d]) == calls,
{
    let before = if calls.dom().contains(d.index) {
        calls[d.index]
    } else {
        blank_call()
    };
    assert(before.id + Seq::<char>::empty() =~= before.id);
    assert(before.name + Seq::<char>::empty() =~= before.name);
    assert(before.arguments + Seq::<char>::empty() =~= before.arguments);
    reveal_with_fuel(with_pieces, 2);
    assert(seq![d].drop_first() =~= Seq::<DeltaView>::empty());
}

/// A call is complete with an identifier and a name, whatever its arguments.
pub proof fn calls_are_complete_with_a_name(call: CallView, calls: Map<int, CallView>, k: int)
    ensures
        is_complete(call) <==> call.id != Seq::<char>::empty() && call.name
            != Seq::<char>::empty(),
        all_complete(calls) && calls.dom().contains(k) ==> calls[k].id.len() > 0
            && calls[k].name.len() > 0,
{
    if call.id.len() == 0 {
        assert(call.id =~= Seq::<char>::empty());
    }
    if call.name.len() == 0 {
        assert(call.name =~= Seq::<char>::empty());
    }
}

} // verus!

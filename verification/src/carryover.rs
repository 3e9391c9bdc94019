//! Carryover extraction: the suffix of a finished session's history that
//! seeds the next session.
//!
//! A turn ends with a text-only assistant message. The extractor walks
//! backward to the earliest such boundary that yields the requested number
//! of turns, backs up one message when a user or system message initiated
//! that turn, and falls back to the last few messages when no boundary
//! exists. A tool invocation is never split from its response: the tail
//! never begins with an orphan tool response, and a complete history keeps
//! every invocation's responses inside the tail.

use vstd::prelude::*;

use crate::masking::resp_call_id;
use crate::message::ChatMessage;
use crate::message::ChatRole;
use crate::message::MessageContent;

verus! {

/// The index of the earliest turn boundary among the last `n` boundaries
/// strictly below `i`, or the earliest boundary at all when fewer than `n`
/// exist, or nothing when none exists.
pub open spec fn boundary_start(msgs: Seq<ChatMessage>, i: int, n: int) -> Option<int>
    decreases i,
{
    if i <= 0 || n <= 0 {
        None
    } else if msgs[i - 1].ends_turn() {
        if n == 1 {
            Some(i - 1)
        } else {
            match boundary_start(msgs, i - 1, n - 1) {
                Some(b) => Some(b),
                None => Some(i - 1),
            }
        }
    } else {
        boundary_start(msgs, i - 1, n)
    }
}

/// Back up one message when the boundary's turn was initiated by a user or
/// system message.
pub open spec fn adjusted_start(msgs: Seq<ChatMessage>, b: int) -> int {
    if b > 0 && (msgs[b - 1].role == ChatRole::User || msgs[b - 1].role == ChatRole::System) {
        b - 1
    } else {
        b
    }
}

/// Advance past tool responses whose invocations lie before `s`: a tail must
/// not begin inside an invocation/response pair.
pub open spec fn skip_orphans(msgs: Seq<ChatMessage>, s: int) -> int
    decreases msgs.len() - s,
{
    if 0 <= s < msgs.len() && msgs[s].is_tool_response() {
        skip_orphans(msgs, s + 1)
    } else {
        s
    }
}

/// Where the carryover tail of a history starts.
pub open spec fn carryover_start(msgs: Seq<ChatMessage>, n_turns: int) -> int {
    if n_turns <= 0 || msgs.len() == 0 {
        msgs.len() as int
    } else {
        match boundary_start(msgs, msgs.len() as int, n_turns) {
            Some(b) => adjusted_start(msgs, b),
            None => {
                let base = if 3 * n_turns >= msgs.len() {
                    0int
                } else {
                    msgs.len() - 3 * n_turns
                };
                skip_orphans(msgs, base)
            },
        }
    }
}

proof fn lemma_boundary_start_bounds(msgs: Seq<ChatMessage>, i: int, n: int)
    requires
        i <= msgs.len(),
    ensures
        boundary_start(msgs, i, n) matches Some(b) ==> 0 <= b < i && msgs[b].ends_turn(),
    decreases i,
{
    if i > 0 && n > 0 {
        lemma_boundary_start_bounds(msgs, i - 1, n - 1);
        lemma_boundary_start_bounds(msgs, i - 1, n);
    }
}

proof fn lemma_skip_orphans_bounds(msgs: Seq<ChatMessage>, s: int)
    requires
        0 <= s <= msgs.len(),
    ensures
        s <= skip_orphans(msgs, s) <= msgs.len(),
        skip_orphans(msgs, s) < msgs.len() ==> !msgs[skip_orphans(msgs, s)].is_tool_response(),
    decreases msgs.len() - s,
{
    if s < msgs.len() && msgs[s].is_tool_response() {
        lemma_skip_orphans_bounds(msgs, s + 1);
    }
}

/// The carryover start lies within the history.
pub proof fn lemma_carryover_start_bounds(msgs: Seq<ChatMessage>, n_turns: int)
    ensures
        0 <= carryover_start(msgs, n_turns) <= msgs.len(),
{
    if n_turns > 0 && msgs.len() > 0 {
        lemma_boundary_start_bounds(msgs, msgs.len() as int, n_turns);
        match boundary_start(msgs, msgs.len() as int, n_turns) {
            Some(b) => {},
            None => {
                let base = if 3 * n_turns >= msgs.len() {
                    0int
                } else {
                    msgs.len() - 3 * n_turns
                };
                lemma_skip_orphans_bounds(msgs, base);
            },
        }
    }
}

/// Law: the carryover tail never begins with an orphan tool response. Its
/// first message is a turn boundary, the user or system message that
/// initiated that turn, or — in the fallback — the first message past any
/// leading tool responses.
pub proof fn lemma_carryover_no_orphan_head(msgs: Seq<ChatMessage>, n_turns: int)
    ensures
        carryover_start(msgs, n_turns) < msgs.len() ==> !msgs[carryover_start(
            msgs,
            n_turns,
        )].is_tool_response(),
{
    if n_turns > 0 && msgs.len() > 0 {
        lemma_boundary_start_bounds(msgs, msgs.len() as int, n_turns);
        match boundary_start(msgs, msgs.len() as int, n_turns) {
            Some(b) => {
                assert(msgs[b].ends_turn());
                if adjusted_start(msgs, b) == b - 1 {
                    assert(msgs[b - 1].role == ChatRole::User || msgs[b - 1].role
                        == ChatRole::System);
                }
            },
            None => {
                let base = if 3 * n_turns >= msgs.len() {
                    0int
                } else {
                    msgs.len() - 3 * n_turns
                };
                lemma_skip_orphans_bounds(msgs, base);
            },
        }
    }
}

/// The number of tool invocations a message carries.
pub open spec fn num_calls(m: ChatMessage) -> int {
    match m.content {
        MessageContent::ToolCalls(c) => c.len() as int,
        _ => 0,
    }
}

/// The call id of the `k`-th invocation of a message.
pub open spec fn call_id_at(m: ChatMessage, k: int) -> Seq<char>
    recommends
        0 <= k < num_calls(m),
{
    (m.content->ToolCalls_0)@[k].call_id@
}

/// The invocations of the message at `i` are immediately followed by their
/// responses, in order, under the same call ids.
/// The message at `r` is the response belonging to the `(r - i)`-th
/// invocation of the message at `i`.
pub open spec fn resp_matches(msgs: Seq<ChatMessage>, i: int, r: int) -> bool {
    &&& r < msgs.len()
    &&& msgs[r].is_tool_response()
    &&& resp_call_id(msgs[r]) == call_id_at(msgs[i], r - i - 1)
}

pub open spec fn pair_ok(msgs: Seq<ChatMessage>, i: int) -> bool {
    forall|r: int| i < r <= i + num_calls(msgs[i]) ==> #[trigger] resp_matches(msgs, i, r)
}

proof fn lemma_pair_ok_at(msgs: Seq<ChatMessage>, i: int, r: int)
    requires
        pair_ok(msgs, i),
        i < r <= i + num_calls(msgs[i]),
    ensures
        resp_matches(msgs, i, r),
{
    assert(resp_matches(msgs, i, r));
}

/// A complete history: every batch of tool invocations is immediately
/// followed by its responses.
pub open spec fn paired(msgs: Seq<ChatMessage>) -> bool {
    forall|i: int| 0 <= i < msgs.len() && (#[trigger] msgs[i]).has_tool_calls() ==> pair_ok(msgs, i)
}

/// Law: a carryover tail taken from a complete history never ends between a
/// tool invocation and its responses — every invocation inside the tail has
/// all its responses inside the tail, under the same call ids.
pub proof fn lemma_carryover_pairs_complete(msgs: Seq<ChatMessage>, n_turns: int, tail: Seq<
    ChatMessage,
>)
    requires
        paired(msgs),
        tail == msgs.skip(carryover_start(msgs, n_turns)),
    ensures
        forall|j: int|
            0 <= j < tail.len() && (#[trigger] tail[j]).has_tool_calls() ==> pair_ok(tail, j),
{
    let start = carryover_start(msgs, n_turns);
    lemma_carryover_start_bounds(msgs, n_turns);
    assert forall|j: int|
        0 <= j < tail.len() && (#[trigger] tail[j]).has_tool_calls() implies pair_ok(tail, j) by {
        let i0 = start + j;
        assert(tail[j] == msgs[i0]);
        assert(pair_ok(msgs, i0));
        assert forall|r: int| j < r <= j + num_calls(tail[j]) implies #[trigger] resp_matches(
            tail,
            j,
            r,
        ) by {
            lemma_pair_ok_at(msgs, i0, start + r);
            assert(tail[r] == msgs[start + r]);
        }
    }
}

/// Whether this message ends a turn: a text-only assistant response.
fn ends_turn_exec(m: &ChatMessage) -> (r: bool)
    ensures
        r == m.ends_turn(),
{
    if matches!(m.role, ChatRole::Assistant) {
        match &m.content {
            MessageContent::ToolCalls(calls) => calls.len() == 0,
            _ => true,
        }
    } else {
        false
    }
}

/// Find the start boundary; mirror of [`boundary_start`].
fn boundary_search(messages: &Vec<ChatMessage>, i: usize, n: usize) -> (r: Option<usize>)
    requires
        i <= messages@.len(),
    ensures
        match r {
            Some(b) => boundary_start(messages@, i as int, n as int) == Some(b as int) && b < i,
            None => boundary_start(messages@, i as int, n as int) is None,
        },
    decreases i,
{
    if i == 0 || n == 0 {
        return None;
    }
    let m = &messages[i - 1];
    if ends_turn_exec(m) {
        if n == 1 {
            Some(i - 1)
        } else {
            match boundary_search(messages, i - 1, n - 1) {
                Some(b) => Some(b),
                None => Some(i - 1),
            }
        }
    } else {
        boundary_search(messages, i - 1, n)
    }
}

/// Extract the carryover tail: the last `n_turns` complete turns of the
/// history, the initiating user or system message included, falling back to
/// the last `3 * n_turns` messages when no turn boundary exists. The tail
/// never begins with a tool response.
pub fn extract_carryover(messages: Vec<ChatMessage>, n_turns: usize) -> (r: Vec<ChatMessage>)
    ensures
        r@ == messages@.skip(carryover_start(messages@, n_turns as int)),
{
    let ghost orig = messages@;
    let len = messages.len();
    if n_turns == 0 || len == 0 {
        proof {
            assert(orig.skip(orig.len() as int) =~= Seq::<ChatMessage>::empty());
        }
        return Vec::new();
    }
    let start: usize = match boundary_search(&messages, len, n_turns) {
        Some(b) => {
            if b > 0 && {
                let prev = &messages[b - 1];
                matches!(prev.role, ChatRole::User) || matches!(prev.role, ChatRole::System)
            } {
                b - 1
            } else {
                b
            }
        },
        None => {
            let window: u128 = (n_turns as u128) * 3;
            let base: usize = if window >= len as u128 {
                0
            } else {
                len - (window as usize)
            };
            proof {
                assert(base as int == if 3 * (n_turns as int) >= orig.len() {
                    0int
                } else {
                    orig.len() - 3 * (n_turns as int)
                });
            }
            let mut s = base;
            while s < len && is_tool_response_exec(&messages, s)
                invariant
                    len == orig.len(),
                    messages@ == orig,
                    0 <= s <= len,
                    skip_orphans(orig, base as int) == skip_orphans(orig, s as int),
                decreases len - s,
            {
                s += 1;
            }
            s
        },
    };
    let mut messages = messages;
    let tail = messages.split_off(start);
    tail
}

/// Whether the message at `i` is a tool response.
fn is_tool_response_exec(messages: &Vec<ChatMessage>, i: usize) -> (r: bool)
    requires
        i < messages@.len(),
    ensures
        r == messages@[i as int].is_tool_response(),
{
    let m = &messages[i];
    if matches!(m.role, ChatRole::Tool) {
        matches!(&m.content, MessageContent::ToolResponse(_))
    } else {
        false
    }
}

} // verus!

//! Observation masking: replacing old tool-response contents with short
//! summary placeholders to reclaim context, oldest first.
//!
//! Messages are never removed; only the content of a tool response is
//! replaced, so every tool invocation keeps its paired response under the
//! same call id. Placeholders mark themselves (a leading `[` and the word
//! `masked`), which makes masking idempotent.

use vstd::prelude::*;

use crate::context::ContextManager;
use crate::context::MaskResult;
use crate::json::sp_flat_object;
use crate::json::sp_lookup;
use crate::json::SpecJson;
use crate::json::parse_flat_object;
use crate::json::assoc_lookup;
use crate::json::JVal;
use crate::message::ChatMessage;
use crate::message::ChatRole;
use crate::message::MessageContent;
use crate::message::ToolCall;
use crate::message::ToolResponse;
use crate::strutil::contains_seq;
use crate::strutil::count_lines;
use crate::strutil::dec_digits;
use crate::strutil::dec_int;
use crate::strutil::first_line;
use crate::strutil::line_count;
use crate::strutil::occurs_at;
use crate::strutil::push_dec_u64;
use crate::strutil::push_dec_i64;
use crate::strutil::str_contains;
use crate::strutil::str_eq;
use crate::strutil::take_first_line;
use crate::strutil::truncate_chars;
use crate::strutil::truncated;

verus! {

/// The marker every placeholder carries.
pub open spec fn masked_marker() -> Seq<char> {
    seq!['m', 'a', 's', 'k', 'e', 'd']
}

/// A masked observation starts with `[` and contains the marker.
pub open spec fn is_masked_spec(s: Seq<char>) -> bool {
    s.len() > 0 && s[0] == '[' && contains_seq(s, masked_marker())
}

/// Check whether a tool response has already been masked.
pub fn is_already_masked(content: &str) -> (r: bool)
    ensures
        r == is_masked_spec(content@),
{
    proof {
        reveal_strlit("masked");
        assert("masked"@ =~= masked_marker());
    }
    let len = content.unicode_len();
    if len == 0 {
        return false;
    }
    if content.get_char(0) != '[' {
        return false;
    }
    str_contains(content, "masked")
}

/// The byte length of a text, as UTF-8 encodes it and a `usize` holds it.
pub open spec fn byte_len(s: Seq<char>) -> int {
    (vstd::utf8::encode_utf8(s).len() as usize) as int
}

/// The summary data a shell observation yields when its content is a flat
/// JSON object: the exit code (`-1` when absent or not an integer) and the
/// byte length of the captured stdout (`0` when absent or not a string).
pub open spec fn shell_summary(content: Seq<char>) -> Option<(int, int)> {
    match sp_flat_object(content) {
        None => None,
        Some(ms) => {
            let code = match sp_lookup(ms, seq!['e', 'x', 'i', 't', '_', 'c', 'o', 'd', 'e']) {
                Some(SpecJson::SInt(c)) => c,
                _ => -1,
            };
            let bytes: int = match sp_lookup(ms, seq!['s', 't', 'd', 'o', 'u', 't']) {
                Some(SpecJson::SStr(out)) => byte_len(out),
                _ => 0,
            };
            Some((code, bytes))
        },
    }
}

/// The placeholder text that masks an observation of the given tool.
pub open spec fn placeholder_spec(fn_name: Seq<char>, content: Seq<char>) -> Seq<char> {
    if fn_name == "file_read"@ {
        "[file_read result masked — "@ + dec_digits(line_count(content))
            + " lines, starts with: "@ + truncated(first_line(content), 60) + "]"@
    } else if fn_name == "shell_exec"@ {
        match shell_summary(content) {
            Some((code, bytes)) => "[shell_exec result masked — exit_code="@ + dec_int(code)
                + ", stdout="@ + dec_digits(bytes as nat) + " bytes]"@,
            None => "[shell_exec result masked — "@ + dec_digits(byte_len(content) as nat)
                + " bytes of output]"@,
        }
    } else {
        "["@ + fn_name + " result masked — "@ + dec_digits(byte_len(content) as nat)
            + " bytes of output]"@
    }
}

/// Generate the summary placeholder for a masked tool observation. It keeps
/// enough for the agent to know what the output was: line count and first
/// line for a file read, exit code and stdout size for a shell command
/// (parsed from the JSON payload when possible, else the raw byte count),
/// and the byte count for everything else.
pub fn generate_placeholder(fn_name: &str, original_content: &str) -> (r: String)
    ensures
        r@ == placeholder_spec(fn_name@, original_content@),
{
    let mut out = String::new();
    if str_eq(fn_name, "file_read") {
        let lines = count_lines(original_content);
        let head = take_first_line(original_content);
        let shown = truncate_chars(head.as_str(), 60);
        out.append("[file_read result masked — ");
        push_dec_u64(&mut out, lines as u64);
        out.append(" lines, starts with: ");
        out.append(shown.as_str());
        out.append("]");
        proof {
            assert(out@ =~= placeholder_spec(fn_name@, original_content@));
        }
        out
    } else if str_eq(fn_name, "shell_exec") {
        match extract_shell_summary(original_content) {
            Some((code, bytes)) => {
                out.append("[shell_exec result masked — exit_code=");
                push_dec_i64(&mut out, code);
                out.append(", stdout=");
                push_dec_u64(&mut out, bytes as u64);
                out.append(" bytes]");
                proof {
                    assert(out@ =~= placeholder_spec(fn_name@, original_content@));
                }
                out
            },
            None => {
                proof {
                    assert(original_content.len() == byte_len(original_content@));
                }
                out.append("[shell_exec result masked — ");
                push_dec_u64(&mut out, original_content.len() as u64);
                out.append(" bytes of output]");
                proof {
                    assert(out@ =~= placeholder_spec(fn_name@, original_content@));
                }
                out
            },
        }
    } else {
        proof {
            assert(original_content.len() == byte_len(original_content@));
        }
        out.append("[");
        out.append(fn_name);
        out.append(" result masked — ");
        push_dec_u64(&mut out, original_content.len() as u64);
        out.append(" bytes of output]");
        proof {
            assert(out@ =~= placeholder_spec(fn_name@, original_content@));
        }
        out
    }
}

/// Extract the shell summary from a tool payload; mirror of
/// [`shell_summary`].
fn extract_shell_summary(content: &str) -> (r: Option<(i64, usize)>)
    ensures
        match r {
            Some((code, bytes)) => shell_summary(content@) == Some::<(int, int)>(
                (code as int, bytes as int),
            ),
            None => shell_summary(content@) is None,
        },
{
    proof {
        reveal_strlit("exit_code");
        reveal_strlit("stdout");
        assert("exit_code"@ =~= seq!['e', 'x', 'i', 't', '_', 'c', 'o', 'd', 'e']);
        assert("stdout"@ =~= seq!['s', 't', 'd', 'o', 'u', 't']);
    }
    match parse_flat_object(content) {
        None => None,
        Some(ms) => {
            let code: i64 = match assoc_lookup(&ms, &"exit_code".to_owned()) {
                Some(v) => match v {
                    JVal::JInt(c) => *c,
                    _ => -1,
                },
                None => -1,
            };
            let bytes: usize = match assoc_lookup(&ms, &"stdout".to_owned()) {
                Some(v) => match v {
                    JVal::JStr(out) => out.as_str().len(),
                    _ => 0,
                },
                None => 0,
            };
            Some((code, bytes))
        },
    }
}

// ---------------------------------------------------------------------------
// Masking a history
// ---------------------------------------------------------------------------

/// The content of a tool-response message.
pub open spec fn resp_content(m: ChatMessage) -> Seq<char>
    recommends
        m.is_tool_response(),
{
    (m.content->ToolResponse_0).content@
}

/// The call id of a tool-response message.
pub open spec fn resp_call_id(m: ChatMessage) -> Seq<char>
    recommends
        m.is_tool_response(),
{
    (m.content->ToolResponse_0).call_id@
}

/// A tool response whose content is not yet a placeholder.
pub open spec fn unmasked_resp(m: ChatMessage) -> bool {
    m.is_tool_response() && !is_masked_spec(resp_content(m))
}

/// How many unmasked tool responses stand before index `i`.
pub open spec fn unmasked_before(msgs: Seq<ChatMessage>, i: int) -> int
    decreases i,
{
    if i <= 0 {
        0
    } else {
        unmasked_before(msgs, i - 1) + if unmasked_resp(msgs[i - 1]) {
            1int
        } else {
            0int
        }
    }
}

/// The total number of unmasked tool responses in a history.
pub open spec fn unmasked_total(msgs: Seq<ChatMessage>) -> int {
    unmasked_before(msgs, msgs.len() as int)
}

/// Whether a masking round with budget `count` replaces the message at `i`.
pub open spec fn will_mask(msgs: Seq<ChatMessage>, count: int, i: int) -> bool {
    unmasked_resp(msgs[i]) && unmasked_before(msgs, i) < count
}

/// How many observations one round with budget `count` masks.
pub open spec fn masked_now_spec(msgs: Seq<ChatMessage>, count: int) -> int {
    if unmasked_total(msgs) <= count {
        unmasked_total(msgs)
    } else {
        count
    }
}

/// The name under the first call with the given id among a batch of calls,
/// or `unknown`.
pub open spec fn calls_fn_name(calls: Seq<ToolCall>, call_id: Seq<char>) -> Seq<char>
    decreases calls.len(),
{
    if calls.len() == 0 {
        "unknown"@
    } else if calls[0].call_id@ == call_id {
        calls[0].fn_name@
    } else {
        calls_fn_name(calls.skip(1), call_id)
    }
}

/// The function name recovered for the response at `i`: the nearest
/// preceding assistant message is searched for an invocation with the same
/// call id; everything else yields `unknown`.
pub open spec fn find_fn_name_spec(msgs: Seq<ChatMessage>, i: int, call_id: Seq<char>) -> Seq<
    char,
>
    decreases i,
{
    if i <= 0 {
        "unknown"@
    } else if msgs[i - 1].role == ChatRole::Assistant {
        match msgs[i - 1].content {
            MessageContent::ToolCalls(calls) => calls_fn_name(calls@, call_id),
            _ => "unknown"@,
        }
    } else {
        find_fn_name_spec(msgs, i - 1, call_id)
    }
}

/// The tool name used for the placeholder of the response at `i`.
pub open spec fn fn_name_for(msgs: Seq<ChatMessage>, i: int) -> Seq<char> {
    if resp_call_id(msgs[i]).len() == 0 {
        "unknown"@
    } else {
        find_fn_name_spec(msgs, i, resp_call_id(msgs[i]))
    }
}

/// What a masked message looks like: still a tool response, its call id
/// preserved, its content replaced by the placeholder.
pub open spec fn masked_fields_ok(msgs: Seq<ChatMessage>, i: int, m: ChatMessage) -> bool {
    &&& m.role == ChatRole::Tool
    &&& m.content matches MessageContent::ToolResponse(tr) && tr.content@ == placeholder_spec(
        fn_name_for(msgs, i),
        resp_content(msgs[i]),
    ) && tr.call_id@ == resp_call_id(msgs[i])
}

/// The name search reads only roles and assistant messages, so two
/// histories that agree on those below `i` yield the same name.
proof fn lemma_find_fn_name_agrees(a: Seq<ChatMessage>, b: Seq<ChatMessage>, i: int, cid: Seq<char>)
    requires
        i <= a.len(),
        i <= b.len(),
        forall|j: int|
            0 <= j < i ==> (#[trigger] a[j]).role == b[j].role && (a[j].role
                == ChatRole::Assistant ==> a[j] == b[j]),
    ensures
        find_fn_name_spec(a, i, cid) == find_fn_name_spec(b, i, cid),
    decreases i,
{
    if i > 0 {
        if a[i - 1].role == ChatRole::Assistant {
        } else {
            lemma_find_fn_name_agrees(a, b, i - 1, cid);
        }
    }
}

/// Search backward from `i` for the nearest assistant message and return the
/// function name of its invocation with the given call id, or `unknown`.
fn find_fn_name(messages: &Vec<ChatMessage>, i: usize, call_id: &String) -> (r: String)
    requires
        i <= messages@.len(),
    ensures
        r@ == find_fn_name_spec(messages@, i as int, call_id@),
{
    let mut j: usize = i;
    while j > 0
        invariant
            i <= messages@.len(),
            0 <= j <= i,
            find_fn_name_spec(messages@, i as int, call_id@) == find_fn_name_spec(
                messages@,
                j as int,
                call_id@,
            ),
        decreases j,
    {
        let m = &messages[j - 1];
        if matches!(m.role, ChatRole::Assistant) {
            match &m.content {
                MessageContent::ToolCalls(calls) => {
                    return calls_lookup(calls, call_id);
                },
                _ => {
                    return "unknown".to_owned();
                },
            }
        }
        j -= 1;
    }
    "unknown".to_owned()
}

/// Find the name of the call with the given id; mirror of
/// [`calls_fn_name`].
fn calls_lookup(calls: &Vec<ToolCall>, call_id: &String) -> (r: String)
    ensures
        r@ == calls_fn_name(calls@, call_id@),
{
    let n = calls.len();
    let mut k: usize = 0;
    proof {
        assert(calls@.skip(0) =~= calls@);
    }
    while k < n
        invariant
            n == calls@.len(),
            0 <= k <= n,
            calls_fn_name(calls@, call_id@) == calls_fn_name(calls@.skip(k as int), call_id@),
        decreases n - k,
    {
        proof {
            assert(calls@.skip(k as int)[0] == calls@[k as int]);
            assert(calls@.skip(k as int).skip(1) =~= calls@.skip(k + 1));
        }
        if calls[k].call_id.eq(call_id) {
            return calls[k].fn_name.clone();
        }
        k += 1;
    }
    proof {
        assert(calls@.skip(n as int) =~= Seq::<ToolCall>::empty());
    }
    "unknown".to_owned()
}

/// Walk the history oldest to newest and replace the content of up to
/// `count` unmasked tool responses with summary placeholders. No message is
/// added or removed; call ids are preserved verbatim, so every invocation
/// keeps its paired response; already-masked responses are skipped. Returns
/// how many were masked this round and the session total.
pub fn mask_oldest_observations(
    messages: &mut Vec<ChatMessage>,
    count: usize,
    context_manager: &mut ContextManager,
) -> (r: MaskResult)
    ensures
        final(messages)@.len() == old(messages)@.len(),
        forall|i: int|
            0 <= i < old(messages)@.len() && will_mask(old(messages)@, count as int, i)
                ==> masked_fields_ok(old(messages)@, i, #[trigger] final(messages)@[i]),
        forall|i: int|
            0 <= i < old(messages)@.len() && !will_mask(old(messages)@, count as int, i)
                ==> #[trigger] final(messages)@[i] == old(messages)@[i],
        r.masked_count == masked_now_spec(old(messages)@, count as int),
        final(context_manager).masked_count == if old(context_manager).masked_count
            + masked_now_spec(old(messages)@, count as int) <= usize::MAX {
            old(context_manager).masked_count + masked_now_spec(old(messages)@, count as int)
        } else {
            usize::MAX as int
        },
        r.total_masked == final(context_manager).masked_count,
        *final(context_manager) == (ContextManager {
            masked_count: final(context_manager).masked_count,
            ..*old(context_manager)
        }),
{
    let n = messages.len();
    let mut i: usize = 0;
    let mut done: usize = 0;
    while i < n
        invariant
            n == old(messages)@.len(),
            messages@.len() == n,
            0 <= i <= n,
            done <= count,
            done as int == if unmasked_before(old(messages)@, i as int) <= count {
                unmasked_before(old(messages)@, i as int)
            } else {
                count as int
            },
            forall|k: int|
                0 <= k < i && will_mask(old(messages)@, count as int, k) ==> masked_fields_ok(
                    old(messages)@,
                    k,
                    #[trigger] messages@[k],
                ),
            forall|k: int|
                0 <= k < i && !will_mask(old(messages)@, count as int, k)
                    ==> #[trigger] messages@[k] == old(messages)@[k],
            forall|k: int| i <= k < n ==> #[trigger] messages@[k] == old(messages)@[k],
        decreases n - i,
    {
        proof {
            assert(messages@[i as int] == old(messages)@[i as int]);
        }
        // Read phase: decide whether this message is an unmasked response
        // and copy what the placeholder needs.
        let candidate: Option<(String, String)> = {
            let m = &messages[i];
            if matches!(m.role, ChatRole::Tool) {
                match &m.content {
                    MessageContent::ToolResponse(tr) => {
                        if is_already_masked(tr.content.as_str()) {
                            None
                        } else {
                            Some((tr.call_id.clone(), tr.content.clone()))
                        }
                    },
                    _ => None,
                }
            } else {
                None
            }
        };
        match candidate {
            Some((call_id, content)) => {
                proof {
                    assert(unmasked_resp(old(messages)@[i as int]));
                }
                if done < count {
                    let fn_name: String = if call_id.unicode_len() == 0 {
                        "unknown".to_owned()
                    } else {
                        find_fn_name(messages, i, &call_id)
                    };
                    let placeholder = generate_placeholder(fn_name.as_str(), content.as_str());
                    let replacement = ChatMessage::from_tool_response(
                        ToolResponse { call_id, content: placeholder },
                    );
                    proof {
                        lemma_find_fn_name_agrees(
                            messages@,
                            old(messages)@,
                            i as int,
                            resp_call_id(old(messages)@[i as int]),
                        );
                        assert(masked_fields_ok(old(messages)@, i as int, replacement));
                        assert(will_mask(old(messages)@, count as int, i as int));
                    }
                    messages[i] = replacement;
                    done += 1;
                } else {
                    proof {
                        assert(!will_mask(old(messages)@, count as int, i as int));
                    }
                }
            },
            None => {
                proof {
                    assert(!unmasked_resp(old(messages)@[i as int]));
                }
            },
        }
        proof {
            assert(unmasked_before(old(messages)@, i + 1) == unmasked_before(
                old(messages)@,
                i as int,
            ) + if unmasked_resp(old(messages)@[i as int]) {
                1int
            } else {
                0int
            });
        }
        i += 1;
    }
    let masked_now = done;
    let total = context_manager.masked_count.saturating_add(masked_now);
    context_manager.masked_count = total;
    MaskResult { masked_count: masked_now, total_masked: total }
}

/// The system notification describing one masking round.
pub fn generate_mask_notification(masked_count: usize, total_masked: usize, reclaimed_pct: u64) -> (r:
    String)
    ensures
        r@ == "[Context compressed: "@ + dec_digits(masked_count as nat)
            + " observations masked this round, "@ + dec_digits(total_masked as nat) + " total, ~"@
            + dec_digits(reclaimed_pct as nat) + "% context reclaimed]"@,
{
    let mut out = String::new();
    out.append("[Context compressed: ");
    push_dec_u64(&mut out, masked_count as u64);
    out.append(" observations masked this round, ");
    push_dec_u64(&mut out, total_masked as u64);
    out.append(" total, ~");
    push_dec_u64(&mut out, reclaimed_pct);
    out.append("% context reclaimed]");
    proof {
        assert(out@ =~= "[Context compressed: "@ + dec_digits(masked_count as nat)
            + " observations masked this round, "@ + dec_digits(total_masked as nat) + " total, ~"@
            + dec_digits(reclaimed_pct as nat) + "% context reclaimed]"@);
    }
    out
}

// ---------------------------------------------------------------------------
// Laws
// ---------------------------------------------------------------------------

/// Every placeholder marks itself: it starts with `[` and carries the
/// marker, so a later round recognizes and skips it.
pub proof fn lemma_placeholder_is_masked(fn_name: Seq<char>, content: Seq<char>)
    ensures
        is_masked_spec(placeholder_spec(fn_name, content)),
{
    let p = placeholder_spec(fn_name, content);
    if fn_name == "file_read"@ {
        let l = "[file_read result masked — "@;
        reveal_strlit("[file_read result masked — ");
        assert(p[0] == l[0] && l[0] == '[');
        assert forall|j: int| 0 <= j < 6 implies p.subrange(18, 24)[j] == masked_marker()[j] by {
            assert(p[18 + j] == l[18 + j]);
        }
        assert(p.subrange(18, 24) =~= masked_marker());
        assert(occurs_at(p, masked_marker(), 18));
    } else if fn_name == "shell_exec"@ {
        match shell_summary(content) {
            Some((code, bytes)) => {
                let l = "[shell_exec result masked — exit_code="@;
                reveal_strlit("[shell_exec result masked — exit_code=");
                assert(p[0] == l[0] && l[0] == '[');
                assert forall|j: int| 0 <= j < 6 implies p.subrange(19, 25)[j] == masked_marker()[j]
                by {
                    assert(p[19 + j] == l[19 + j]);
                }
                assert(p.subrange(19, 25) =~= masked_marker());
                assert(occurs_at(p, masked_marker(), 19));
            },
            None => {
                let l = "[shell_exec result masked — "@;
                reveal_strlit("[shell_exec result masked — ");
                assert(p[0] == l[0] && l[0] == '[');
                assert forall|j: int| 0 <= j < 6 implies p.subrange(19, 25)[j] == masked_marker()[j]
                by {
                    assert(p[19 + j] == l[19 + j]);
                }
                assert(p.subrange(19, 25) =~= masked_marker());
                assert(occurs_at(p, masked_marker(), 19));
            },
        }
    } else {
        let l = " result masked — "@;
        reveal_strlit(" result masked — ");
        reveal_strlit("[");
        assert(p[0] == '[');
        let base = 1 + fn_name.len() as int;
        assert forall|j: int| 0 <= j < 6 implies p.subrange(base + 8, base + 14)[j]
            == masked_marker()[j] by {
            assert(p[base + 8 + j] == l[8 + j]);
        }
        assert(p.subrange(base + 8, base + 14) =~= masked_marker());
        assert(occurs_at(p, masked_marker(), base + 8));
    }
}

proof fn lemma_unmasked_before_mono(msgs: Seq<ChatMessage>, a: int, b: int)
    requires
        a <= b,
    ensures
        unmasked_before(msgs, a) <= unmasked_before(msgs, b),
    decreases b - a,
{
    if a < b {
        lemma_unmasked_before_mono(msgs, a, b - 1);
    }
}

proof fn lemma_unmasked_before_nonneg(msgs: Seq<ChatMessage>, i: int)
    ensures
        unmasked_before(msgs, i) >= 0,
    decreases i,
{
    if i > 0 {
        lemma_unmasked_before_nonneg(msgs, i - 1);
    }
}

/// An unmasked response at `i` is counted by the total.
proof fn lemma_unmasked_before_lt_total(msgs: Seq<ChatMessage>, i: int)
    requires
        0 <= i < msgs.len(),
        unmasked_resp(msgs[i]),
    ensures
        unmasked_before(msgs, i) < unmasked_total(msgs),
{
    assert(unmasked_before(msgs, i + 1) == unmasked_before(msgs, i) + 1);
    lemma_unmasked_before_mono(msgs, i + 1, msgs.len() as int);
}

proof fn lemma_all_masked_zero(msgs: Seq<ChatMessage>, i: int)
    requires
        0 <= i <= msgs.len(),
        forall|k: int| 0 <= k < msgs.len() ==> !unmasked_resp(#[trigger] msgs[k]),
    ensures
        unmasked_before(msgs, i) == 0,
    decreases i,
{
    if i > 0 {
        lemma_all_masked_zero(msgs, i - 1);
    }
}

/// Law: masking is idempotent. After a round whose budget was not exhausted
/// (every unmasked observation was replaced), the history holds no unmasked
/// tool response, so re-applying masking with any budget masks nothing and
/// changes nothing.
pub proof fn lemma_masking_idempotent(
    before: Seq<ChatMessage>,
    after: Seq<ChatMessage>,
    count: int,
)
    requires
        after.len() == before.len(),
        forall|i: int|
            0 <= i < before.len() && will_mask(before, count, i) ==> masked_fields_ok(
                before,
                i,
                #[trigger] after[i],
            ),
        forall|i: int|
            0 <= i < before.len() && !will_mask(before, count, i) ==> #[trigger] after[i]
                == before[i],
        masked_now_spec(before, count) < count,
    ensures
        unmasked_total(after) == 0,
        forall|c: int| masked_now_spec(after, c) <= 0,
{
    assert(unmasked_total(before) < count) by {
        lemma_unmasked_before_nonneg(before, before.len() as int);
    }
    assert forall|i: int| 0 <= i < after.len() implies !unmasked_resp(#[trigger] after[i]) by {
        if will_mask(before, count, i) {
            lemma_placeholder_is_masked(fn_name_for(before, i), resp_content(before[i]));
        } else {
            if unmasked_resp(before[i]) {
                lemma_unmasked_before_lt_total(before, i);
            }
        }
    }
    lemma_all_masked_zero(after, after.len() as int);
    assert forall|c: int| masked_now_spec(after, c) <= 0 by {
        assert(unmasked_total(after) == 0);
    }
}

/// Law: a history without tool responses yields an empty masking round.
pub proof fn lemma_mask_nothing_to_mask(msgs: Seq<ChatMessage>, count: int)
    requires
        forall|i: int| 0 <= i < msgs.len() ==> !(#[trigger] msgs[i]).is_tool_response(),
    ensures
        count >= 0 ==> masked_now_spec(msgs, count) == 0,
        unmasked_total(msgs) == 0,
{
    lemma_all_masked_zero(msgs, msgs.len() as int);
}

} // verus!

//! JSON snapshots of sub-agent state, as the status and result tools report
//! them: a status is a bare string or a one-field object for a failure
//! message; an info snapshot and a structured result are objects.

use vstd::prelude::*;

use crate::json::JVal;
use crate::json::SpecJson;
use crate::json::assoc_view;
use crate::json::esc_seq;
use crate::json::json_string;
use crate::json::object_json;
use crate::json::parse_flat_object;
use crate::json::push_json_string;
use crate::json::push_object;
use crate::json::sp_flat_object;
use crate::json::sp_members;
use crate::json::sp_string_body;
use crate::json::sp_u64;
use crate::json::lemma_members_roundtrip;
use crate::json::lemma_object_roundtrip;
use crate::json::members_json;
use crate::json::members_ok;
use crate::json::lemma_string_roundtrip;
use crate::registry::SubAgentInfo;
use crate::registry::SubAgentKind;
use crate::registry::SubAgentResult;
use crate::registry::SubAgentStatus;
use crate::json::is_dec_digit;
use crate::strutil::dec_digits;
use crate::strutil::push_dec_u64;

verus! {

/// The shape of a status, its failure message as text.
pub enum StatusView {
    VRunning,
    VCompleted,
    VFailed(Seq<char>),
    VKilled,
}

/// The view of a status value.
pub open spec fn status_view(st: SubAgentStatus) -> StatusView {
    match st {
        SubAgentStatus::Running => StatusView::VRunning,
        SubAgentStatus::Completed => StatusView::VCompleted,
        SubAgentStatus::Failed(m) => StatusView::VFailed(m@),
        SubAgentStatus::Killed => StatusView::VKilled,
    }
}

/// The JSON rendering of a status: the variant name as a string, or a
/// one-field object carrying the failure message.
#[verifier::opaque]
pub open spec fn status_json_spec(v: StatusView) -> Seq<char> {
    match v {
        StatusView::VRunning => json_string("Running"@),
        StatusView::VCompleted => json_string("Completed"@),
        StatusView::VFailed(m) => object_json(seq![("Failed"@, SpecJson::SStr(m))]),
        StatusView::VKilled => json_string("Killed"@),
    }
}

/// What the strict parser reads back from a serialized status.
pub open spec fn sp_parse_status(s: Seq<char>) -> Option<StatusView> {
    if s.len() > 0 && s[0] == '"' {
        match sp_string_body(s.skip(1)) {
            Some((name, n)) => {
                if 1 + n == s.len() {
                    if name == "Running"@ {
                        Some(StatusView::VRunning)
                    } else if name == "Completed"@ {
                        Some(StatusView::VCompleted)
                    } else if name == "Killed"@ {
                        Some(StatusView::VKilled)
                    } else {
                        None
                    }
                } else {
                    None
                }
            },
            None => None,
        }
    } else {
        match sp_flat_object(s) {
            Some(ms) => {
                if ms.len() == 1 && ms[0].0 == "Failed"@ && ms[0].1 is SStr {
                    Some(StatusView::VFailed(ms[0].1->SStr_0))
                } else {
                    None
                }
            },
            None => None,
        }
    }
}

impl SubAgentStatus {
    /// Serialize this status.
    pub fn to_json(&self) -> (r: String)
        ensures
            r@ == status_json_spec(status_view(*self)),
    {
        proof {
            reveal(status_json_spec);
        }
        match self {
            SubAgentStatus::Running => {
                let mut out = String::new();
                push_json_string(&mut out, "Running");
                out
            },
            SubAgentStatus::Completed => {
                let mut out = String::new();
                push_json_string(&mut out, "Completed");
                out
            },
            SubAgentStatus::Killed => {
                let mut out = String::new();
                push_json_string(&mut out, "Killed");
                out
            },
            SubAgentStatus::Failed(m) => {
                let ghost mv = m@;
                let mut pairs: Vec<(String, JVal)> = Vec::new();
                pairs.push(("Failed".to_owned(), JVal::JStr(m.clone())));
                let mut out = String::new();
                proof {
                    assert(assoc_view(pairs@) =~= seq![("Failed"@, SpecJson::SStr(mv))]);
                }
                push_object(&mut out, &pairs);
                out
            },
        }
    }
}

/// Parse a serialized status. Accepts exactly what serialization emits.
pub fn status_from_json(s: &str) -> (r: Option<SubAgentStatus>)
    ensures
        (r is Some) == (sp_parse_status(s@) is Some),
        r matches Some(st) ==> sp_parse_status(s@) == Some(status_view(st)),
{
    proof {
        reveal_strlit("Running");
        reveal_strlit("Completed");
        reveal_strlit("Killed");
        reveal_strlit("Failed");
    }
    let s_len = s.unicode_len();
    if s_len > 0 && s.get_char(0) == '"' {
        proof {
            assert(s@.skip(1) =~= s@.skip(0).skip(1));
            assert(s@.skip(0) =~= s@);
        }
        match crate::json::parse_string_body(s, s_len, 1) {
            Some((name, n)) => {
                if 1 + n != s_len {
                    return None;
                }
                if crate::strutil::str_eq(name.as_str(), "Running") {
                    Some(SubAgentStatus::Running)
                } else if crate::strutil::str_eq(name.as_str(), "Completed") {
                    Some(SubAgentStatus::Completed)
                } else if crate::strutil::str_eq(name.as_str(), "Killed") {
                    Some(SubAgentStatus::Killed)
                } else {
                    None
                }
            },
            None => None,
        }
    } else {
        match parse_flat_object(s) {
            Some(ms) => {
                if ms.len() != 1 {
                    return None;
                }
                if !crate::strutil::str_eq(ms[0].0.as_str(), "Failed") {
                    proof {
                        assert(assoc_view(ms@)[0] == (ms@[0].0@, ms@[0].1@));
                    }
                    return None;
                }
                proof {
                    assert(assoc_view(ms@)[0] == (ms@[0].0@, ms@[0].1@));
                    if s@.len() > 0 && s@[0] == '"' {
                        assert(sp_flat_object(s@) is Some ==> s@[0] == '{');
                        assert(false);
                    }
                }
                match &ms[0].1 {
                    JVal::JStr(m) => Some(SubAgentStatus::Failed(m.clone())),
                    _ => None,
                }
            },
            None => None,
        }
    }
}

/// Law: the JSON form of a sub-agent status is round-trip stable.
pub proof fn lemma_status_roundtrip(v: StatusView)
    ensures
        sp_parse_status(status_json_spec(v)) == Some(v),
{
    reveal(status_json_spec);
    reveal_strlit("Running");
    reveal_strlit("Completed");
    reveal_strlit("Killed");
    reveal_strlit("Failed");
    match v {
        StatusView::VFailed(m) => {
            let ms = seq![("Failed"@, SpecJson::SStr(m))];
            lemma_object_roundtrip(ms);
            let s = status_json_spec(v);
            assert(s == object_json(ms));
            assert(s[0] == '{');
            assert(('{' as u32) != ('"' as u32));
        },
        _ => {
            let name: Seq<char> = match v {
                StatusView::VRunning => "Running"@,
                StatusView::VCompleted => "Completed"@,
                StatusView::VKilled => "Killed"@,
                StatusView::VFailed(m) => m,
            };
            let s = json_string(name);
            assert(s[0] == '"');
            assert(s.skip(1) =~= esc_seq(name) + seq!['"'] + Seq::<char>::empty());
            lemma_string_roundtrip(name, Seq::empty());
            assert(s.len() == esc_seq(name).len() + 2);
            assert("Running"@ != "Completed"@) by {
                assert("Running"@.len() == 7 && "Completed"@.len() == 9);
            }
            assert("Running"@ != "Killed"@) by {
                assert("Running"@[0] == 'R' && "Killed"@[0] == 'K');
            }
            assert("Completed"@ != "Killed"@) by {
                assert("Completed"@.len() == 9 && "Killed"@.len() == 6);
            }
        },
    }
}

/// The JSON rendering of an entry kind: a one-variant object whose payload
/// names the model and goal, or the command.
#[verifier::opaque]
pub open spec fn kind_json_spec(k: SubAgentKind) -> Seq<char> {
    match k {
        SubAgentKind::LlmSession { model, goal } => seq!['{'] + json_string("LlmSession"@)
            + seq![':'] + object_json(
            seq![("model"@, SpecJson::SStr(model@)), ("goal"@, SpecJson::SStr(goal@))],
        ) + seq!['}'],
        SubAgentKind::BackgroundProcess { command } => seq!['{'] + json_string(
            "BackgroundProcess"@,
        ) + seq![':'] + object_json(seq![("command"@, SpecJson::SStr(command@))]) + seq!['}'],
    }
}

/// Serialize an entry kind.
pub fn kind_to_json(k: &SubAgentKind) -> (r: String)
    ensures
        r@ == kind_json_spec(*k),
{
    proof {
        reveal(kind_json_spec);
        reveal_strlit("{");
        reveal_strlit("}");
        reveal_strlit(":");
    }
    let mut out = String::new();
    out.append("{");
    match k {
        SubAgentKind::LlmSession { model, goal } => {
            let ghost mv = model@;
            let ghost gv = goal@;
            push_json_string(&mut out, "LlmSession");
            out.append(":");
            let mut pairs: Vec<(String, JVal)> = Vec::new();
            pairs.push(("model".to_owned(), JVal::JStr(model.clone())));
            pairs.push(("goal".to_owned(), JVal::JStr(goal.clone())));
            proof {
                assert(assoc_view(pairs@) =~= seq![
                    ("model"@, SpecJson::SStr(mv)),
                    ("goal"@, SpecJson::SStr(gv)),
                ]);
            }
            push_object(&mut out, &pairs);
        },
        SubAgentKind::BackgroundProcess { command } => {
            let ghost cv = command@;
            push_json_string(&mut out, "BackgroundProcess");
            out.append(":");
            let mut pairs: Vec<(String, JVal)> = Vec::new();
            pairs.push(("command".to_owned(), JVal::JStr(command.clone())));
            proof {
                assert(assoc_view(pairs@) =~= seq![("command"@, SpecJson::SStr(cv))]);
            }
            push_object(&mut out, &pairs);
        },
    }
    out.append("}");
    proof {
        assert(":"@ =~= seq![':']);
        assert("{"@ =~= seq!['{']);
        assert("}"@ =~= seq!['}']);
        assert(out@ =~= kind_json_spec(*k));
    }
    out
}

/// An optional string as JSON: the string, or `null`.
#[verifier::opaque]
pub open spec fn opt_str_json(v: Option<String>) -> Seq<char> {
    match v {
        Some(s) => json_string(s@),
        None => seq!['n', 'u', 'l', 'l'],
    }
}

/// The JSON rendering of an info snapshot.
#[verifier::opaque]
pub open spec fn info_json_spec(info: SubAgentInfo) -> Seq<char> {
    seq!['{'] + json_string("id"@) + seq![':'] + json_string(info.id@) + seq![','] + json_string(
        "kind"@,
    ) + seq![':'] + kind_json_spec(info.kind) + seq![','] + json_string("parent_id"@) + seq![':']
        + opt_str_json(info.parent_id) + seq![','] + json_string("status"@) + seq![':']
        + status_json_spec(status_view(info.status)) + seq![','] + json_string("depth"@)
        + seq![':'] + dec_digits(info.depth as nat) + seq![','] + json_string("spawned_at"@)
        + seq![':'] + json_string(info.spawned_at@) + seq![','] + json_string("completed_at"@)
        + seq![':'] + opt_str_json(info.completed_at) + seq!['}']
}

/// Append an optional string as JSON.
fn push_opt_str(out: &mut String, v: &Option<String>)
    ensures
        final(out)@ == old(out)@ + opt_str_json(*v),
{
    proof {
        reveal(opt_str_json);
    }
    match v {
        Some(s) => {
            push_json_string(out, s.as_str());
        },
        None => {
            proof {
                reveal_strlit("null");
            }
            out.append("null");
            proof {
                assert("null"@ =~= seq!['n', 'u', 'l', 'l']);
            }
        },
    }
}

impl SubAgentInfo {
    /// Serialize this snapshot.
    pub fn to_json(&self) -> (r: String)
        ensures
            r@ == info_json_spec(*self),
    {
        proof {
            reveal(info_json_spec);
            reveal_strlit("{");
            reveal_strlit("}");
            reveal_strlit(":");
            reveal_strlit(",");
        }
        let mut out = String::new();
        out.append("{");
        push_json_string(&mut out, "id");
        out.append(":");
        push_json_string(&mut out, self.id.as_str());
        out.append(",");
        push_json_string(&mut out, "kind");
        out.append(":");
        let kind = kind_to_json(&self.kind);
        out.append(kind.as_str());
        out.append(",");
        push_json_string(&mut out, "parent_id");
        out.append(":");
        push_opt_str(&mut out, &self.parent_id);
        out.append(",");
        push_json_string(&mut out, "status");
        out.append(":");
        let status = self.status.to_json();
        out.append(status.as_str());
        out.append(",");
        push_json_string(&mut out, "depth");
        out.append(":");
        push_dec_u64(&mut out, self.depth as u64);
        out.append(",");
        push_json_string(&mut out, "spawned_at");
        out.append(":");
        push_json_string(&mut out, self.spawned_at.as_str());
        out.append(",");
        push_json_string(&mut out, "completed_at");
        out.append(":");
        push_opt_str(&mut out, &self.completed_at);
        out.append("}");
        proof {
            assert(":"@ =~= seq![':']);
            assert(","@ =~= seq![',']);
            assert("{"@ =~= seq!['{']);
            assert("}"@ =~= seq!['}']);
            assert(out@ =~= info_json_spec(*self));
        }
        out
    }
}

/// A JSON array of strings.
pub open spec fn str_array_json(v: Seq<String>) -> Seq<char>
    decreases v.len(),
{
    if v.len() == 0 {
        seq!['[', ']']
    } else if v.len() == 1 {
        seq!['['] + json_string(v[0]@) + seq![']']
    } else {
        seq!['['] + json_string(v[0]@) + str_array_tail(v.skip(1))
    }
}

/// The rest of a JSON string array: a comma and an element each, then the
/// closing bracket.
pub open spec fn str_array_tail(v: Seq<String>) -> Seq<char>
    decreases v.len(),
{
    if v.len() == 0 {
        seq![']']
    } else {
        seq![','] + json_string(v[0]@) + str_array_tail(v.skip(1))
    }
}

/// Append a JSON array of strings.
fn push_str_array(out: &mut String, v: &Vec<String>)
    ensures
        final(out)@ == old(out)@ + str_array_json(v@),
{
    proof {
        reveal_strlit("[");
        reveal_strlit("]");
        reveal_strlit("[]");
        reveal_strlit(",");
        assert("["@ =~= seq!['[']);
        assert("]"@ =~= seq![']']);
        assert("[]"@ =~= seq!['[', ']']);
    }
    let n = v.len();
    if n == 0 {
        out.append("[]");
        proof {
            assert(final(out)@ =~= old(out)@ + str_array_json(v@));
        }
        return ;
    }
    out.append("[");
    push_json_string(out, v[0].as_str());
    let mut i: usize = 1;
    proof {
        assert(str_array_json(v@) =~= seq!['['] + json_string(v@[0]@) + str_array_tail(
            v@.skip(1),
        )) by {
            if v@.len() == 1 {
                assert(str_array_tail(v@.skip(1)) =~= seq![']']);
            }
        }
    }
    while i < n
        invariant
            n == v@.len(),
            1 <= i <= n,
            out@ + str_array_tail(v@.skip(i as int)) == old(out)@ + str_array_json(v@),
        decreases n - i,
    {
        proof {
            reveal_strlit(",");
            assert(","@ =~= seq![',']);
            assert(v@.skip(i as int)[0] == v@[i as int]);
            assert(v@.skip(i as int).skip(1) =~= v@.skip(i + 1));
        }
        out.append(",");
        push_json_string(out, v[i].as_str());
        i += 1;
    }
    proof {
        reveal_strlit("]");
        assert("]"@ =~= seq![']']);
        assert(str_array_tail(v@.skip(n as int)) =~= seq![']']);
    }
    out.append("]");
}

/// The JSON rendering of a structured result.
pub open spec fn result_json_spec(res: SubAgentResult) -> Seq<char> {
    seq!['{'] + json_string("agent_id"@) + seq![':'] + json_string(res.agent_id@) + seq![',']
        + json_string("status"@) + seq![':'] + json_string(res.status@) + seq![','] + json_string(
        "summary"@,
    ) + seq![':'] + json_string(res.summary@) + seq![','] + json_string("output"@) + seq![':']
        + json_string(res.output@) + seq![','] + json_string("files_modified"@) + seq![':']
        + str_array_json(res.files_modified@) + seq![','] + json_string("elapsed_ms"@) + seq![':']
        + dec_digits(res.elapsed_ms as nat) + seq!['}']
}

impl SubAgentResult {
    /// Serialize this result.
    pub fn to_json(&self) -> (r: String)
        ensures
            r@ == result_json_spec(*self),
    {
        proof {
            reveal_strlit("{");
            reveal_strlit("}");
            reveal_strlit(":");
            reveal_strlit(",");
        }
        let mut out = String::new();
        out.append("{");
        push_json_string(&mut out, "agent_id");
        out.append(":");
        push_json_string(&mut out, self.agent_id.as_str());
        out.append(",");
        push_json_string(&mut out, "status");
        out.append(":");
        push_json_string(&mut out, self.status.as_str());
        out.append(",");
        push_json_string(&mut out, "summary");
        out.append(":");
        push_json_string(&mut out, self.summary.as_str());
        out.append(",");
        push_json_string(&mut out, "output");
        out.append(":");
        push_json_string(&mut out, self.output.as_str());
        out.append(",");
        push_json_string(&mut out, "files_modified");
        out.append(":");
        push_str_array(&mut out, &self.files_modified);
        out.append(",");
        push_json_string(&mut out, "elapsed_ms");
        out.append(":");
        push_dec_u64(&mut out, self.elapsed_ms);
        out.append("}");
        proof {
            assert(":"@ =~= seq![':']);
            assert(","@ =~= seq![',']);
            assert("{"@ =~= seq!['{']);
            assert("}"@ =~= seq!['}']);
            assert(out@ =~= result_json_spec(*self));
        }
        out
    }
}

/// A JSON array of info snapshots, for the query over every agent.
pub open spec fn info_array_json(v: Seq<SubAgentInfo>) -> Seq<char>
    decreases v.len(),
{
    if v.len() == 0 {
        seq!['[', ']']
    } else if v.len() == 1 {
        seq!['['] + info_json_spec(v[0]) + seq![']']
    } else {
        seq!['['] + info_json_spec(v[0]) + info_array_tail(v.skip(1))
    }
}

/// The rest of an info array.
pub open spec fn info_array_tail(v: Seq<SubAgentInfo>) -> Seq<char>
    decreases v.len(),
{
    if v.len() == 0 {
        seq![']']
    } else {
        seq![','] + info_json_spec(v[0]) + info_array_tail(v.skip(1))
    }
}

/// Serialize a list of info snapshots as a JSON array.
#[verifier::rlimit(100)]
pub fn infos_to_json(v: &Vec<SubAgentInfo>) -> (r: String)
    ensures
        r@ == info_array_json(v@),
{
    proof {
        reveal_strlit("[");
        reveal_strlit("]");
        reveal_strlit("[]");
        reveal_strlit(",");
        assert("["@ =~= seq!['[']);
        assert("]"@ =~= seq![']']);
        assert("[]"@ =~= seq!['[', ']']);
        assert(","@ =~= seq![',']);
    }
    let mut out = String::new();
    let n = v.len();
    if n == 0 {
        out.append("[]");
        proof {
            assert(out@ =~= info_array_json(v@));
        }
        return out;
    }
    out.append("[");
    let first = v[0].to_json();
    out.append(first.as_str());
    let mut i: usize = 1;
    proof {
        assert(info_array_json(v@) =~= seq!['['] + info_json_spec(v@[0]) + info_array_tail(
            v@.skip(1),
        )) by {
            if v@.len() == 1 {
                assert(info_array_tail(v@.skip(1)) =~= seq![']']);
            }
        }
    }
    while i < n
        invariant
            n == v@.len(),
            1 <= i <= n,
            out@ + info_array_tail(v@.skip(i as int)) == seq!['['] + info_json_spec(v@[0])
                + info_array_tail(v@.skip(1)) && out@ + info_array_tail(v@.skip(i as int))
                == info_array_json(v@),
        decreases n - i,
    {
        proof {
            reveal_strlit(",");
            assert(","@ =~= seq![',']);
            assert(v@.skip(i as int)[0] == v@[i as int]);
            assert(v@.skip(i as int).skip(1) =~= v@.skip(i + 1));
        }
        out.append(",");
        let piece = v[i].to_json();
        out.append(piece.as_str());
        i += 1;
    }
    proof {
        reveal_strlit("]");
        assert("]"@ =~= seq![']']);
        assert(info_array_tail(v@.skip(n as int)) =~= seq![']']);
    }
    out.append("]");
    out
}

// ---------------------------------------------------------------------------
// Parsing snapshots back
// ---------------------------------------------------------------------------

/// The shape of an entry kind, its strings as text.
pub enum KindView {
    KLlm(Seq<char>, Seq<char>),
    KProc(Seq<char>),
}

/// The view of a kind value.
pub open spec fn kind_view(k: SubAgentKind) -> KindView {
    match k {
        SubAgentKind::LlmSession { model, goal } => KindView::KLlm(model@, goal@),
        SubAgentKind::BackgroundProcess { command } => KindView::KProc(command@),
    }
}

/// The shape of a whole info snapshot, its strings as text.
pub struct InfoView {
    pub id: Seq<char>,
    pub kind: KindView,
    pub parent_id: Option<Seq<char>>,
    pub status: StatusView,
    pub depth: int,
    pub spawned_at: Seq<char>,
    pub completed_at: Option<Seq<char>>,
}

/// The view of an info snapshot.
pub open spec fn info_view(info: SubAgentInfo) -> InfoView {
    InfoView {
        id: info.id@,
        kind: kind_view(info.kind),
        parent_id: match info.parent_id {
            Some(p) => Some(p@),
            None => None,
        },
        status: status_view(info.status),
        depth: info.depth as int,
        spawned_at: info.spawned_at@,
        completed_at: match info.completed_at {
            Some(c) => Some(c@),
            None => None,
        },
    }
}

/// A string token at the head of `s`, with the characters consumed.
pub open spec fn sp_str_at(s: Seq<char>) -> Option<(Seq<char>, int)> {
    if s.len() > 0 && s[0] == '"' {
        match sp_string_body(s.skip(1)) {
            Some((t, n)) => Some((t, 1 + n)),
            None => None,
        }
    } else {
        None
    }
}

/// A `"key":` token at the head of `s`, with the characters consumed.
pub open spec fn sp_key_at(s: Seq<char>, key: Seq<char>) -> Option<int> {
    match sp_str_at(s) {
        Some((k, n)) => {
            if k == key && n < s.len() && s[n] == ':' {
                Some(n + 1)
            } else {
                None
            }
        },
        None => None,
    }
}

/// An optional string at the head of `s`: `null` or a string token.
pub open spec fn sp_opt_str_at(s: Seq<char>) -> Option<(Option<Seq<char>>, int)> {
    if s.len() >= 4 && s.subrange(0, 4) == seq!['n', 'u', 'l', 'l'] {
        Some((None, 4))
    } else {
        match sp_str_at(s) {
            Some((t, n)) => Some((Some(t), n)),
            None => None,
        }
    }
}

/// A status token at the head of `s`: a variant name as a string, or the
/// one-field failure object.
pub open spec fn sp_status_at(s: Seq<char>) -> Option<(StatusView, int)> {
    if s.len() == 0 {
        None
    } else if s[0] == '"' {
        match sp_string_body(s.skip(1)) {
            Some((name, n)) => {
                if name == "Running"@ {
                    Some((StatusView::VRunning, 1 + n))
                } else if name == "Completed"@ {
                    Some((StatusView::VCompleted, 1 + n))
                } else if name == "Killed"@ {
                    Some((StatusView::VKilled, 1 + n))
                } else {
                    None
                }
            },
            None => None,
        }
    } else if s[0] == '{' {
        match sp_members(s.skip(1)) {
            Some((ms, n)) => {
                if ms.len() == 1 && ms[0].0 == "Failed"@ && ms[0].1 is SStr {
                    Some((StatusView::VFailed(ms[0].1->SStr_0), 1 + n))
                } else {
                    None
                }
            },
            None => None,
        }
    } else {
        None
    }
}

/// A kind token at the head of `s`: the one-variant object with its payload
/// object.
pub open spec fn sp_kind_at(s: Seq<char>) -> Option<(KindView, int)> {
    if s.len() == 0 || s[0] != '{' {
        None
    } else {
        match sp_key_at(s.skip(1), "LlmSession"@) {
            Some(kc) => {
                if 1 + kc < s.len() && s[1 + kc] == '{' {
                    match sp_members(s.skip(2 + kc)) {
                        Some((ms, n)) => {
                            if ms.len() == 2 && ms[0].0 == "model"@ && ms[0].1 is SStr && ms[1].0
                                == "goal"@ && ms[1].1 is SStr && 2 + kc + n < s.len() && s[2 + kc
                                + n] == '}' {
                                Some(
                                    (
                                        KindView::KLlm(ms[0].1->SStr_0, ms[1].1->SStr_0),
                                        3 + kc + n,
                                    ),
                                )
                            } else {
                                None
                            }
                        },
                        None => None,
                    }
                } else {
                    None
                }
            },
            None => match sp_key_at(s.skip(1), "BackgroundProcess"@) {
                Some(kc) => {
                    if 1 + kc < s.len() && s[1 + kc] == '{' {
                        match sp_members(s.skip(2 + kc)) {
                            Some((ms, n)) => {
                                if ms.len() == 1 && ms[0].0 == "command"@ && ms[0].1 is SStr && 2
                                    + kc + n < s.len() && s[2 + kc + n] == '}' {
                                    Some((KindView::KProc(ms[0].1->SStr_0), 3 + kc + n))
                                } else {
                                    None
                                }
                            },
                            None => None,
                        }
                    } else {
                        None
                    }
                },
                None => None,
            },
        }
    }
}

/// What the strict parser reads back from a serialized info snapshot: every
/// field, in declaration order, the whole input consumed. Split into four
/// segments of the field chain.
#[verifier::opaque]
pub open spec fn sp_parse_info(s: Seq<char>) -> Option<InfoView> {
    if s.len() == 0 || s[0] != '{' {
        None
    } else {
        match sp_key_at(s.skip(1), "id"@) {
            None => None,
            Some(k1) => match sp_str_at(s.skip(1 + k1)) {
                None => None,
                Some((idv, n1)) => {
                    let p2 = 1 + k1 + n1;
                    if p2 < s.len() && s[p2] == ',' {
                        sp_info_after_id(s, p2 + 1, idv)
                    } else {
                        None
                    }
                },
            },
        }
    }
}

/// The kind and parent fields of an info snapshot.
#[verifier::opaque]
pub open spec fn sp_info_after_id(s: Seq<char>, p: int, idv: Seq<char>) -> Option<InfoView> {
    match sp_key_at(s.skip(p), "kind"@) {
        None => None,
        Some(k2) => match sp_kind_at(s.skip(p + k2)) {
            None => None,
            Some((kindv, n2)) => {
                let p3 = p + k2 + n2;
                if !(p3 < s.len() && s[p3] == ',') {
                    None
                } else {
                    match sp_key_at(s.skip(p3 + 1), "parent_id"@) {
                        None => None,
                        Some(k3) => match sp_opt_str_at(s.skip(p3 + 1 + k3)) {
                            None => None,
                            Some((pidv, n3)) => {
                                let p4 = p3 + 1 + k3 + n3;
                                if p4 < s.len() && s[p4] == ',' {
                                    sp_parse_info_tail(s, p4 + 1, idv, kindv, pidv)
                                } else {
                                    None
                                }
                            },
                        },
                    }
                }
            },
        },
    }
}

/// The status and depth fields of an info snapshot.
#[verifier::opaque]
pub open spec fn sp_parse_info_tail(
    s: Seq<char>,
    p: int,
    idv: Seq<char>,
    kindv: KindView,
    pidv: Option<Seq<char>>,
) -> Option<InfoView> {
    match sp_key_at(s.skip(p), "status"@) {
        None => None,
        Some(k4) => match sp_status_at(s.skip(p + k4)) {
            None => None,
            Some((stv, n4)) => {
                let p5 = p + k4 + n4;
                if !(p5 < s.len() && s[p5] == ',') {
                    None
                } else {
                    match sp_key_at(s.skip(p5 + 1), "depth"@) {
                        None => None,
                        Some(k5) => match sp_u64(s.skip(p5 + 1 + k5)) {
                            None => None,
                            Some((depthv, n5)) => {
                                if depthv > usize::MAX {
                                    None
                                } else {
                                    let p6 = p5 + 1 + k5 + n5;
                                    if p6 < s.len() && s[p6] == ',' {
                                        sp_info_after_depth(s, p6 + 1, idv, kindv, pidv, stv, depthv)
                                    } else {
                                        None
                                    }
                                }
                            },
                        },
                    }
                }
            },
        },
    }
}

/// The timestamp fields and the closing brace of an info snapshot.
#[verifier::opaque]
pub open spec fn sp_info_after_depth(
    s: Seq<char>,
    p: int,
    idv: Seq<char>,
    kindv: KindView,
    pidv: Option<Seq<char>>,
    stv: StatusView,
    depthv: int,
) -> Option<InfoView> {
    match sp_key_at(s.skip(p), "spawned_at"@) {
        None => None,
        Some(k6) => match sp_str_at(s.skip(p + k6)) {
            None => None,
            Some((spv, n6)) => {
                let p7 = p + k6 + n6;
                if !(p7 < s.len() && s[p7] == ',') {
                    None
                } else {
                    match sp_key_at(s.skip(p7 + 1), "completed_at"@) {
                        None => None,
                        Some(k7) => match sp_opt_str_at(s.skip(p7 + 1 + k7)) {
                            None => None,
                            Some((cav, n7)) => {
                                let p8 = p7 + 1 + k7 + n7;
                                if p8 == s.len() - 1 && s[p8] == '}' {
                                    Some(
                                        InfoView {
                                            id: idv,
                                            kind: kindv,
                                            parent_id: pidv,
                                            status: stv,
                                            depth: depthv,
                                            spawned_at: spv,
                                            completed_at: cav,
                                        },
                                    )
                                } else {
                                    None
                                }
                            },
                        },
                    }
                }
            },
        },
    }
}

/// A string token at `pos`; mirror of [`sp_str_at`].
fn parse_str_at(s: &str, s_len: usize, pos: usize) -> (r: Option<(String, usize)>)
    requires
        s_len == s@.len(),
        pos <= s_len,
    ensures
        match r {
            Some((t, n)) => sp_str_at(s@.skip(pos as int)) == Some::<(Seq<char>, int)>(
                (t@, n as int),
            ) && pos + n <= s_len && n >= 1,
            None => sp_str_at(s@.skip(pos as int)) is None,
        },
{
    let ghost tail = s@.skip(pos as int);
    if pos < s_len && s.get_char(pos) == '"' {
        proof {
            assert(tail[0] == '"');
            assert(tail.skip(1) =~= s@.skip(pos + 1));
        }
        match crate::json::parse_string_body(s, s_len, pos + 1) {
            Some((t, n)) => Some((t, 1 + n)),
            None => None,
        }
    } else {
        None
    }
}

/// A `"key":` token at `pos`; mirror of [`sp_key_at`].
fn parse_key_at(s: &str, s_len: usize, pos: usize, key: &str) -> (r: Option<usize>)
    requires
        s_len == s@.len(),
        pos <= s_len,
    ensures
        match r {
            Some(n) => sp_key_at(s@.skip(pos as int), key@) == Some(n as int) && pos + n <= s_len
                && n >= 1,
            None => sp_key_at(s@.skip(pos as int), key@) is None,
        },
{
    let ghost tail = s@.skip(pos as int);
    match parse_str_at(s, s_len, pos) {
        Some((k, n)) => {
            if crate::strutil::str_eq(k.as_str(), key) && pos + n < s_len && s.get_char(pos + n)
                == ':' {
                proof {
                    assert(tail[n as int] == s@[pos + n]);
                }
                Some(n + 1)
            } else {
                proof {
                    if pos + n < s_len {
                        assert(tail[n as int] == s@[pos + n]);
                    }
                }
                None
            }
        },
        None => None,
    }
}

/// An optional string at `pos`; mirror of [`sp_opt_str_at`].
fn parse_opt_str_at(s: &str, s_len: usize, pos: usize) -> (r: Option<(Option<String>, usize)>)
    requires
        s_len == s@.len(),
        pos <= s_len,
    ensures
        match r {
            Some((v, n)) => sp_opt_str_at(s@.skip(pos as int)) matches Some(sp) && sp.1 == n as int
                && pos + n <= s_len && n >= 1 && (match v {
                Some(t) => sp.0 == Some(t@),
                None => sp.0 is None,
            }),
            None => sp_opt_str_at(s@.skip(pos as int)) is None,
        },
{
    let ghost tail = s@.skip(pos as int);
    if s_len - pos >= 4 && s.get_char(pos) == 'n' && s.get_char(pos + 1) == 'u' && s.get_char(
        pos + 2,
    ) == 'l' && s.get_char(pos + 3) == 'l' {
        proof {
            assert(tail[0] == 'n' && tail[1] == 'u' && tail[2] == 'l' && tail[3] == 'l');
            assert(tail.subrange(0, 4) =~= seq!['n', 'u', 'l', 'l']);
        }
        Some((None, 4))
    } else {
        proof {
            if tail.len() >= 4 && tail.subrange(0, 4) == seq!['n', 'u', 'l', 'l'] {
                assert(tail[0] == 'n' && tail[1] == 'u' && tail[2] == 'l' && tail[3] == 'l');
                assert(s@[pos as int] == 'n' && s@[pos + 1] == 'u' && s@[pos + 2] == 'l' && s@[pos
                    + 3] == 'l');
                assert(false);
            }
        }
        match parse_str_at(s, s_len, pos) {
            Some((t, n)) => Some((Some(t), n)),
            None => None,
        }
    }
}

/// A status token at `pos`; mirror of [`sp_status_at`].
fn parse_status_at(s: &str, s_len: usize, pos: usize) -> (r: Option<(SubAgentStatus, usize)>)
    requires
        s_len == s@.len(),
        pos <= s_len,
    ensures
        match r {
            Some((st, n)) => sp_status_at(s@.skip(pos as int)) == Some::<(StatusView, int)>(
                (status_view(st), n as int),
            ) && pos + n <= s_len && n >= 1,
            None => sp_status_at(s@.skip(pos as int)) is None,
        },
{
    proof {
        reveal_strlit("Running");
        reveal_strlit("Completed");
        reveal_strlit("Killed");
        reveal_strlit("Failed");
    }
    let ghost tail = s@.skip(pos as int);
    if pos == s_len {
        return None;
    }
    let c = s.get_char(pos);
    proof {
        assert(tail[0] == c);
    }
    if c == '"' {
        proof {
            assert(tail.skip(1) =~= s@.skip(pos + 1));
        }
        match crate::json::parse_string_body(s, s_len, pos + 1) {
            Some((name, n)) => {
                if crate::strutil::str_eq(name.as_str(), "Running") {
                    Some((SubAgentStatus::Running, 1 + n))
                } else if crate::strutil::str_eq(name.as_str(), "Completed") {
                    Some((SubAgentStatus::Completed, 1 + n))
                } else if crate::strutil::str_eq(name.as_str(), "Killed") {
                    Some((SubAgentStatus::Killed, 1 + n))
                } else {
                    None
                }
            },
            None => None,
        }
    } else if c == '{' {
        proof {
            assert(tail.skip(1) =~= s@.skip(pos + 1));
        }
        match crate::json::parse_members_at(s, s_len, pos + 1) {
            Some((ms, n)) => {
                if ms.len() != 1 {
                    return None;
                }
                proof {
                    assert(assoc_view(ms@)[0] == (ms@[0].0@, ms@[0].1@));
                }
                if !crate::strutil::str_eq(ms[0].0.as_str(), "Failed") {
                    return None;
                }
                match &ms[0].1 {
                    JVal::JStr(m) => Some((SubAgentStatus::Failed(m.clone()), 1 + n)),
                    _ => None,
                }
            },
            None => None,
        }
    } else {
        None
    }
}

/// A kind token at `pos`; mirror of [`sp_kind_at`].
#[verifier::rlimit(100)]
#[verifier::spinoff_prover]
fn parse_kind_at(s: &str, s_len: usize, pos: usize) -> (r: Option<(SubAgentKind, usize)>)
    requires
        s_len == s@.len(),
        pos <= s_len,
    ensures
        match r {
            Some((k, n)) => sp_kind_at(s@.skip(pos as int)) == Some::<(KindView, int)>(
                (kind_view(k), n as int),
            ) && pos + n <= s_len && n >= 1,
            None => sp_kind_at(s@.skip(pos as int)) is None,
        },
{
    proof {
        reveal_strlit("LlmSession");
        reveal_strlit("BackgroundProcess");
        reveal_strlit("model");
        reveal_strlit("goal");
        reveal_strlit("command");
    }
    let ghost tail = s@.skip(pos as int);
    if pos == s_len || s.get_char(pos) != '{' {
        proof {
            if tail.len() > 0 {
                assert(tail[0] == s@[pos as int]);
            }
        }
        return None;
    }
    proof {
        assert(tail[0] == '{');
        assert(tail.skip(1) =~= s@.skip(pos + 1));
    }
    match parse_key_at(s, s_len, pos + 1, "LlmSession") {
        Some(kc) => {
            if !(pos + 1 + kc < s_len && s.get_char(pos + 1 + kc) == '{') {
                proof {
                    if 1 + kc < tail.len() {
                        assert(tail[1 + kc] == s@[pos + 1 + kc]);
                    }
                }
                return None;
            }
            proof {
                assert(tail[1 + kc] == '{');
                assert(tail.skip(2 + kc) =~= s@.skip(pos + 2 + kc));
            }
            match crate::json::parse_members_at(s, s_len, pos + 2 + kc) {
                Some((ms, n)) => {
                    if ms.len() != 2 {
                        return None;
                    }
                    proof {
                        assert(assoc_view(ms@)[0] == (ms@[0].0@, ms@[0].1@));
                        assert(assoc_view(ms@)[1] == (ms@[1].0@, ms@[1].1@));
                    }
                    if !(crate::strutil::str_eq(ms[0].0.as_str(), "model")
                        && crate::strutil::str_eq(ms[1].0.as_str(), "goal")) {
                        return None;
                    }
                    if !(pos + 2 + kc + n < s_len && s.get_char(pos + 2 + kc + n) == '}') {
                        proof {
                            if 2 + kc + n < tail.len() {
                                assert(tail[2 + kc + n] == s@[pos + 2 + kc + n]);
                            }
                        }
                        return None;
                    }
                    proof {
                        assert(tail[2 + kc + n] == '}');
                    }
                    match (&ms[0].1, &ms[1].1) {
                        (JVal::JStr(model), JVal::JStr(goal)) => Some(
                            (
                                SubAgentKind::LlmSession {
                                    model: model.clone(),
                                    goal: goal.clone(),
                                },
                                3 + kc + n,
                            ),
                        ),
                        _ => None,
                    }
                },
                None => None,
            }
        },
        None => {
            match parse_key_at(s, s_len, pos + 1, "BackgroundProcess") {
                Some(kc) => {
                    if !(pos + 1 + kc < s_len && s.get_char(pos + 1 + kc) == '{') {
                        proof {
                            if 1 + kc < tail.len() {
                                assert(tail[1 + kc] == s@[pos + 1 + kc]);
                            }
                        }
                        return None;
                    }
                    proof {
                        assert(tail[1 + kc] == '{');
                        assert(tail.skip(2 + kc) =~= s@.skip(pos + 2 + kc));
                    }
                    match crate::json::parse_members_at(s, s_len, pos + 2 + kc) {
                        Some((ms, n)) => {
                            if ms.len() != 1 {
                                return None;
                            }
                            proof {
                                assert(assoc_view(ms@)[0] == (ms@[0].0@, ms@[0].1@));
                            }
                            if !crate::strutil::str_eq(ms[0].0.as_str(), "command") {
                                return None;
                            }
                            if !(pos + 2 + kc + n < s_len && s.get_char(pos + 2 + kc + n) == '}') {
                                proof {
                                    if 2 + kc + n < tail.len() {
                                        assert(tail[2 + kc + n] == s@[pos + 2 + kc + n]);
                                    }
                                }
                                return None;
                            }
                            proof {
                                assert(tail[2 + kc + n] == '}');
                            }
                            match &ms[0].1 {
                                JVal::JStr(command) => Some(
                                    (
                                        SubAgentKind::BackgroundProcess {
                                            command: command.clone(),
                                        },
                                        3 + kc + n,
                                    ),
                                ),
                                _ => None,
                            }
                        },
                        None => None,
                    }
                },
                None => None,
            }
        },
    }
}

/// Parse a serialized info snapshot. Accepts exactly what
/// [`SubAgentInfo::to_json`] emits.
pub fn info_from_json(s: &str) -> (r: Option<SubAgentInfo>)
    ensures
        (r is Some) == (sp_parse_info(s@) is Some),
        r matches Some(info) ==> sp_parse_info(s@) == Some(info_view(info)),
{
    proof {
        reveal(sp_parse_info);
        reveal_strlit("id");
    }
    let s_len = s.unicode_len();
    if s_len == 0 || s.get_char(0) != '{' {
        proof {
            assert(s@.skip(0) =~= s@);
        }
        return None;
    }
    proof {
        assert(s@.skip(0) =~= s@);
        assert(s@.skip(1) =~= s@.skip(0).skip(1));
    }
    let k1 = match parse_key_at(s, s_len, 1, "id") {
        Some(k) => k,
        None => {
            return None;
        },
    };
    let (id, n1) = match parse_str_at(s, s_len, 1 + k1) {
        Some(v) => v,
        None => {
            return None;
        },
    };
    let p2 = 1 + k1 + n1;
    if !(p2 < s_len && s.get_char(p2) == ',') {
        proof {
            if (p2 as int) < s@.len() {
                assert(s@[p2 as int] == s@.skip(0)[p2 as int]);
            }
        }
        return None;
    }
    parse_info_after_id(s, s_len, p2 + 1, id)
}

/// The kind and parent fields; mirror of [`sp_info_after_id`].
fn parse_info_after_id(s: &str, s_len: usize, p: usize, id: String) -> (r: Option<SubAgentInfo>)
    requires
        s_len == s@.len(),
        p <= s_len,
    ensures
        (r is Some) == (sp_info_after_id(s@, p as int, id@) is Some),
        r matches Some(info) ==> sp_info_after_id(s@, p as int, id@) == Some(info_view(info)),
{
    proof {
        reveal(sp_info_after_id);
        reveal_strlit("kind");
        reveal_strlit("parent_id");
    }
    let k2 = match parse_key_at(s, s_len, p, "kind") {
        Some(k) => k,
        None => {
            return None;
        },
    };
    let (kind, n2) = match parse_kind_at(s, s_len, p + k2) {
        Some(v) => v,
        None => {
            return None;
        },
    };
    let p3 = p + k2 + n2;
    if !(p3 < s_len && s.get_char(p3) == ',') {
        return None;
    }
    let k3 = match parse_key_at(s, s_len, p3 + 1, "parent_id") {
        Some(k) => k,
        None => {
            return None;
        },
    };
    let (parent_id, n3) = match parse_opt_str_at(s, s_len, p3 + 1 + k3) {
        Some(v) => v,
        None => {
            return None;
        },
    };
    let p4 = p3 + 1 + k3 + n3;
    if !(p4 < s_len && s.get_char(p4) == ',') {
        return None;
    }
    parse_info_tail(s, s_len, p4 + 1, id, kind, parent_id)
}

/// The status and depth fields; mirror of [`sp_parse_info_tail`].
fn parse_info_tail(
    s: &str,
    s_len: usize,
    p: usize,
    id: String,
    kind: SubAgentKind,
    parent_id: Option<String>,
) -> (r: Option<SubAgentInfo>)
    requires
        s_len == s@.len(),
        p <= s_len,
    ensures
        ({
            let sp = sp_parse_info_tail(
                s@,
                p as int,
                id@,
                kind_view(kind),
                match parent_id {
                    Some(q) => Some(q@),
                    None => None,
                },
            );
            &&& (r is Some) == (sp is Some)
            &&& (r matches Some(info) ==> sp == Some(info_view(info)))
        }),
{
    proof {
        reveal(sp_parse_info_tail);
        reveal_strlit("status");
        reveal_strlit("depth");
    }
    let k4 = match parse_key_at(s, s_len, p, "status") {
        Some(k) => k,
        None => {
            return None;
        },
    };
    let (status, n4) = match parse_status_at(s, s_len, p + k4) {
        Some(v) => v,
        None => {
            return None;
        },
    };
    let p5 = p + k4 + n4;
    if !(p5 < s_len && s.get_char(p5) == ',') {
        return None;
    }
    let k5 = match parse_key_at(s, s_len, p5 + 1, "depth") {
        Some(k) => k,
        None => {
            return None;
        },
    };
    let (depth_u64, n5) = match crate::json::parse_u64_at(s, s_len, p5 + 1 + k5) {
        Some(v) => v,
        None => {
            return None;
        },
    };
    if depth_u64 > usize::MAX as u64 {
        return None;
    }
    let depth = depth_u64 as usize;
    let p6 = p5 + 1 + k5 + n5;
    if !(p6 < s_len && s.get_char(p6) == ',') {
        return None;
    }
    parse_info_after_depth(s, s_len, p6 + 1, id, kind, parent_id, status, depth)
}

/// The timestamp fields and the closing brace; mirror of
/// [`sp_info_after_depth`].
fn parse_info_after_depth(
    s: &str,
    s_len: usize,
    p: usize,
    id: String,
    kind: SubAgentKind,
    parent_id: Option<String>,
    status: SubAgentStatus,
    depth: usize,
) -> (r: Option<SubAgentInfo>)
    requires
        s_len == s@.len(),
        p <= s_len,
    ensures
        ({
            let sp = sp_info_after_depth(
                s@,
                p as int,
                id@,
                kind_view(kind),
                match parent_id {
                    Some(q) => Some(q@),
                    None => None,
                },
                status_view(status),
                depth as int,
            );
            &&& (r is Some) == (sp is Some)
            &&& (r matches Some(info) ==> sp == Some(info_view(info)))
        }),
{
    proof {
        reveal(sp_info_after_depth);
        reveal_strlit("spawned_at");
        reveal_strlit("completed_at");
    }
    let k6 = match parse_key_at(s, s_len, p, "spawned_at") {
        Some(k) => k,
        None => {
            return None;
        },
    };
    let (spawned_at, n6) = match parse_str_at(s, s_len, p + k6) {
        Some(v) => v,
        None => {
            return None;
        },
    };
    let p7 = p + k6 + n6;
    if !(p7 < s_len && s.get_char(p7) == ',') {
        return None;
    }
    let k7 = match parse_key_at(s, s_len, p7 + 1, "completed_at") {
        Some(k) => k,
        None => {
            return None;
        },
    };
    let (completed_at, n7) = match parse_opt_str_at(s, s_len, p7 + 1 + k7) {
        Some(v) => v,
        None => {
            return None;
        },
    };
    let p8 = p7 + 1 + k7 + n7;
    if p8 < s_len && p8 == s_len - 1 && s.get_char(p8) == '}' {
        Some(SubAgentInfo { id, kind, parent_id, status, depth, spawned_at, completed_at })
    } else {
        None
    }
}

// ---------------------------------------------------------------------------
// Round-trip laws for the snapshot tokens
// ---------------------------------------------------------------------------

/// A rendered string token parses back, whatever follows it.
proof fn lemma_str_at(t: Seq<char>, rest: Seq<char>)
    ensures
        sp_str_at(json_string(t) + rest) == Some::<(Seq<char>, int)>(
            (t, json_string(t).len() as int),
        ),
{
    let s = json_string(t) + rest;
    assert(s[0] == '"');
    assert(s.skip(1) =~= esc_seq(t) + seq!['"'] + rest);
    lemma_string_roundtrip(t, rest);
}

/// A rendered `"key":` token parses back, whatever follows it.
proof fn lemma_key_at(key: Seq<char>, rest: Seq<char>)
    ensures
        sp_key_at(json_string(key) + seq![':'] + rest, key) == Some(
            json_string(key).len() as int + 1,
        ),
{
    let s = json_string(key) + seq![':'] + rest;
    assert(json_string(key) + (seq![':'] + rest) =~= s);
    lemma_str_at(key, seq![':'] + rest);
    assert(sp_str_at(s) == Some::<(Seq<char>, int)>((key, json_string(key).len() as int)));
    assert(s[json_string(key).len() as int] == ':');
}

/// A rendered optional string parses back, whatever follows it.
proof fn lemma_opt_str_at(v: Option<String>, rest: Seq<char>)
    ensures
        sp_opt_str_at(opt_str_json(v) + rest) matches Some(sp) && sp.1 == opt_str_json(
            v,
        ).len() as int && sp.0 == (match v {
            Some(t) => Some(t@),
            None => None::<Seq<char>>,
        }),
{
    reveal(opt_str_json);
    let s = opt_str_json(v) + rest;
    match v {
        Some(t) => {
            assert(s[0] == '"');
            assert(!(s.len() >= 4 && s.subrange(0, 4) == seq!['n', 'u', 'l', 'l'])) by {
                if s.len() >= 4 {
                    assert(s.subrange(0, 4)[0] == '"');
                }
            }
            assert(opt_str_json(v) =~= json_string(t@));
            assert(json_string(t@) + rest =~= s);
            lemma_str_at(t@, rest);
        },
        None => {
            assert(opt_str_json(v) =~= seq!['n', 'u', 'l', 'l']);
            assert(s.subrange(0, 4) =~= seq!['n', 'u', 'l', 'l']);
        },
    }
}

/// A rendered status token parses back, whatever follows it.
proof fn lemma_status_at(v: StatusView, rest: Seq<char>)
    ensures
        sp_status_at(status_json_spec(v) + rest) == Some::<(StatusView, int)>(
            (v, status_json_spec(v).len() as int),
        ),
{
    reveal(status_json_spec);
    reveal_strlit("Running");
    reveal_strlit("Completed");
    reveal_strlit("Killed");
    reveal_strlit("Failed");
    let s = status_json_spec(v) + rest;
    match v {
        StatusView::VFailed(m) => {
            let ms = seq![("Failed"@, SpecJson::SStr(m))];
            assert(members_ok(ms)) by {
                assert(ms[0].1 is SStr);
            }
            assert(status_json_spec(v) =~= seq!['{'] + members_json(ms));
            assert(s[0] == '{');
            assert(('{' as u32) != ('"' as u32));
            assert(s.skip(1) =~= members_json(ms) + rest);
            lemma_members_roundtrip(ms, rest);
        },
        _ => {
            let name: Seq<char> = match v {
                StatusView::VRunning => "Running"@,
                StatusView::VCompleted => "Completed"@,
                StatusView::VKilled => "Killed"@,
                StatusView::VFailed(m) => m,
            };
            assert(status_json_spec(v) == json_string(name));
            assert(s[0] == '"');
            assert(s.skip(1) =~= esc_seq(name) + seq!['"'] + rest);
            lemma_string_roundtrip(name, rest);
            assert("Running"@ != "Completed"@) by {
                assert("Running"@.len() == 7 && "Completed"@.len() == 9);
            }
            assert("Running"@ != "Killed"@) by {
                assert("Running"@[0] == 'R' && "Killed"@[0] == 'K');
            }
            assert("Completed"@ != "Killed"@) by {
                assert("Completed"@.len() == 9 && "Killed"@.len() == 6);
            }
        },
    }
}

/// A rendered kind token parses back, whatever follows it.
#[verifier::rlimit(100)]
proof fn lemma_kind_at(k: SubAgentKind, rest: Seq<char>)
    ensures
        sp_kind_at(kind_json_spec(k) + rest) == Some::<(KindView, int)>(
            (kind_view(k), kind_json_spec(k).len() as int),
        ),
{
    reveal(kind_json_spec);
    reveal_strlit("LlmSession");
    reveal_strlit("BackgroundProcess");
    reveal_strlit("model");
    reveal_strlit("goal");
    reveal_strlit("command");
    let s = kind_json_spec(k) + rest;
    assert(s[0] == '{');
    match k {
        SubAgentKind::LlmSession { model, goal } => {
            let name = "LlmSession"@;
            let ms = seq![("model"@, SpecJson::SStr(model@)), ("goal"@, SpecJson::SStr(goal@))];
            assert(members_ok(ms)) by {
                assert(ms[0].1 is SStr && ms[1].1 is SStr);
            }
            let inner = object_json(ms);
            assert(inner =~= seq!['{'] + members_json(ms));
            assert(kind_json_spec(k) =~= seq!['{'] + json_string(name) + seq![':'] + inner
                + seq!['}']);
            let body = json_string(name) + seq![':'] + (inner + seq!['}'] + rest);
            assert(s.skip(1) =~= body);
            lemma_key_at(name, inner + seq!['}'] + rest);
            let kc = json_string(name).len() as int + 1;
            assert(sp_key_at(s.skip(1), name) == Some(kc));
            assert(s.skip(1)[kc] == '{') by {
                assert(body[kc] == (inner + seq!['}'] + rest)[0]);
            }
            assert(s[1 + kc] == s.skip(1)[kc]);
            assert(s.skip(2 + kc) =~= members_json(ms) + (seq!['}'] + rest));
            lemma_members_roundtrip(ms, seq!['}'] + rest);
            let n = members_json(ms).len() as int;
            assert(s[2 + kc + n] == '}') by {
                assert(s.skip(2 + kc)[n] == (seq!['}'] + rest)[0]);
            }
            assert(kind_json_spec(k).len() == 3 + kc + n);
        },
        SubAgentKind::BackgroundProcess { command } => {
            let name = "BackgroundProcess"@;
            let ms = seq![("command"@, SpecJson::SStr(command@))];
            assert(members_ok(ms)) by {
                assert(ms[0].1 is SStr);
            }
            let inner = object_json(ms);
            assert(inner =~= seq!['{'] + members_json(ms));
            assert(kind_json_spec(k) =~= seq!['{'] + json_string(name) + seq![':'] + inner
                + seq!['}']);
            let body = json_string(name) + seq![':'] + (inner + seq!['}'] + rest);
            assert(s.skip(1) =~= body);
            // The first key attempt does not match: the stored key differs.
            assert(sp_key_at(s.skip(1), "LlmSession"@) is None) by {
                lemma_str_at(name, seq![':'] + (inner + seq!['}'] + rest));
                assert(json_string(name) + (seq![':'] + (inner + seq!['}'] + rest)) =~= s.skip(
                    1,
                ));
                assert(sp_str_at(s.skip(1)) == Some::<(Seq<char>, int)>(
                    (name, json_string(name).len() as int),
                ));
                assert(name != "LlmSession"@) by {
                    assert(name.len() == 17 && "LlmSession"@.len() == 10);
                }
            }
            lemma_key_at(name, inner + seq!['}'] + rest);
            let kc = json_string(name).len() as int + 1;
            assert(sp_key_at(s.skip(1), name) == Some(kc));
            assert(s.skip(1)[kc] == '{') by {
                assert(body[kc] == (inner + seq!['}'] + rest)[0]);
            }
            assert(s[1 + kc] == s.skip(1)[kc]);
            assert(s.skip(2 + kc) =~= members_json(ms) + (seq!['}'] + rest));
            lemma_members_roundtrip(ms, seq!['}'] + rest);
            let n = members_json(ms).len() as int;
            assert(s[2 + kc + n] == '}') by {
                assert(s.skip(2 + kc)[n] == (seq!['}'] + rest)[0]);
            }
            assert(kind_json_spec(k).len() == 3 + kc + n);
        },
    }
}


/// The rendered segments of an info snapshot, splitting [`info_json_spec`]
/// at the same points as the parser.
#[verifier::opaque]
pub open spec fn info_seg1(info: SubAgentInfo) -> Seq<char> {
    seq!['{'] + json_string("id"@) + seq![':'] + json_string(info.id@) + seq![',']
}

#[verifier::opaque]
pub open spec fn info_seg2(info: SubAgentInfo) -> Seq<char> {
    json_string("kind"@) + seq![':'] + kind_json_spec(info.kind) + seq![','] + json_string(
        "parent_id"@,
    ) + seq![':'] + opt_str_json(info.parent_id) + seq![',']
}

#[verifier::opaque]
pub open spec fn info_seg3(info: SubAgentInfo) -> Seq<char> {
    json_string("status"@) + seq![':'] + status_json_spec(status_view(info.status)) + seq![',']
        + json_string("depth"@) + seq![':'] + dec_digits(info.depth as nat) + seq![',']
}

#[verifier::opaque]
pub open spec fn info_seg4(info: SubAgentInfo) -> Seq<char> {
    json_string("spawned_at"@) + seq![':'] + json_string(info.spawned_at@) + seq![',']
        + json_string("completed_at"@) + seq![':'] + opt_str_json(info.completed_at) + seq!['}']
}

/// The rendering is exactly the four segments in order.
#[verifier::rlimit(100)]
proof fn lemma_info_segments(info: SubAgentInfo)
    ensures
        info_json_spec(info) == info_seg1(info) + info_seg2(info) + info_seg3(info) + info_seg4(
            info,
        ),
{
    reveal(info_json_spec);
    reveal(info_seg1);
    reveal(info_seg2);
    reveal(info_seg3);
    reveal(info_seg4);
    assert(info_json_spec(info) =~= info_seg1(info) + info_seg2(info) + info_seg3(info)
        + info_seg4(info));
}

/// Consuming a leading token: when the tail at `p` is `x` followed by `y`,
/// the tail at `p + x.len()` is `y`, whose head is the next character.
proof fn lemma_consume(s: Seq<char>, p: int, x: Seq<char>, y: Seq<char>)
    requires
        0 <= p <= s.len(),
        s.skip(p) == x + y,
    ensures
        p + x.len() + y.len() == s.len(),
        s.skip(p + x.len() as int) == y,
        y.len() > 0 ==> s[p + x.len() as int] == y[0],
{
    assert(s.skip(p).len() == x.len() + y.len());
    assert forall|i: int| 0 <= i < y.len() implies s.skip(p + x.len() as int)[i] == y[i] by {
        assert(s.skip(p)[x.len() + i] == (x + y)[x.len() + i]);
        assert((x + y)[x.len() + i] == y[i]);
        assert(s.skip(p)[x.len() + i] == s[p + x.len() + i]);
        assert(s.skip(p + x.len() as int)[i] == s[p + x.len() + i]);
    }
    assert(s.skip(p + x.len() as int) =~= y);
    if y.len() > 0 {
        assert(s.skip(p)[x.len() as int] == (x + y)[x.len() as int]);
        assert(s[p + x.len() as int] == s.skip(p)[x.len() as int]);
    }
}

/// The timestamp segment parses back when it closes the input.
#[verifier::rlimit(100)]
proof fn lemma_seg4(
    s: Seq<char>,
    p: int,
    info: SubAgentInfo,
    idv: Seq<char>,
    kindv: KindView,
    pidv: Option<Seq<char>>,
    stv: StatusView,
    depthv: int,
)
    requires
        0 <= p,
        s.len() == p + info_seg4(info).len(),
        s.skip(p) == info_seg4(info),
    ensures
        sp_info_after_depth(s, p, idv, kindv, pidv, stv, depthv) == Some(
            InfoView {
                id: idv,
                kind: kindv,
                parent_id: pidv,
                status: stv,
                depth: depthv,
                spawned_at: info.spawned_at@,
                completed_at: match info.completed_at {
                    Some(c) => Some(c@),
                    None => None,
                },
            },
        ),
{
    reveal(sp_info_after_depth);
    reveal(info_seg4);
    let rest1 = json_string(info.spawned_at@) + seq![','] + json_string("completed_at"@)
        + seq![':'] + opt_str_json(info.completed_at) + seq!['}'];
    assert(s.skip(p) == json_string("spawned_at"@) + seq![':'] + rest1) by {
        assert(info_seg4(info) =~= json_string("spawned_at"@) + seq![':'] + rest1);
    }
    lemma_key_at("spawned_at"@, rest1);
    let k6 = json_string("spawned_at"@).len() as int + 1;
    assert(sp_key_at(s.skip(p), "spawned_at"@) == Some(k6));
    assert(s.skip(p + k6) == rest1) by {
        assert(s.skip(p + k6) =~= s.skip(p).skip(k6));
        assert((json_string("spawned_at"@) + seq![':'] + rest1).skip(k6) =~= rest1);
    }
    let rest2 = seq![','] + json_string("completed_at"@) + seq![':'] + opt_str_json(
        info.completed_at,
    ) + seq!['}'];
    assert(s.skip(p + k6) == json_string(info.spawned_at@) + rest2) by {
        assert(rest1 =~= json_string(info.spawned_at@) + rest2);
    }
    lemma_str_at(info.spawned_at@, rest2);
    let n6 = json_string(info.spawned_at@).len() as int;
    assert(sp_str_at(s.skip(p + k6)) == Some::<(Seq<char>, int)>((info.spawned_at@, n6)));
    let p7 = p + k6 + n6;
    assert(s[p7] == ',') by {
        assert(s.skip(p + k6)[n6] == rest2[0]);
    }
    let rest3 = opt_str_json(info.completed_at) + seq!['}'];
    assert(s.skip(p7 + 1) == json_string("completed_at"@) + seq![':'] + rest3) by {
        assert(s.skip(p7 + 1) =~= s.skip(p + k6).skip(n6 + 1));
        assert((json_string(info.spawned_at@) + rest2).skip(n6 + 1) =~= json_string(
            "completed_at"@,
        ) + seq![':'] + rest3);
    }
    lemma_key_at("completed_at"@, rest3);
    let k7 = json_string("completed_at"@).len() as int + 1;
    assert(sp_key_at(s.skip(p7 + 1), "completed_at"@) == Some(k7));
    assert(s.skip(p7 + 1 + k7) == opt_str_json(info.completed_at) + seq!['}']) by {
        assert(s.skip(p7 + 1 + k7) =~= s.skip(p7 + 1).skip(k7));
        assert((json_string("completed_at"@) + seq![':'] + rest3).skip(k7) =~= rest3);
    }
    lemma_opt_str_at(info.completed_at, seq!['}']);
    let n7 = opt_str_json(info.completed_at).len() as int;
    let p8 = p7 + 1 + k7 + n7;
    assert(s[p8] == '}') by {
        assert(s.skip(p7 + 1 + k7)[n7] == seq!['}'][0]);
    }
    assert(p8 == s.len() - 1);
}

/// The status and depth segment parses back and chains into the timestamps.
#[verifier::rlimit(100)]
#[verifier::spinoff_prover]
proof fn lemma_seg3(
    s: Seq<char>,
    p: int,
    info: SubAgentInfo,
    idv: Seq<char>,
    kindv: KindView,
    pidv: Option<Seq<char>>,
)
    requires
        0 <= p,
        s.len() == p + info_seg3(info).len() + info_seg4(info).len(),
        s.skip(p) == info_seg3(info) + info_seg4(info),
        (info.depth as int) < crate::json::pow10(19),
    ensures
        sp_parse_info_tail(s, p, idv, kindv, pidv) == Some(
            InfoView {
                id: idv,
                kind: kindv,
                parent_id: pidv,
                status: status_view(info.status),
                depth: info.depth as int,
                spawned_at: info.spawned_at@,
                completed_at: match info.completed_at {
                    Some(c) => Some(c@),
                    None => None,
                },
            },
        ),
{
    reveal(sp_parse_info_tail);
    let sj = status_json_spec(status_view(info.status));
    let dd = dec_digits(info.depth as nat);
    let r4 = info_seg4(info);
    let x1 = json_string("status"@) + seq![':'];
    let x2 = json_string("depth"@) + seq![':'];
    let y5 = seq![','] + r4;
    let y4 = dd + y5;
    let y3 = json_string("depth"@) + seq![':'] + y4;
    let y2 = seq![','] + y3;
    let y1 = sj + y2;
    assert(s.skip(p) == x1 + y1) by {
        reveal(info_seg3);
        assert(info_seg3(info) + info_seg4(info) =~= x1 + y1);
    }
    assert(p <= s.len()) by {
        assert(s.skip(p).len() == (x1 + y1).len());
    }
    lemma_key_at("status"@, y1);
    let k4 = json_string("status"@).len() as int + 1;
    assert(sp_key_at(s.skip(p), "status"@) == Some(k4));
    lemma_consume(s, p, x1, y1);
    lemma_status_at(status_view(info.status), y2);
    let n4 = sj.len() as int;
    assert(sp_status_at(s.skip(p + k4)) == Some::<(StatusView, int)>(
        (status_view(info.status), n4),
    ));
    let p5 = p + k4 + n4;
    lemma_consume(s, p + k4, sj, y2);
    assert(s[p5] == ',');
    lemma_consume(s, p5, seq![','], y3);
    lemma_key_at("depth"@, y4);
    let k5 = json_string("depth"@).len() as int + 1;
    assert(sp_key_at(s.skip(p5 + 1), "depth"@) == Some(k5));
    lemma_consume(s, p5 + 1, x2, y4);
    assert((info.depth as u64) as nat == info.depth as nat);
    assert(y5.len() > 0 && !is_dec_digit(y5[0])) by {
        assert((',' as u32) == 44);
    }
    crate::json::lemma_u64_roundtrip(info.depth as u64, y5);
    let n5 = dd.len() as int;
    assert(sp_u64(s.skip(p5 + 1 + k5)) == Some::<(int, int)>((info.depth as int, n5)));
    let p6 = p5 + 1 + k5 + n5;
    lemma_consume(s, p5 + 1 + k5, dd, y5);
    assert(s[p6] == ',');
    lemma_consume(s, p6, seq![','], r4);
    lemma_seg4(s, p6 + 1, info, idv, kindv, pidv, status_view(info.status), info.depth as int);
}

/// The kind and parent segment parses back and chains into the rest.
#[verifier::rlimit(100)]
#[verifier::spinoff_prover]
proof fn lemma_seg2(s: Seq<char>, p: int, info: SubAgentInfo, idv: Seq<char>)
    requires
        0 <= p,
        s.len() == p + info_seg2(info).len() + info_seg3(info).len() + info_seg4(info).len(),
        s.skip(p) == info_seg2(info) + info_seg3(info) + info_seg4(info),
        (info.depth as int) < crate::json::pow10(19),
    ensures
        sp_info_after_id(s, p, idv) == Some(
            InfoView {
                id: idv,
                kind: kind_view(info.kind),
                parent_id: match info.parent_id {
                    Some(q) => Some(q@),
                    None => None,
                },
                status: status_view(info.status),
                depth: info.depth as int,
                spawned_at: info.spawned_at@,
                completed_at: match info.completed_at {
                    Some(c) => Some(c@),
                    None => None,
                },
            },
        ),
{
    reveal(sp_info_after_id);
    reveal(info_seg2);
    let kj = kind_json_spec(info.kind);
    let tail34 = info_seg3(info) + info_seg4(info);
    let rest1 = kj + seq![','] + json_string("parent_id"@) + seq![':'] + opt_str_json(
        info.parent_id,
    ) + seq![','] + tail34;
    assert(s.skip(p) == json_string("kind"@) + seq![':'] + rest1) by {
        assert(info_seg2(info) + info_seg3(info) + info_seg4(info) =~= json_string("kind"@)
            + seq![':'] + rest1);
    }
    lemma_key_at("kind"@, rest1);
    let k2 = json_string("kind"@).len() as int + 1;
    assert(sp_key_at(s.skip(p), "kind"@) == Some(k2));
    let rest2 = seq![','] + json_string("parent_id"@) + seq![':'] + opt_str_json(info.parent_id)
        + seq![','] + tail34;
    assert(s.skip(p + k2) == kj + rest2) by {
        assert(s.skip(p + k2) =~= s.skip(p).skip(k2));
        assert((json_string("kind"@) + seq![':'] + rest1).skip(k2) =~= kj + rest2);
    }
    lemma_kind_at(info.kind, rest2);
    let n2 = kj.len() as int;
    let p3 = p + k2 + n2;
    assert(s[p3] == ',') by {
        assert(s.skip(p + k2)[n2] == rest2[0]);
    }
    let rest3 = opt_str_json(info.parent_id) + seq![','] + tail34;
    assert(s.skip(p3 + 1) == json_string("parent_id"@) + seq![':'] + rest3) by {
        assert(s.skip(p3 + 1) =~= s.skip(p + k2).skip(n2 + 1));
        assert((kj + rest2).skip(n2 + 1) =~= json_string("parent_id"@) + seq![':'] + rest3);
    }
    lemma_key_at("parent_id"@, rest3);
    let k3 = json_string("parent_id"@).len() as int + 1;
    assert(sp_key_at(s.skip(p3 + 1), "parent_id"@) == Some(k3));
    let rest4 = seq![','] + tail34;
    assert(s.skip(p3 + 1 + k3) == opt_str_json(info.parent_id) + rest4) by {
        assert(s.skip(p3 + 1 + k3) =~= s.skip(p3 + 1).skip(k3));
        assert((json_string("parent_id"@) + seq![':'] + rest3).skip(k3) =~= opt_str_json(
            info.parent_id,
        ) + rest4);
    }
    lemma_opt_str_at(info.parent_id, rest4);
    let n3 = opt_str_json(info.parent_id).len() as int;
    let p4 = p3 + 1 + k3 + n3;
    assert(s[p4] == ',') by {
        assert(s.skip(p3 + 1 + k3)[n3] == rest4[0]);
    }
    assert(s.skip(p4 + 1) == tail34) by {
        assert(s.skip(p4 + 1) =~= s.skip(p3 + 1 + k3).skip(n3 + 1));
        assert((opt_str_json(info.parent_id) + rest4).skip(n3 + 1) =~= tail34);
    }
    lemma_seg3(
        s,
        p4 + 1,
        info,
        idv,
        kind_view(info.kind),
        match info.parent_id {
            Some(q) => Some(q@),
            None => None,
        },
    );
}

/// Law: the JSON form of an info snapshot is round-trip stable — parsing
/// the serialization recovers every field: id, kind, parent, status with
/// its failure message, depth, and both timestamps. Depths are bounded to
/// nineteen decimal digits, far above what the registry's bounds admit.
#[verifier::rlimit(100)]
#[verifier::spinoff_prover]
pub proof fn lemma_info_roundtrip(info: SubAgentInfo)
    requires
        (info.depth as int) < crate::json::pow10(19),
    ensures
        sp_parse_info(info_json_spec(info)) == Some(info_view(info)),
{
    reveal(sp_parse_info);
    let s = info_json_spec(info);
    lemma_info_segments(info);
    let y3 = info_seg2(info) + info_seg3(info) + info_seg4(info);
    let y2 = seq![','] + y3;
    let y1 = json_string(info.id@) + y2;
    let x1 = json_string("id"@) + seq![':'];
    assert(s[0] == '{' && s.skip(1) == x1 + y1 && s.len() == 1 + x1.len() + y1.len()) by {
        reveal(info_seg1);
        assert(s =~= seq!['{'] + (x1 + y1));
        assert(s.skip(1) =~= x1 + y1);
    }
    lemma_key_at("id"@, y1);
    let k1 = json_string("id"@).len() as int + 1;
    assert(sp_key_at(s.skip(1), "id"@) == Some(k1));
    lemma_consume(s, 1, x1, y1);
    lemma_str_at(info.id@, y2);
    let n1 = json_string(info.id@).len() as int;
    assert(sp_str_at(s.skip(1 + k1)) == Some::<(Seq<char>, int)>((info.id@, n1)));
    let p2 = 1 + k1 + n1;
    lemma_consume(s, 1 + k1, json_string(info.id@), y2);
    assert(s[p2] == ',');
    lemma_consume(s, p2, seq![','], y3);
    lemma_seg2(s, p2 + 1, info, info.id@);
    assert(sp_info_after_id(s, p2 + 1, info.id@) == Some(info_view(info)));
}

} // verus!

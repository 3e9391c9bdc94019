//! Results of shell command execution, their JSON form, and the safety
//! layer's decision on a blocked command.
//!
//! Every execution yields an [`ExecResult`]: either the process exited in
//! time and carries a numeric exit code, or the timeout fired and the result
//! says so with no exit code. A blocked command is never executed; it yields
//! a structured result whose stderr holds the blocked-command record, so the
//! model can observe the block and react.

use vstd::prelude::*;

use crate::json::JVal;
use crate::json::SpecJson;
use crate::json::assoc_view;
use crate::json::members_ok;
use crate::json::object_json;
use crate::json::parse_flat_object;
use crate::json::push_object;
use crate::json::sp_flat_object;
use crate::json::lemma_object_roundtrip;

verus! {

/// Result of one shell command execution.
pub struct ExecResult {
    pub stdout: String,
    pub stderr: String,
    pub exit_code: Option<i32>,
    pub timed_out: bool,
}

/// A record of a blocked command, serialized into the result's stderr.
pub struct BlockedCommand {
    pub blocked: bool,
    pub reason: String,
    pub command: String,
}

impl ExecResult {
    /// A result either carries a numeric exit code or reports a timeout
    /// with none — never both, never neither.
    pub open spec fn valid(self) -> bool {
        self.timed_out <==> (self.exit_code is None)
    }

    /// The members of this result's JSON object, in declaration order.
    pub open spec fn spec_pairs(self) -> Seq<(Seq<char>, SpecJson)> {
        seq![
            ("stdout"@, SpecJson::SStr(self.stdout@)),
            ("stderr"@, SpecJson::SStr(self.stderr@)),
            (
                "exit_code"@,
                match self.exit_code {
                    Some(c) => SpecJson::SInt(c as int),
                    None => SpecJson::SNull,
                },
            ),
            ("timed_out"@, SpecJson::SBool(self.timed_out)),
        ]
    }

    /// The JSON rendering of this result.
    pub open spec fn spec_json(self) -> Seq<char> {
        object_json(self.spec_pairs())
    }

    /// A result for a process that exited in time.
    pub fn from_exit(stdout: String, stderr: String, exit_code: i32) -> (r: ExecResult)
        ensures
            r.valid(),
            !r.timed_out,
            r.exit_code == Some(exit_code),
            r.stdout@ == stdout@,
            r.stderr@ == stderr@,
    {
        ExecResult { stdout, stderr, exit_code: Some(exit_code), timed_out: false }
    }

    /// A result for a command whose wall-clock timeout fired: the partial
    /// output is kept, the exit code is gone.
    pub fn from_timeout(partial_stdout: String, partial_stderr: String) -> (r: ExecResult)
        ensures
            r.valid(),
            r.timed_out,
            r.exit_code is None,
            r.stdout@ == partial_stdout@,
            r.stderr@ == partial_stderr@,
    {
        ExecResult { stdout: partial_stdout, stderr: partial_stderr, exit_code: None, timed_out: true }
    }

    /// Serialize this result to its JSON object.
    pub fn to_json(&self) -> (r: String)
        ensures
            r@ == self.spec_json(),
    {
        let mut pairs: Vec<(String, JVal)> = Vec::new();
        pairs.push(("stdout".to_owned(), JVal::JStr(self.stdout.clone())));
        pairs.push(("stderr".to_owned(), JVal::JStr(self.stderr.clone())));
        let code_val: JVal = match self.exit_code {
            Some(c) => JVal::JInt(c as i64),
            None => JVal::JNull,
        };
        pairs.push(("exit_code".to_owned(), code_val));
        pairs.push(("timed_out".to_owned(), JVal::JBool(self.timed_out)));
        let mut out = String::new();
        proof {
            assert(assoc_view(pairs@) =~= self.spec_pairs());
        }
        push_object(&mut out, &pairs);
        out
    }
}

/// What the strict parser reads back from a serialized result: the views of
/// stdout and stderr, the exit code, and the timeout flag.
pub open spec fn sp_parse_exec_result(s: Seq<char>) -> Option<
    (Seq<char>, Seq<char>, Option<int>, bool),
> {
    match sp_flat_object(s) {
        None => None,
        Some(ms) => {
            if ms.len() == 4 && ms[0].0 == "stdout"@ && ms[1].0 == "stderr"@ && ms[2].0
                == "exit_code"@ && ms[3].0 == "timed_out"@ && (ms[0].1 is SStr) && (ms[1].1
                is SStr) && ((ms[2].1 matches SpecJson::SInt(c) && i32::MIN <= c <= i32::MAX)
                || ms[2].1 is SNull) && (ms[3].1 is SBool) {
                Some(
                    (
                        ms[0].1->SStr_0,
                        ms[1].1->SStr_0,
                        match ms[2].1 {
                            SpecJson::SInt(c) => Some(c),
                            _ => None,
                        },
                        ms[3].1->SBool_0,
                    ),
                )
            } else {
                None
            }
        },
    }
}

/// Parse a serialized [`ExecResult`]. Accepts exactly what [`ExecResult::to_json`]
/// emits.
pub fn exec_result_from_json(s: &str) -> (r: Option<ExecResult>)
    ensures
        (r is Some) == (sp_parse_exec_result(s@) is Some),
        r matches Some(er) ==> sp_parse_exec_result(s@) matches Some(sp) && er.stdout@ == sp.0
            && er.stderr@ == sp.1 && (match er.exit_code {
            Some(c) => sp.2 == Some(c as int),
            None => sp.2 is None,
        }) && er.timed_out == sp.3,
{
    proof {
        reveal_strlit("stdout");
        reveal_strlit("stderr");
        reveal_strlit("exit_code");
        reveal_strlit("timed_out");
    }
    let ms = match parse_flat_object(s) {
        None => {
            return None;
        },
        Some(ms) => ms,
    };
    if ms.len() != 4 {
        return None;
    }
    let ok_keys = crate::strutil::str_eq(ms[0].0.as_str(), "stdout") && crate::strutil::str_eq(
        ms[1].0.as_str(),
        "stderr",
    ) && crate::strutil::str_eq(ms[2].0.as_str(), "exit_code") && crate::strutil::str_eq(
        ms[3].0.as_str(),
        "timed_out",
    );
    if !ok_keys {
        return None;
    }
    proof {
        assert(assoc_view(ms@)[0] == (ms@[0].0@, ms@[0].1@));
        assert(assoc_view(ms@)[1] == (ms@[1].0@, ms@[1].1@));
        assert(assoc_view(ms@)[2] == (ms@[2].0@, ms@[2].1@));
        assert(assoc_view(ms@)[3] == (ms@[3].0@, ms@[3].1@));
    }
    let stdout: String = match &ms[0].1 {
        JVal::JStr(t) => t.clone(),
        _ => {
            return None;
        },
    };
    let stderr: String = match &ms[1].1 {
        JVal::JStr(t) => t.clone(),
        _ => {
            return None;
        },
    };
    let exit_code: Option<i32> = match &ms[2].1 {
        JVal::JInt(c) => {
            if *c < -2147483648i64 || *c > 2147483647i64 {
                return None;
            }
            Some(*c as i32)
        },
        JVal::JNull => None,
        _ => {
            return None;
        },
    };
    let timed_out: bool = match &ms[3].1 {
        JVal::JBool(b) => *b,
        _ => {
            return None;
        },
    };
    Some(ExecResult { stdout, stderr, exit_code, timed_out })
}

/// Law: the JSON form of an execution result is round-trip stable — parsing
/// the serialization yields the same stdout, stderr, exit code and timeout
/// flag.
pub proof fn lemma_exec_result_roundtrip(er: ExecResult)
    ensures
        sp_parse_exec_result(er.spec_json()) matches Some(sp) && sp.0 == er.stdout@ && sp.1
            == er.stderr@ && (match er.exit_code {
            Some(c) => sp.2 == Some(c as int),
            None => sp.2 is None,
        }) && sp.3 == er.timed_out,
{
    let ms = er.spec_pairs();
    assert(members_ok(ms)) by {
        assert(ms[0].1 is SStr && ms[1].1 is SStr && ms[3].1 is SBool);
        match er.exit_code {
            Some(c) => {
                assert(ms[2].1 == SpecJson::SInt(c as int));
            },
            None => {
                assert(ms[2].1 is SNull);
            },
        }
    }
    lemma_object_roundtrip(ms);
    reveal_strlit("stdout");
    reveal_strlit("stderr");
    reveal_strlit("exit_code");
    reveal_strlit("timed_out");
    assert(ms.len() == 4);
    assert(ms[0].0 == "stdout"@ && ms[1].0 == "stderr"@ && ms[2].0 == "exit_code"@ && ms[3].0
        == "timed_out"@);
    assert(ms[0].0 != ms[1].0) by {
        assert("stdout"@[2] == 'd' && "stderr"@[2] == 'd');
        assert("stdout"@[3] == 'o' && "stderr"@[3] == 'e');
    }
}

impl BlockedCommand {
    /// The members of this record's JSON object.
    pub open spec fn spec_pairs(self) -> Seq<(Seq<char>, SpecJson)> {
        seq![
            ("blocked"@, SpecJson::SBool(self.blocked)),
            ("reason"@, SpecJson::SStr(self.reason@)),
            ("command"@, SpecJson::SStr(self.command@)),
        ]
    }

    /// The JSON rendering of this record.
    pub open spec fn spec_json(self) -> Seq<char> {
        object_json(self.spec_pairs())
    }

    /// Serialize this record to its JSON object.
    pub fn to_json(&self) -> (r: String)
        ensures
            r@ == self.spec_json(),
    {
        let mut pairs: Vec<(String, JVal)> = Vec::new();
        pairs.push(("blocked".to_owned(), JVal::JBool(self.blocked)));
        pairs.push(("reason".to_owned(), JVal::JStr(self.reason.clone())));
        pairs.push(("command".to_owned(), JVal::JStr(self.command.clone())));
        let mut out = String::new();
        proof {
            assert(assoc_view(pairs@) =~= self.spec_pairs());
        }
        push_object(&mut out, &pairs);
        out
    }
}

/// What the strict parser reads back from a serialized blocked command: the
/// flag and the views of reason and command.
pub open spec fn sp_parse_blocked(s: Seq<char>) -> Option<(bool, Seq<char>, Seq<char>)> {
    match sp_flat_object(s) {
        None => None,
        Some(ms) => {
            if ms.len() == 3 && ms[0].0 == "blocked"@ && ms[1].0 == "reason"@ && ms[2].0
                == "command"@ && (ms[0].1 is SBool) && (ms[1].1 is SStr) && (ms[2].1 is SStr) {
                Some((ms[0].1->SBool_0, ms[1].1->SStr_0, ms[2].1->SStr_0))
            } else {
                None
            }
        },
    }
}

/// Parse a serialized [`BlockedCommand`]. Accepts exactly what
/// [`BlockedCommand::to_json`] emits.
pub fn blocked_from_json(s: &str) -> (r: Option<BlockedCommand>)
    ensures
        (r is Some) == (sp_parse_blocked(s@) is Some),
        r matches Some(b) ==> sp_parse_blocked(s@) matches Some(sp) && b.blocked == sp.0
            && b.reason@ == sp.1 && b.command@ == sp.2,
{
    proof {
        reveal_strlit("blocked");
        reveal_strlit("reason");
        reveal_strlit("command");
    }
    let ms = match parse_flat_object(s) {
        None => {
            return None;
        },
        Some(ms) => ms,
    };
    if ms.len() != 3 {
        return None;
    }
    let ok_keys = crate::strutil::str_eq(ms[0].0.as_str(), "blocked") && crate::strutil::str_eq(
        ms[1].0.as_str(),
        "reason",
    ) && crate::strutil::str_eq(ms[2].0.as_str(), "command");
    if !ok_keys {
        return None;
    }
    proof {
        assert(assoc_view(ms@)[0] == (ms@[0].0@, ms@[0].1@));
        assert(assoc_view(ms@)[1] == (ms@[1].0@, ms@[1].1@));
        assert(assoc_view(ms@)[2] == (ms@[2].0@, ms@[2].1@));
    }
    let blocked: bool = match &ms[0].1 {
        JVal::JBool(b) => *b,
        _ => {
            return None;
        },
    };
    let reason: String = match &ms[1].1 {
        JVal::JStr(t) => t.clone(),
        _ => {
            return None;
        },
    };
    let command: String = match &ms[2].1 {
        JVal::JStr(t) => t.clone(),
        _ => {
            return None;
        },
    };
    Some(BlockedCommand { blocked, reason, command })
}

/// Law: the JSON form of a blocked-command record is round-trip stable.
pub proof fn lemma_blocked_roundtrip(b: BlockedCommand)
    ensures
        sp_parse_blocked(b.spec_json()) matches Some(sp) && sp.0 == b.blocked && sp.1 == b.reason@
            && sp.2 == b.command@,
{
    let ms = b.spec_pairs();
    assert(members_ok(ms)) by {
        assert(ms[0].1 is SBool && ms[1].1 is SStr && ms[2].1 is SStr);
    }
    lemma_object_roundtrip(ms);
    reveal_strlit("blocked");
    reveal_strlit("reason");
    reveal_strlit("command");
}

/// The structured result a blocked command yields: nothing ran, stderr
/// carries the record, the exit code is 126 and no timeout fired.
pub fn blocked_exec_result(blocked: &BlockedCommand) -> (r: ExecResult)
    ensures
        r.valid(),
        r.stdout@ == Seq::<char>::empty(),
        r.stderr@ == blocked.spec_json(),
        r.exit_code == Some(126i32),
        !r.timed_out,
{
    ExecResult {
        stdout: String::new(),
        stderr: blocked.to_json(),
        exit_code: Some(126),
        timed_out: false,
    }
}

} // verus!

//! The command filter: an ordered set of blocked patterns, compiled once,
//! classifying shell commands as blocked or allowed.
//!
//! A command is checked against every pattern in a single pass; the first
//! matching pattern's reason is reported. The pattern matching itself is the
//! regex crate's work, taken on trust behind narrow wrappers; the selection
//! of the first match and everything around it is verified.

use vstd::prelude::*;

use crate::exec_result::BlockedCommand;
use crate::exec_result::ExecResult;
use crate::exec_result::blocked_exec_result;
use crate::json::JVal;
use crate::json::SpecJson;
use crate::json::assoc_view;
use crate::json::object_json;
use crate::json::push_object;
use crate::defaults::default_blocklist;
use crate::defaults::default_blocklist_patterns;
use crate::defaults::default_blocklist_reasons;

verus! {

#[verifier::external_type_specification]
#[verifier::external_body]
pub struct ExRegexSet(regex::RegexSet);

#[verifier::external_type_specification]
#[verifier::external_body]
pub struct ExRegexError(regex::Error);

/// The patterns a compiled set was built from.
pub uninterp spec fn regex_set_patterns(rs: regex::RegexSet) -> Seq<Seq<char>>;

/// Whether the pattern matches somewhere in the text, as the regex crate
/// decides it. The result depends on the pattern and the text alone.
pub uninterp spec fn regex_match(pattern: Seq<char>, text: Seq<char>) -> bool;

/// Whether this list of patterns compiles into a set under the crate's
/// default limits. The result depends on the patterns alone.
pub uninterp spec fn regexes_compile(patterns: Seq<Seq<char>>) -> bool;

/// Relies on regex::RegexSet::new: compiles the patterns into one set, or
/// reports the error when a pattern is not a valid regular expression or the
/// set exceeds the default size limit.
#[verifier::external_body]
fn regex_set_new(patterns: &Vec<String>) -> (r: Result<regex::RegexSet, regex::Error>)
    ensures
        (r is Ok) == regexes_compile(patterns@.map_values(|p: String| p@)),
        r matches Ok(rs) ==> regex_set_patterns(rs) == patterns@.map_values(|p: String| p@),
{
    regex::RegexSet::new(patterns)
}

/// Relies on regex::RegexSet::matches: the set of indices of the patterns
/// that match, iterated in ascending order; its first element is the lowest
/// matching index.
#[verifier::external_body]
fn regex_set_first_match(rs: &regex::RegexSet, text: &str) -> (r: Option<usize>)
    ensures
        match r {
            Some(i) => i < regex_set_patterns(*rs).len() && regex_match(
                regex_set_patterns(*rs)[i as int],
                text@,
            ) && forall|j: int|
                0 <= j < i ==> !regex_match(regex_set_patterns(*rs)[j], text@),
            None => forall|j: int|
                0 <= j < regex_set_patterns(*rs).len() ==> !regex_match(
                    regex_set_patterns(*rs)[j],
                    text@,
                ),
        },
{
    rs.matches(text).into_iter().next()
}

/// The index of the first pattern that matches the text, if any.
pub open spec fn sp_first_match(patterns: Seq<Seq<char>>, text: Seq<char>) -> Option<int>
    decreases patterns.len(),
{
    if patterns.len() == 0 {
        None
    } else if regex_match(patterns[0], text) {
        Some(0)
    } else {
        match sp_first_match(patterns.skip(1), text) {
            Some(i) => Some(i + 1),
            None => None,
        }
    }
}

/// The minimal matching index is the first match.
proof fn lemma_first_match(patterns: Seq<Seq<char>>, text: Seq<char>, i: int)
    requires
        0 <= i < patterns.len(),
        regex_match(patterns[i], text),
        forall|j: int| 0 <= j < i ==> !regex_match(#[trigger] patterns[j], text),
    ensures
        sp_first_match(patterns, text) == Some(i),
    decreases i,
{
    if i == 0 {
    } else {
        let t = patterns.skip(1);
        assert(t[i - 1] == patterns[i]);
        assert(forall|j: int| 0 <= j < i - 1 ==> #[trigger] t[j] == patterns[j + 1]);
        lemma_first_match(t, text, i - 1);
    }
}

/// No pattern matches, so there is no first match.
proof fn lemma_no_match(patterns: Seq<Seq<char>>, text: Seq<char>)
    requires
        forall|j: int| 0 <= j < patterns.len() ==> !regex_match(#[trigger] patterns[j], text),
    ensures
        sp_first_match(patterns, text) is None,
    decreases patterns.len(),
{
    if patterns.len() > 0 {
        let t = patterns.skip(1);
        assert(forall|j: int| 0 <= j < t.len() ==> #[trigger] t[j] == patterns[j + 1]);
        lemma_no_match(t, text);
    }
}

/// The first match lies within bounds.
pub proof fn lemma_first_match_bounds(patterns: Seq<Seq<char>>, text: Seq<char>)
    ensures
        sp_first_match(patterns, text) matches Some(i) ==> 0 <= i < patterns.len() && regex_match(
            patterns[i],
            text,
        ),
    decreases patterns.len(),
{
    if patterns.len() > 0 && !regex_match(patterns[0], text) {
        let t = patterns.skip(1);
        lemma_first_match_bounds(t, text);
        assert forall|i: int| 0 <= i < t.len() implies t[i] == patterns[i + 1] by {}
    }
}

/// Checks commands against a set of blocked patterns, compiled once at
/// construction for single-pass matching.
pub struct CommandFilter {
    set: regex::RegexSet,
    patterns: Vec<String>,
    reasons: Vec<String>,
}

impl CommandFilter {
    /// The views of the patterns, in order.
    pub closed spec fn patterns_view(self) -> Seq<Seq<char>> {
        self.patterns@.map_values(|p: String| p@)
    }

    /// The views of the reasons, in order.
    pub closed spec fn reasons_view(self) -> Seq<Seq<char>> {
        self.reasons@.map_values(|r: String| r@)
    }

    /// The compiled set holds exactly the stored patterns, and every pattern
    /// has its reason.
    pub closed spec fn wf(self) -> bool {
        &&& regex_set_patterns(self.set) == self.patterns_view()
        &&& self.reasons@.len() == self.patterns@.len()
    }

    /// Compile a filter from ordered (pattern, reason) pairs. Fails exactly
    /// when the patterns do not compile into a set.
    pub fn new(patterns: &Vec<(String, String)>) -> (r: Result<CommandFilter, regex::Error>)
        ensures
            (r is Ok) == regexes_compile(
                patterns@.map_values(|p: (String, String)| p.0@),
            ),
            r matches Ok(f) ==> f.wf() && f.patterns_view() == patterns@.map_values(
                |p: (String, String)| p.0@,
            ) && f.reasons_view() == patterns@.map_values(|p: (String, String)| p.1@),
    {
        let n = patterns.len();
        let mut pats: Vec<String> = Vec::new();
        let mut reasons: Vec<String> = Vec::new();
        let mut i: usize = 0;
        while i < n
            invariant
                n == patterns@.len(),
                0 <= i <= n,
                pats@.len() == i,
                reasons@.len() == i,
                forall|k: int| 0 <= k < i ==> (#[trigger] pats@[k])@ == patterns@[k].0@,
                forall|k: int| 0 <= k < i ==> (#[trigger] reasons@[k])@ == patterns@[k].1@,
            decreases n - i,
        {
            pats.push(patterns[i].0.clone());
            reasons.push(patterns[i].1.clone());
            i += 1;
        }
        proof {
            assert(pats@.map_values(|p: String| p@) =~= patterns@.map_values(
                |p: (String, String)| p.0@,
            ));
            assert(reasons@.map_values(|r: String| r@) =~= patterns@.map_values(
                |p: (String, String)| p.1@,
            ));
        }
        match regex_set_new(&pats) {
            Ok(set) => Ok(CommandFilter { set, patterns: pats, reasons }),
            Err(e) => Err(e),
        }
    }

    /// Compile the default blocklist.
    pub fn from_defaults() -> (r: Result<CommandFilter, regex::Error>)
        ensures
            (r is Ok) == regexes_compile(default_blocklist_patterns()),
            r matches Ok(f) ==> f.wf() && f.patterns_view() == default_blocklist_patterns()
                && f.reasons_view() == default_blocklist_reasons(),
    {
        let defaults = default_blocklist();
        CommandFilter::new(&defaults)
    }

    /// Check a command against the patterns: the first matching pattern's
    /// reason is reported with the command echoed back, and a command no
    /// pattern matches is allowed.
    pub fn check(&self, command: &str) -> (r: Option<BlockedCommand>)
        requires
            self.wf(),
        ensures
            match r {
                Some(b) => sp_first_match(self.patterns_view(), command@) matches Some(i)
                    && b.blocked && b.reason@ == self.reasons_view()[i] && b.command@ == command@,
                None => sp_first_match(self.patterns_view(), command@) is None,
            },
    {
        match regex_set_first_match(&self.set, command) {
            Some(idx) => {
                proof {
                    lemma_first_match(self.patterns_view(), command@, idx as int);
                }
                Some(
                    BlockedCommand {
                        blocked: true,
                        reason: self.reasons[idx].clone(),
                        command: command.to_owned(),
                    },
                )
            },
            None => {
                proof {
                    lemma_no_match(self.patterns_view(), command@);
                }
                None
            },
        }
    }
}

/// Law: a checked command is blocked exactly when some pattern matches it,
/// and the reported reason is the first matching pattern's reason.
pub proof fn lemma_check_first_match(patterns: Seq<Seq<char>>, text: Seq<char>, i: int)
    requires
        0 <= i < patterns.len(),
        regex_match(patterns[i], text),
        forall|j: int| 0 <= j < i ==> !regex_match(#[trigger] patterns[j], text),
    ensures
        sp_first_match(patterns, text) == Some(i),
{
    lemma_first_match(patterns, text, i);
}

/// The result a blocked command produces in place of execution: empty
/// stdout, the record as JSON in stderr, exit code 126 and no timeout. The
/// blocked command is never executed.
pub fn blocked_result(blocked: &BlockedCommand) -> (r: ExecResult)
    ensures
        r.valid(),
        r.stdout@ == Seq::<char>::empty(),
        r.stderr@ == blocked.spec_json(),
        r.exit_code == Some(126i32),
        !r.timed_out,
{
    blocked_exec_result(blocked)
}

/// One line of the security log: timestamp, flag, reason and command.
pub fn security_log_line(timestamp_secs: u64, blocked: &BlockedCommand) -> (r: String)
    requires
        timestamp_secs <= i64::MAX,
    ensures
        r@ == object_json(
            seq![
                ("timestamp"@, SpecJson::SInt(timestamp_secs as int)),
                ("blocked"@, SpecJson::SBool(true)),
                ("reason"@, SpecJson::SStr(blocked.reason@)),
                ("command"@, SpecJson::SStr(blocked.command@)),
            ],
        ),
{
    let mut pairs: Vec<(String, JVal)> = Vec::new();
    pairs.push(("timestamp".to_owned(), JVal::JInt(timestamp_secs as i64)));
    pairs.push(("blocked".to_owned(), JVal::JBool(true)));
    pairs.push(("reason".to_owned(), JVal::JStr(blocked.reason.clone())));
    pairs.push(("command".to_owned(), JVal::JStr(blocked.command.clone())));
    let mut out = String::new();
    proof {
        assert(assoc_view(pairs@) =~= seq![
            ("timestamp"@, SpecJson::SInt(timestamp_secs as int)),
            ("blocked"@, SpecJson::SBool(true)),
            ("reason"@, SpecJson::SStr(blocked.reason@)),
            ("command"@, SpecJson::SStr(blocked.command@)),
        ]);
    }
    push_object(&mut out, &pairs);
    out
}

} // verus!

//! The sub-agent registry: the single source of truth for spawned child
//! sessions and background processes.
//!
//! Every entry carries a unique id, its kind, an optional parent, a depth
//! consistent with the parent chain, a lifecycle status and timestamps. The
//! registry enforces the depth and count bounds before any spawn; a status
//! leaves `Running` for exactly one terminal state, which also sets the
//! completion timestamp. Cancellation handles form a tree: an entry's handle
//! is created as a child of its parent's handle, so cancelling a node
//! cascades to its descendants but not to ancestors or siblings.
//!
//! Entries are never removed. The surrounding application wraps the registry
//! in one coarse lock and passes timestamps in; awaiting join handles and
//! stdin I/O happen outside the lock.

use vstd::prelude::*;

use crate::strutil::dec_digits;
use crate::strutil::push_dec_u64;
use crate::strutil::truncate_chars;

verus! {

#[verifier::external_type_specification]
#[verifier::external_body]
pub struct ExCancellationToken(tokio_util::sync::CancellationToken);

#[verifier::external_type_specification]
#[verifier::external_body]
#[verifier::reject_recursive_types(T)]
pub struct ExJoinHandle<T>(tokio::task::JoinHandle<T>);

#[verifier::external_type_specification]
#[verifier::external_body]
pub struct ExJoinError(tokio::task::JoinError);

#[verifier::external_type_specification]
#[verifier::external_body]
pub struct ExChildStdin(tokio::process::ChildStdin);

/// Relies on tokio_util::sync::CancellationToken::new: a fresh root token.
#[verifier::external_body]
pub fn token_new() -> tokio_util::sync::CancellationToken {
    tokio_util::sync::CancellationToken::new()
}

/// Relies on tokio_util::sync::CancellationToken::child_token: a token that
/// is cancelled with its parent but can be cancelled without affecting it.
#[verifier::external_body]
pub fn token_child(
    parent: &tokio_util::sync::CancellationToken,
) -> tokio_util::sync::CancellationToken {
    parent.child_token()
}

/// Relies on tokio_util::sync::CancellationToken::cancel: cancels this token
/// and all its child tokens.
#[verifier::external_body]
pub fn token_cancel(token: &tokio_util::sync::CancellationToken) {
    token.cancel()
}

/// Relies on tokio_util::sync::CancellationToken::is_cancelled. The answer
/// depends on what other tasks have done, so nothing is stated of it.
#[verifier::external_body]
pub fn token_is_cancelled(token: &tokio_util::sync::CancellationToken) -> bool {
    token.is_cancelled()
}

/// What kind of work a sub-agent entry represents.
#[derive(Debug)]
pub enum SubAgentKind {
    /// A child chat session with its own conversation and tools.
    LlmSession { model: String, goal: String },
    /// A long-lived background shell process with optional stdin interaction.
    BackgroundProcess { command: String },
}

/// Lifecycle status of a sub-agent or background process.
#[derive(Debug)]
pub enum SubAgentStatus {
    /// Currently executing.
    Running,
    /// Finished successfully.
    Completed,
    /// Terminated with an error.
    Failed(String),
    /// Explicitly cancelled, directly or by cascading shutdown.
    Killed,
}

/// Read-only view of a sub-agent entry, returned by status queries.
#[derive(Debug)]
pub struct SubAgentInfo {
    /// Unique identifier.
    pub id: String,
    /// What kind of work this entry represents.
    pub kind: SubAgentKind,
    /// Parent sub-agent id, or none for root-level entries.
    pub parent_id: Option<String>,
    /// Current lifecycle status.
    pub status: SubAgentStatus,
    /// Nesting depth in the sub-agent tree; a root has depth zero.
    pub depth: usize,
    /// Timestamp of registration.
    pub spawned_at: String,
    /// Timestamp of the terminal transition, if one happened.
    pub completed_at: Option<String>,
}

/// Structured result a sub-agent stores when its work ends.
#[derive(Debug)]
pub struct SubAgentResult {
    /// Id of the sub-agent that produced this result.
    pub agent_id: String,
    /// Outcome label: completed, failed or killed.
    pub status: String,
    /// Brief human-readable summary of what was accomplished.
    pub summary: String,
    /// Detailed output or error message.
    pub output: String,
    /// Files created or modified during execution.
    pub files_modified: Vec<String>,
    /// Wall-clock duration of the work in milliseconds.
    pub elapsed_ms: u64,
}

/// One registry entry: the public info plus the handles the orchestration
/// needs. The cancellation token, join handle and stdin handle are the
/// outside crates' values, held opaquely.
pub struct SubAgentEntry {
    pub info: SubAgentInfo,
    pub cancel_token: tokio_util::sync::CancellationToken,
    pub join_handle: Option<tokio::task::JoinHandle<()>>,
    pub result: Option<SubAgentResult>,
    pub stdin_handle: Option<tokio::process::ChildStdin>,
}

/// Whether a status is terminal: anything but `Running`.
pub open spec fn is_terminal(s: SubAgentStatus) -> bool {
    !(s is Running)
}

/// Two statuses agree, their messages compared by text.
pub open spec fn status_matches(a: SubAgentStatus, b: SubAgentStatus) -> bool {
    match (a, b) {
        (SubAgentStatus::Running, SubAgentStatus::Running) => true,
        (SubAgentStatus::Completed, SubAgentStatus::Completed) => true,
        (SubAgentStatus::Killed, SubAgentStatus::Killed) => true,
        (SubAgentStatus::Failed(x), SubAgentStatus::Failed(y)) => x@ == y@,
        _ => false,
    }
}

/// Central registry for all sub-agents and background processes.
pub struct SubAgentManager {
    pub entries: Vec<SubAgentEntry>,
    pub root_cancel_token: tokio_util::sync::CancellationToken,
    pub max_depth: usize,
    pub max_total: usize,
}

impl SubAgentManager {
    /// The id of the entry at `i`.
    pub open spec fn id_at(self, i: int) -> Seq<char> {
        self.entries@[i].info.id@
    }

    /// The first index holding the given id, if any.
    pub open spec fn find_spec(self, id: Seq<char>) -> Option<int> {
        if exists|i: int| 0 <= i < self.entries@.len() && self.id_at(i) == id {
            Some(choose|i: int| 0 <= i < self.entries@.len() && self.id_at(i) == id)
        } else {
            None
        }
    }

    /// One entry is well-formed within the registry: its depth is zero for a
    /// root, else one more than its existing parent's; its depth respects the
    /// bound; and it has a completion timestamp exactly when terminal.
    pub open spec fn entry_wf(self, i: int) -> bool {
        let info = self.entries@[i].info;
        &&& info.depth <= self.max_depth
        &&& match info.parent_id {
            None => info.depth == 0,
            Some(pid) => exists|j: int|
                0 <= j < self.entries@.len() && #[trigger] self.id_at(j) == pid@
                    && self.entries@[j].info.depth + 1 == info.depth,
        }
        &&& (is_terminal(info.status) <==> (info.completed_at is Some))
    }

    /// The registry invariant: bounded size, unique ids, and every entry
    /// well-formed.
    pub open spec fn wf(self) -> bool {
        &&& self.entries@.len() <= self.max_total
        &&& forall|i: int, j: int|
            0 <= i < j < self.entries@.len() ==> #[trigger] self.id_at(i) != #[trigger] self.id_at(
                j,
            )
        &&& forall|i: int| 0 <= i < self.entries@.len() ==> #[trigger] self.entry_wf(i)
    }

    /// Create an empty registry with the given cancellation root and limits.
    pub fn new(
        root_cancel_token: tokio_util::sync::CancellationToken,
        max_depth: usize,
        max_total: usize,
    ) -> (r: SubAgentManager)
        ensures
            r.wf(),
            r.entries@.len() == 0,
            r.max_depth == max_depth,
            r.max_total == max_total,
    {
        SubAgentManager { entries: Vec::new(), root_cancel_token, max_depth, max_total }
    }

    /// Find the index of the entry with the given id.
    fn find_index(&self, id: &String) -> (r: Option<usize>)
        ensures
            match r {
                Some(i) => i < self.entries@.len() && self.id_at(i as int) == id@
                    && self.find_spec(id@) is Some,
                None => self.find_spec(id@) is None,
            },
    {
        let n = self.entries.len();
        let mut i: usize = 0;
        while i < n
            invariant
                n == self.entries@.len(),
                0 <= i <= n,
                forall|k: int| 0 <= k < i ==> #[trigger] self.id_at(k) != id@,
            decreases n - i,
        {
            if self.entries[i].info.id.eq(id) {
                proof {
                    assert(0 <= i < self.entries@.len() && self.id_at(i as int) == id@);
                }
                return Some(i);
            }
            i += 1;
        }
        proof {
            assert(forall|k: int| 0 <= k < n ==> #[trigger] self.id_at(k) != id@);
        }
        None
    }

    /// The number shown in the depth-bound message: the rejected depth, one
    /// past the parent's, computed without wrapping.
    pub open spec fn depth_display(pd: int) -> nat {
        if pd + 1 <= u64::MAX {
            (pd + 1) as nat
        } else {
            u64::MAX as nat
        }
    }

    /// Why a registration is refused, with its exact message, checked in
    /// this order: the total count bound, id freshness, the parent's
    /// existence, the depth bound. Nothing when the entry is admitted.
    pub open spec fn register_refusal(self, id: Seq<char>, parent_id: Option<String>) -> Option<
        Seq<char>,
    > {
        if self.entries@.len() >= self.max_total {
            Some(
                "max total agents reached ("@ + dec_digits(self.entries@.len() as nat) + "/"@
                    + dec_digits(self.max_total as nat) + ")"@,
            )
        } else if self.find_spec(id) is Some {
            Some("agent id already registered: "@ + id)
        } else {
            match parent_id {
                None => None,
                Some(pid) => match self.find_spec(pid@) {
                    None => Some("parent agent not found: "@ + pid@),
                    Some(j) => {
                        if self.entries@[j].info.depth >= self.max_depth {
                            Some(
                                "max nesting depth exceeded ("@ + dec_digits(
                                    Self::depth_display(self.entries@[j].info.depth as int),
                                ) + " > "@ + dec_digits(self.max_depth as nat) + ")"@,
                            )
                        } else {
                            None
                        }
                    },
                },
            }
        }
    }

    /// Register a new entry. Validates, in this order, the total count bound,
    /// id freshness, the parent's existence and the depth bound, failing with
    /// a message that names the cause; when every check passes the entry is
    /// admitted — registration is refused only for those four causes. On
    /// success the entry is appended as `Running`, timestamped, with depth
    /// zero for a root and the parent's depth plus one otherwise, and with
    /// empty result, join-handle and stdin slots.
    pub fn register(
        &mut self,
        id: String,
        kind: SubAgentKind,
        parent_id: Option<String>,
        cancel_token: tokio_util::sync::CancellationToken,
        now: String,
    ) -> (r: Result<(), String>)
        requires
            old(self).wf(),
        ensures
            final(self).wf(),
            final(self).max_depth == old(self).max_depth,
            final(self).max_total == old(self).max_total,
            (r is Ok) == (old(self).register_refusal(id@, parent_id) is None),
            r matches Err(e) ==> old(self).register_refusal(id@, parent_id) matches Some(m) && e@
                == m && final(self).entries@ == old(self).entries@,
            r is Ok ==> final(self).entries@.len() == old(self).entries@.len() + 1
                && final(self).entries@.subrange(0, old(self).entries@.len() as int) == old(self).entries@,
            r is Ok ==> ({
                let entry = final(self).entries@.last();
                let e = entry.info;
                &&& e.id@ == id@
                &&& e.status is Running
                &&& e.completed_at is None
                &&& e.spawned_at@ == now@
                &&& entry.result is None
                &&& entry.join_handle is None
                &&& entry.stdin_handle is None
                &&& match parent_id {
                    None => e.parent_id is None && e.depth == 0,
                    Some(pid) => (e.parent_id matches Some(p) && p@ == pid@) && (old(
                        self,
                    ).find_spec(pid@) matches Some(j) && e.depth == old(
                        self,
                    ).entries@[j].info.depth + 1),
                }
            }),
    {
        proof {
            reveal_strlit("max total agents reached (");
            reveal_strlit("/");
            reveal_strlit(")");
        }
        if self.entries.len() >= self.max_total {
            let mut msg = String::new();
            msg.append("max total agents reached (");
            push_dec_u64(&mut msg, self.entries.len() as u64);
            msg.append("/");
            push_dec_u64(&mut msg, self.max_total as u64);
            msg.append(")");
            return Err(msg);
        }
        if let Some(_) = self.find_index(&id) {
            let mut msg = String::new();
            msg.append("agent id already registered: ");
            msg.append(id.as_str());
            return Err(msg);
        }
        let ghost pre = *self;
        let depth: usize = match &parent_id {
            None => 0,
            Some(pid) => {
                match self.find_index(pid) {
                    None => {
                        let mut msg = String::new();
                        msg.append("parent agent not found: ");
                        msg.append(pid.as_str());
                        return Err(msg);
                    },
                    Some(j) => {
                        let pd = self.entries[j].info.depth;
                        if pd >= self.max_depth {
                            let mut msg = String::new();
                            msg.append("max nesting depth exceeded (");
                            push_dec_u64(&mut msg, (pd as u64).saturating_add(1));
                            msg.append(" > ");
                            push_dec_u64(&mut msg, self.max_depth as u64);
                            msg.append(")");
                            return Err(msg);
                        }
                        pd + 1
                    },
                }
            },
        };
        let info = SubAgentInfo {
            id,
            kind,
            parent_id,
            status: SubAgentStatus::Running,
            depth,
            spawned_at: now,
            completed_at: None,
        };
        let entry = SubAgentEntry {
            info,
            cancel_token,
            join_handle: None,
            result: None,
            stdin_handle: None,
        };
        self.entries.push(entry);
        proof {
            let n = pre.entries@.len() as int;
            assert(self.entries@.subrange(0, n) =~= pre.entries@);
            assert forall|i: int| 0 <= i < self.entries@.len() implies #[trigger] self.entry_wf(
                i,
            ) by {
                if i < n {
                    assert(pre.entry_wf(i));
                    assert(self.entries@[i] == pre.entries@[i]);
                    assert forall|j2: int|
                        0 <= j2 < n && pre.id_at(j2) == pre.id_at(j2) implies true by {}
                    match self.entries@[i].info.parent_id {
                        None => {},
                        Some(pid) => {
                            let j2 = choose|j2: int|
                                0 <= j2 < pre.entries@.len() && #[trigger] pre.id_at(j2) == pid@
                                    && pre.entries@[j2].info.depth + 1
                                    == pre.entries@[i].info.depth;
                            assert(self.id_at(j2) == pid@ && self.entries@[j2].info.depth + 1
                                == self.entries@[i].info.depth);
                        },
                    }
                } else {
                    match self.entries@[i].info.parent_id {
                        None => {},
                        Some(pid) => {
                            let j2 = choose|j2: int|
                                0 <= j2 < pre.entries@.len() && #[trigger] pre.id_at(j2) == pid@;
                            assert(self.id_at(j2) == pid@);
                        },
                    }
                }
            }
            assert forall|i: int, j: int|
                0 <= i < j < self.entries@.len() implies #[trigger] self.id_at(i)
                != #[trigger] self.id_at(j) by {
                if j < n {
                    assert(self.id_at(i) == pre.id_at(i));
                    assert(self.id_at(j) == pre.id_at(j));
                    assert(pre.id_at(i) != pre.id_at(j));
                } else {
                    assert(self.id_at(j) == id@);
                    assert(pre.find_spec(id@) is None);
                    assert(self.id_at(i) == pre.id_at(i));
                    assert(pre.id_at(i) != id@);
                }
            }
        }
        Ok(())
    }

    /// Attach the join handle of the task driving an entry.
    pub fn set_join_handle(&mut self, id: &String, handle: tokio::task::JoinHandle<()>)
        requires
            old(self).wf(),
        ensures
            final(self).wf(),
            final(self).entries@.len() == old(self).entries@.len(),
            old(self).find_spec(id@) is None ==> *final(self) == *old(self),
            forall|i: int|
                old(self).find_spec(id@) != Some(i) && 0 <= i < final(self).entries@.len()
                    ==> #[trigger] final(self).entries@[i] == old(self).entries@[i],
            old(self).find_spec(id@) matches Some(i) ==> final(self).entries@[i]
                == (SubAgentEntry { join_handle: Some(handle), ..old(self).entries@[i] }),
    {
        if let Some(i) = self.find_index(id) {
            let ghost pre = *self;
            proof {
                lemma_find_unique(pre, id@, i as int);
            }
            self.entries[i].join_handle = Some(handle);
            proof {
                lemma_same_infos_wf(pre, *self);
            }
        }
    }

    /// Attach a background process's stdin handle.
    pub fn set_stdin(&mut self, id: &String, stdin: tokio::process::ChildStdin)
        requires
            old(self).wf(),
        ensures
            final(self).wf(),
            final(self).entries@.len() == old(self).entries@.len(),
            old(self).find_spec(id@) is None ==> *final(self) == *old(self),
            forall|i: int|
                old(self).find_spec(id@) != Some(i) && 0 <= i < final(self).entries@.len()
                    ==> #[trigger] final(self).entries@[i] == old(self).entries@[i],
            old(self).find_spec(id@) matches Some(i) ==> final(self).entries@[i]
                == (SubAgentEntry { stdin_handle: Some(stdin), ..old(self).entries@[i] }),
    {
        if let Some(i) = self.find_index(id) {
            let ghost pre = *self;
            proof {
                lemma_find_unique(pre, id@, i as int);
            }
            self.entries[i].stdin_handle = Some(stdin);
            proof {
                lemma_same_infos_wf(pre, *self);
            }
        }
    }

    /// Take a background process's stdin handle out, for a write performed
    /// outside the registry lock.
    pub fn take_stdin(&mut self, id: &String) -> (r: Option<tokio::process::ChildStdin>)
        requires
            old(self).wf(),
        ensures
            final(self).wf(),
            final(self).entries@.len() == old(self).entries@.len(),
            old(self).find_spec(id@) is None ==> *final(self) == *old(self) && r is None,
            forall|i: int|
                old(self).find_spec(id@) != Some(i) && 0 <= i < final(self).entries@.len()
                    ==> #[trigger] final(self).entries@[i] == old(self).entries@[i],
            old(self).find_spec(id@) matches Some(i) ==> r == old(self).entries@[i].stdin_handle
                && final(self).entries@[i] == (SubAgentEntry {
                stdin_handle: None,
                ..old(self).entries@[i]
            }),
    {
        match self.find_index(id) {
            Some(i) => {
                let ghost pre = *self;
                proof {
                    lemma_find_unique(pre, id@, i as int);
                }
                let h = self.entries[i].stdin_handle.take();
                proof {
                    lemma_same_infos_wf(pre, *self);
                }
                h
            },
            None => None,
        }
    }

    /// Store a completed entry's structured result.
    pub fn set_result(&mut self, id: &String, result: SubAgentResult)
        requires
            old(self).wf(),
        ensures
            final(self).wf(),
            final(self).entries@.len() == old(self).entries@.len(),
            old(self).find_spec(id@) is None ==> *final(self) == *old(self),
            forall|i: int|
                old(self).find_spec(id@) != Some(i) && 0 <= i < final(self).entries@.len()
                    ==> #[trigger] final(self).entries@[i] == old(self).entries@[i],
            old(self).find_spec(id@) matches Some(i) ==> final(self).entries@[i]
                == (SubAgentEntry { result: Some(result), ..old(self).entries@[i] }),
    {
        if let Some(i) = self.find_index(id) {
            let ghost pre = *self;
            proof {
                lemma_find_unique(pre, id@, i as int);
            }
            self.entries[i].result = Some(result);
            proof {
                lemma_same_infos_wf(pre, *self);
            }
        }
    }

    /// Update an entry's lifecycle status. A terminal status is taken only
    /// from `Running`, and taking it sets the completion timestamp — so every
    /// terminal status is reached at most once and an entry never leaves its
    /// terminal state. Returns the label pair for a status-change event, or
    /// none when nothing changed.
    pub fn update_status(&mut self, id: &String, status: SubAgentStatus, now: &String) -> (r:
        Option<(String, String)>)
        requires
            old(self).wf(),
        ensures
            final(self).wf(),
            final(self).entries@.len() == old(self).entries@.len(),
            forall|i: int|
                old(self).find_spec(id@) != Some(i) && 0 <= i < final(self).entries@.len()
                    ==> #[trigger] final(self).entries@[i] == old(self).entries@[i],
            old(self).find_spec(id@) matches Some(i) ==> ({
                let pre = old(self).entries@[i].info;
                let post = final(self).entries@[i].info;
                if pre.status is Running && is_terminal(status) {
                    status_matches(post.status, status) && (post.completed_at matches Some(t)
                        && t@ == now@) && post.id == pre.id && post.depth == pre.depth
                } else {
                    post == pre
                }
            }),
            (r is Some) == (old(self).find_spec(id@) matches Some(i) && old(self).entries@[i].info.status is Running && is_terminal(status)),
    {
        let i = match self.find_index(id) {
            Some(i) => i,
            None => {
                return None;
            },
        };
        let ghost pre = *self;
        proof {
            lemma_find_unique(pre, id@, i as int);
        }
        let currently_running = matches!(self.entries[i].info.status, SubAgentStatus::Running);
        let incoming_terminal = !matches!(status, SubAgentStatus::Running);
        if !(currently_running && incoming_terminal) {
            return None;
        }
        let status_label: String = match &status {
            SubAgentStatus::Running => "running".to_owned(),
            SubAgentStatus::Completed => "completed".to_owned(),
            SubAgentStatus::Failed(msg) => {
                let mut s = String::new();
                s.append("failed: ");
                s.append(msg.as_str());
                s
            },
            SubAgentStatus::Killed => "killed".to_owned(),
        };
        let kind_label: String = match &self.entries[i].info.kind {
            SubAgentKind::LlmSession { model, .. } => {
                let mut s = String::new();
                s.append("llm:");
                s.append(model.as_str());
                s
            },
            SubAgentKind::BackgroundProcess { command } => {
                let mut s = String::new();
                s.append("proc:");
                let short = truncate_chars(command.as_str(), 30);
                s.append(short.as_str());
                s
            },
        };
        self.entries[i].info.status = status;
        self.entries[i].info.completed_at = Some(now.clone());
        proof {
            assert forall|k: int|
                0 <= k < self.entries@.len() implies (is_terminal(
                #[trigger] self.entries@[k].info.status,
            ) <==> (self.entries@[k].info.completed_at is Some)) by {
                assert(pre.entry_wf(k));
            }
            lemma_same_shape_wf(pre, *self);
        }
        Some((status_label, kind_label))
    }

    /// Snapshot an entry's info, or none when the id is unknown.
    pub fn get_status(&self, id: &String) -> (r: Option<&SubAgentInfo>)
        requires
            self.wf(),
        ensures
            match r {
                Some(info) => self.find_spec(id@) matches Some(i) && *info
                    == self.entries@[i].info,
                None => self.find_spec(id@) is None,
            },
    {
        match self.find_index(id) {
            Some(i) => {
                proof {
                    lemma_find_unique(*self, id@, i as int);
                }
                Some(&self.entries[i].info)
            },
            None => None,
        }
    }

    /// An entry's stored result, or none when the id is unknown or the work
    /// is still running.
    pub fn get_result(&self, id: &String) -> (r: Option<&SubAgentResult>)
        requires
            self.wf(),
        ensures
            match r {
                Some(result) => self.find_spec(id@) matches Some(i)
                    && self.entries@[i].result matches Some(res) && *result == res,
                None => self.find_spec(id@) matches Some(i) ==> self.entries@[i].result is None,
            },
    {
        match self.find_index(id) {
            Some(i) => {
                proof {
                    lemma_find_unique(*self, id@, i as int);
                }
                match &self.entries[i].result {
                    Some(res) => Some(res),
                    None => None,
                }
            },
            None => None,
        }
    }

    /// The number of registered entries.
    pub fn total_count(&self) -> (r: usize)
        ensures
            r == self.entries@.len(),
    {
        self.entries.len()
    }

    /// The depth of the entry with the given id.
    pub fn depth_of(&self, id: &String) -> (r: Option<usize>)
        requires
            self.wf(),
        ensures
            match r {
                Some(d) => self.find_spec(id@) matches Some(i) && d == self.entries@[i].info.depth,
                None => self.find_spec(id@) is None,
            },
    {
        match self.find_index(id) {
            Some(i) => {
                proof {
                    lemma_find_unique(*self, id@, i as int);
                }
                Some(self.entries[i].info.depth)
            },
            None => None,
        }
    }

    /// Cancel the entry's token and mark a running entry `Killed`; an entry
    /// already terminal keeps its state, though its token is cancelled
    /// again. Returns whether the entry existed.
    pub fn cancel_agent(&mut self, id: &String, now: &String) -> (r: bool)
        requires
            old(self).wf(),
        ensures
            final(self).wf(),
            r == (old(self).find_spec(id@) is Some),
            final(self).entries@.len() == old(self).entries@.len(),
            forall|i: int|
                old(self).find_spec(id@) != Some(i) && 0 <= i < final(self).entries@.len()
                    ==> #[trigger] final(self).entries@[i] == old(self).entries@[i],
            old(self).find_spec(id@) matches Some(i) ==> ({
                let pre = old(self).entries@[i].info;
                let post = final(self).entries@[i].info;
                if pre.status is Running {
                    post.status is Killed && (post.completed_at matches Some(t) && t@ == now@)
                        && post.id == pre.id && post.depth == pre.depth
                } else {
                    post == pre
                }
            }),
    {
        let i = match self.find_index(id) {
            Some(i) => i,
            None => {
                return false;
            },
        };
        let ghost pre = *self;
        proof {
            lemma_find_unique(pre, id@, i as int);
        }
        token_cancel(&self.entries[i].cancel_token);
        if matches!(self.entries[i].info.status, SubAgentStatus::Running) {
            self.entries[i].info.status = SubAgentStatus::Killed;
            self.entries[i].info.completed_at = Some(now.clone());
            proof {
                assert forall|k: int|
                    0 <= k < self.entries@.len() implies (is_terminal(
                    #[trigger] self.entries@[k].info.status,
                ) <==> (self.entries@[k].info.completed_at is Some)) by {
                    assert(pre.entry_wf(k));
                }
                lemma_same_shape_wf(pre, *self);
            }
        }
        true
    }

    /// Create a cancellation handle for a new entry: a child of the named
    /// parent's handle, or of the root handle when no parent is given or the
    /// parent is unknown.
    pub fn create_child_token(&self, parent_id: Option<&String>) -> (r:
        tokio_util::sync::CancellationToken)
    {
        match parent_id {
            Some(pid) => {
                match self.find_index(pid) {
                    Some(i) => token_child(&self.entries[i].cancel_token),
                    None => token_child(&self.root_cancel_token),
                }
            },
            None => token_child(&self.root_cancel_token),
        }
    }

    /// Take every stored join handle out, for the shutdown path to await
    /// outside the lock.
    pub fn take_all_join_handles(&mut self) -> (r: Vec<tokio::task::JoinHandle<()>>)
        requires
            old(self).wf(),
        ensures
            final(self).wf(),
            final(self).entries@.len() == old(self).entries@.len(),
            r@ == stored_handles(old(self).entries@),
            forall|i: int|
                0 <= i < final(self).entries@.len() ==> #[trigger] final(self).entries@[i]
                    == (SubAgentEntry { join_handle: None, ..old(self).entries@[i] }),
    {
        let ghost pre = *self;
        let mut handles: Vec<tokio::task::JoinHandle<()>> = Vec::new();
        let n = self.entries.len();
        let mut i: usize = 0;
        proof {
            assert(stored_handles(pre.entries@.subrange(0, 0)) =~= Seq::<
                tokio::task::JoinHandle<()>,
            >::empty());
        }
        while i < n
            invariant
                n == self.entries@.len(),
                0 <= i <= n,
                self.entries@.len() == pre.entries@.len(),
                forall|k: int|
                    0 <= k < i ==> #[trigger] self.entries@[k] == (SubAgentEntry {
                        join_handle: None,
                        ..pre.entries@[k]
                    }),
                forall|k: int| i <= k < n ==> #[trigger] self.entries@[k] == pre.entries@[k],
                handles@ == stored_handles(pre.entries@.subrange(0, i as int)),
                self.max_depth == pre.max_depth,
                self.max_total == pre.max_total,
                self.root_cancel_token == pre.root_cancel_token,
            decreases n - i,
        {
            proof {
                lemma_stored_handles_push(pre.entries@, i as int);
            }
            let h = self.entries[i].join_handle.take();
            if let Some(h) = h {
                handles.push(h);
            }
            i += 1;
        }
        proof {
            assert(pre.entries@.subrange(0, n as int) =~= pre.entries@);
            lemma_same_infos_wf(pre, *self);
        }
        handles
    }

    /// Force every entry still running to `Killed`, the last step of a
    /// shutdown after the join handles were awaited.
    pub fn mark_running_killed(&mut self, now: &String)
        requires
            old(self).wf(),
        ensures
            final(self).wf(),
            final(self).entries@.len() == old(self).entries@.len(),
            forall|i: int|
                0 <= i < final(self).entries@.len() ==> ({
                    let pre = old(self).entries@[i].info;
                    let post = #[trigger] final(self).entries@[i].info;
                    if pre.status is Running {
                        post.status is Killed && (post.completed_at matches Some(t) && t@ == now@)
                            && post.id == pre.id && post.depth == pre.depth && post.parent_id
                            == pre.parent_id
                    } else {
                        post == pre
                    }
                }),
    {
        let ghost pre = *self;
        let n = self.entries.len();
        let mut i: usize = 0;
        while i < n
            invariant
                n == self.entries@.len(),
                0 <= i <= n,
                self.entries@.len() == pre.entries@.len(),
                self.max_depth == pre.max_depth,
                self.max_total == pre.max_total,
                forall|k: int|
                    i <= k < n ==> #[trigger] self.entries@[k] == pre.entries@[k],
                forall|k: int|
                    0 <= k < i ==> ({
                        let p = pre.entries@[k].info;
                        let q = #[trigger] self.entries@[k].info;
                        if p.status is Running {
                            q.status is Killed && (q.completed_at matches Some(t) && t@ == now@)
                                && q.id == p.id && q.depth == p.depth && q.parent_id == p.parent_id
                        } else {
                            self.entries@[k] == pre.entries@[k]
                        }
                    }),
                forall|k: int|
                    0 <= k < n ==> #[trigger] self.entries@[k].info.id == pre.entries@[k].info.id
                        && self.entries@[k].info.depth == pre.entries@[k].info.depth
                        && self.entries@[k].info.parent_id == pre.entries@[k].info.parent_id,
            decreases n - i,
        {
            if matches!(self.entries[i].info.status, SubAgentStatus::Running) {
                self.entries[i].info.status = SubAgentStatus::Killed;
                self.entries[i].info.completed_at = Some(now.clone());
            }
            i += 1;
        }
        proof {
            assert forall|k: int|
                0 <= k < self.entries@.len() implies (is_terminal(
                #[trigger] self.entries@[k].info.status,
            ) <==> (self.entries@[k].info.completed_at is Some)) by {
                assert(pre.entry_wf(k));
            }
            lemma_same_shape_wf(pre, *self);
        }
    }
}

/// The join handles stored across the entries, in registration order.
pub open spec fn stored_handles(entries: Seq<SubAgentEntry>) -> Seq<tokio::task::JoinHandle<()>>
    decreases entries.len(),
{
    if entries.len() == 0 {
        Seq::empty()
    } else {
        stored_handles(entries.drop_last()) + match entries.last().join_handle {
            Some(h) => seq![h],
            None => Seq::empty(),
        }
    }
}

proof fn lemma_stored_handles_push(entries: Seq<SubAgentEntry>, i: int)
    requires
        0 <= i < entries.len(),
    ensures
        stored_handles(entries.subrange(0, i + 1)) == stored_handles(entries.subrange(0, i))
            + match entries[i].join_handle {
            Some(h) => seq![h],
            None => Seq::<tokio::task::JoinHandle<()>>::empty(),
        },
{
    assert(entries.subrange(0, i + 1).drop_last() =~= entries.subrange(0, i));
    assert(entries.subrange(0, i + 1).last() == entries[i]);
}

/// Every id occurs once, so the found index is the found entry.
proof fn lemma_find_unique(m: SubAgentManager, id: Seq<char>, i: int)
    requires
        m.wf(),
        0 <= i < m.entries@.len(),
        m.id_at(i) == id,
    ensures
        m.find_spec(id) == Some(i),
{
    assert(exists|k: int| 0 <= k < m.entries@.len() && m.id_at(k) == id);
    let w = choose|k: int| 0 <= k < m.entries@.len() && m.id_at(k) == id;
    if w != i {
        if w < i {
            assert(m.id_at(w) != m.id_at(i));
        } else {
            assert(m.id_at(i) != m.id_at(w));
        }
    }
}

/// A change that keeps every entry's info keeps the registry well-formed.
proof fn lemma_same_infos_wf(pre: SubAgentManager, post: SubAgentManager)
    requires
        pre.wf(),
        post.entries@.len() == pre.entries@.len(),
        post.max_depth == pre.max_depth,
        post.max_total == pre.max_total,
        forall|i: int|
            0 <= i < post.entries@.len() ==> #[trigger] post.entries@[i].info
                == pre.entries@[i].info,
    ensures
        post.wf(),
{
    assert forall|i: int| 0 <= i < post.entries@.len() implies #[trigger] post.entry_wf(i) by {
        assert(post.entries@[i].info == pre.entries@[i].info);
        assert(pre.entry_wf(i));
        match post.entries@[i].info.parent_id {
            None => {},
            Some(pid) => {
                let j = choose|j: int|
                    0 <= j < pre.entries@.len() && #[trigger] pre.id_at(j) == pid@
                        && pre.entries@[j].info.depth + 1 == pre.entries@[i].info.depth;
                assert(post.entries@[j].info == pre.entries@[j].info);
                assert(post.id_at(j) == pid@ && post.entries@[j].info.depth + 1
                    == post.entries@[i].info.depth);
            },
        }
    }
    assert forall|i: int, j: int|
        0 <= i < j < post.entries@.len() implies #[trigger] post.id_at(i) != #[trigger] post.id_at(
        j,
    ) by {
        assert(post.entries@[i].info == pre.entries@[i].info);
        assert(post.entries@[j].info == pre.entries@[j].info);
        assert(pre.id_at(i) != pre.id_at(j));
    }
}

/// A change that keeps every entry's id, depth and parent, and moves
/// statuses only from running to terminal-with-timestamp, keeps the registry
/// well-formed.
proof fn lemma_same_shape_wf(pre: SubAgentManager, post: SubAgentManager)
    requires
        pre.wf(),
        post.entries@.len() == pre.entries@.len(),
        post.max_depth == pre.max_depth,
        post.max_total == pre.max_total,
        forall|i: int|
            0 <= i < post.entries@.len() ==> #[trigger] post.entries@[i].info.id
                == pre.entries@[i].info.id && post.entries@[i].info.depth
                == pre.entries@[i].info.depth && post.entries@[i].info.parent_id
                == pre.entries@[i].info.parent_id,
        forall|i: int|
            0 <= i < post.entries@.len() ==> (is_terminal(
                #[trigger] post.entries@[i].info.status,
            ) <==> (post.entries@[i].info.completed_at is Some)),
    ensures
        post.wf(),
{
    assert forall|i: int| 0 <= i < post.entries@.len() implies #[trigger] post.entry_wf(i) by {
        assert(post.entries@[i].info.id == pre.entries@[i].info.id);
        assert(pre.entry_wf(i));
        match post.entries@[i].info.parent_id {
            None => {},
            Some(pid) => {
                let j = choose|j: int|
                    0 <= j < pre.entries@.len() && #[trigger] pre.id_at(j) == pid@
                        && pre.entries@[j].info.depth + 1 == pre.entries@[i].info.depth;
                assert(post.entries@[j].info.id == pre.entries@[j].info.id);
                assert(post.entries@[j].info.depth == pre.entries@[j].info.depth);
                assert(post.id_at(j) == pid@ && post.entries@[j].info.depth + 1
                    == post.entries@[i].info.depth);
            },
        }
    }
    assert forall|i: int, j: int|
        0 <= i < j < post.entries@.len() implies #[trigger] post.id_at(i) != #[trigger] post.id_at(
        j,
    ) by {
        assert(post.entries@[i].info.id == pre.entries@[i].info.id);
        assert(post.entries@[j].info.id == pre.entries@[j].info.id);
        assert(pre.id_at(i) != pre.id_at(j));
    }
}

/// Law: in a well-formed registry an entry has depth zero exactly when it
/// has no parent, and a positive depth is one more than its parent's.
pub proof fn lemma_registry_depth_consistency(m: SubAgentManager, i: int)
    requires
        m.wf(),
        0 <= i < m.entries@.len(),
    ensures
        (m.entries@[i].info.depth == 0) <==> (m.entries@[i].info.parent_id is None),
        m.entries@[i].info.parent_id matches Some(pid) ==> exists|j: int|
            0 <= j < m.entries@.len() && #[trigger] m.id_at(j) == pid@ && m.entries@[j].info.depth
                + 1 == m.entries@[i].info.depth,
        m.entries@.len() <= m.max_total,
        m.entries@[i].info.depth <= m.max_depth,
{
    assert(m.entry_wf(i));
    match m.entries@[i].info.parent_id {
        None => {},
        Some(pid) => {
            let j = choose|j: int|
                0 <= j < m.entries@.len() && #[trigger] m.id_at(j) == pid@
                    && m.entries@[j].info.depth + 1 == m.entries@[i].info.depth;
            assert(m.entries@[j].info.depth >= 0);
        },
    }
}

/// Law: in a well-formed registry every terminal entry carries its
/// completion timestamp, and a running one carries none.
pub proof fn lemma_registry_terminal_timestamps(m: SubAgentManager, i: int)
    requires
        m.wf(),
        0 <= i < m.entries@.len(),
    ensures
        is_terminal(m.entries@[i].info.status) <==> (m.entries@[i].info.completed_at is Some),
{
    assert(m.entry_wf(i));
}

/// Two kinds agree, compared by text.
pub open spec fn kind_matches(a: SubAgentKind, b: SubAgentKind) -> bool {
    match (a, b) {
        (
            SubAgentKind::LlmSession { model: m1, goal: g1 },
            SubAgentKind::LlmSession { model: m2, goal: g2 },
        ) => m1@ == m2@ && g1@ == g2@,
        (
            SubAgentKind::BackgroundProcess { command: c1 },
            SubAgentKind::BackgroundProcess { command: c2 },
        ) => c1@ == c2@,
        _ => false,
    }
}

/// Two optional strings agree, compared by text.
pub open spec fn opt_str_matches(a: Option<String>, b: Option<String>) -> bool {
    match (a, b) {
        (Option::None, Option::None) => true,
        (Option::Some(x), Option::Some(y)) => x@ == y@,
        _ => false,
    }
}

/// Two info snapshots agree field by field, their strings compared by text.
pub open spec fn info_matches(a: SubAgentInfo, b: SubAgentInfo) -> bool {
    &&& a.id@ == b.id@
    &&& kind_matches(a.kind, b.kind)
    &&& opt_str_matches(a.parent_id, b.parent_id)
    &&& status_matches(a.status, b.status)
    &&& a.depth == b.depth
    &&& a.spawned_at@ == b.spawned_at@
    &&& opt_str_matches(a.completed_at, b.completed_at)
}

/// Copy an optional string.
fn clone_opt_str(v: &Option<String>) -> (r: Option<String>)
    ensures
        opt_str_matches(r, *v),
{
    match v {
        Some(s) => Some(s.clone()),
        None => None,
    }
}

/// Copy a status.
fn clone_status(v: &SubAgentStatus) -> (r: SubAgentStatus)
    ensures
        status_matches(r, *v),
{
    match v {
        SubAgentStatus::Running => SubAgentStatus::Running,
        SubAgentStatus::Completed => SubAgentStatus::Completed,
        SubAgentStatus::Failed(m) => SubAgentStatus::Failed(m.clone()),
        SubAgentStatus::Killed => SubAgentStatus::Killed,
    }
}

/// Copy a kind.
fn clone_kind(v: &SubAgentKind) -> (r: SubAgentKind)
    ensures
        kind_matches(r, *v),
{
    match v {
        SubAgentKind::LlmSession { model, goal } => SubAgentKind::LlmSession {
            model: model.clone(),
            goal: goal.clone(),
        },
        SubAgentKind::BackgroundProcess { command } => SubAgentKind::BackgroundProcess {
            command: command.clone(),
        },
    }
}

/// Snapshot an info record.
fn clone_info(v: &SubAgentInfo) -> (r: SubAgentInfo)
    ensures
        info_matches(r, *v),
{
    SubAgentInfo {
        id: v.id.clone(),
        kind: clone_kind(&v.kind),
        parent_id: clone_opt_str(&v.parent_id),
        status: clone_status(&v.status),
        depth: v.depth,
        spawned_at: v.spawned_at.clone(),
        completed_at: clone_opt_str(&v.completed_at),
    }
}

/// Whether an entry's parent is the given id.
pub open spec fn has_parent(e: SubAgentEntry, pid: Seq<char>) -> bool {
    e.info.parent_id matches Some(p) && p@ == pid
}

/// The infos of the entries whose parent is `pid`, in order.
pub open spec fn children_view(entries: Seq<SubAgentEntry>, pid: Seq<char>) -> Seq<SubAgentInfo>
    decreases entries.len(),
{
    if entries.len() == 0 {
        Seq::empty()
    } else if has_parent(entries[0], pid) {
        seq![entries[0].info] + children_view(entries.skip(1), pid)
    } else {
        children_view(entries.skip(1), pid)
    }
}

/// The infos of the root entries (no parent), in order.
pub open spec fn roots_view(entries: Seq<SubAgentEntry>) -> Seq<SubAgentInfo>
    decreases entries.len(),
{
    if entries.len() == 0 {
        Seq::empty()
    } else if entries[0].info.parent_id is None {
        seq![entries[0].info] + roots_view(entries.skip(1))
    } else {
        roots_view(entries.skip(1))
    }
}

impl SubAgentManager {
    /// Snapshots of every entry, in registration order.
    pub fn list_all(&self) -> (r: Vec<SubAgentInfo>)
        ensures
            r@.len() == self.entries@.len(),
            forall|i: int|
                0 <= i < r@.len() ==> info_matches(#[trigger] r@[i], self.entries@[i].info),
    {
        let n = self.entries.len();
        let mut out: Vec<SubAgentInfo> = Vec::new();
        let mut i: usize = 0;
        while i < n
            invariant
                n == self.entries@.len(),
                0 <= i <= n,
                out@.len() == i,
                forall|k: int|
                    0 <= k < i ==> info_matches(#[trigger] out@[k], self.entries@[k].info),
            decreases n - i,
        {
            let snap = clone_info(&self.entries[i].info);
            out.push(snap);
            i += 1;
        }
        out
    }

    /// Snapshots of the children of the given parent, in registration order.
    pub fn children_of(&self, parent_id: &String) -> (r: Vec<SubAgentInfo>)
        ensures
            r@.len() == children_view(self.entries@, parent_id@).len(),
            forall|i: int|
                0 <= i < r@.len() ==> info_matches(
                    #[trigger] r@[i],
                    children_view(self.entries@, parent_id@)[i],
                ),
    {
        let ghost target = children_view(self.entries@, parent_id@);
        let n = self.entries.len();
        let mut out: Vec<SubAgentInfo> = Vec::new();
        let mut i: usize = 0;
        proof {
            assert(self.entries@.skip(0) =~= self.entries@);
        }
        while i < n
            invariant
                n == self.entries@.len(),
                0 <= i <= n,
                target == children_view(self.entries@, parent_id@),
                out@.len() + children_view(self.entries@.skip(i as int), parent_id@).len()
                    == target.len(),
                forall|k: int|
                    0 <= k < out@.len() ==> info_matches(#[trigger] out@[k], target[k]),
                forall|k: int|
                    out@.len() <= k < target.len() ==> target[k] == children_view(
                        self.entries@.skip(i as int),
                        parent_id@,
                    )[k - out@.len()],
            decreases n - i,
        {
            proof {
                assert(self.entries@.skip(i as int)[0] == self.entries@[i as int]);
                assert(self.entries@.skip(i as int).skip(1) =~= self.entries@.skip(i + 1));
            }
            let is_child = match &self.entries[i].info.parent_id {
                Some(p) => p.eq(parent_id),
                None => false,
            };
            if is_child {
                let snap = clone_info(&self.entries[i].info);
                out.push(snap);
            }
            i += 1;
        }
        proof {
            assert(children_view(self.entries@.skip(n as int), parent_id@) =~= Seq::<
                SubAgentInfo,
            >::empty());
        }
        out
    }

    /// Snapshots of the root entries, in registration order.
    pub fn root_agents(&self) -> (r: Vec<SubAgentInfo>)
        ensures
            r@.len() == roots_view(self.entries@).len(),
            forall|i: int|
                0 <= i < r@.len() ==> info_matches(#[trigger] r@[i], roots_view(self.entries@)[i]),
    {
        let ghost target = roots_view(self.entries@);
        let n = self.entries.len();
        let mut out: Vec<SubAgentInfo> = Vec::new();
        let mut i: usize = 0;
        proof {
            assert(self.entries@.skip(0) =~= self.entries@);
        }
        while i < n
            invariant
                n == self.entries@.len(),
                0 <= i <= n,
                target == roots_view(self.entries@),
                out@.len() + roots_view(self.entries@.skip(i as int)).len() == target.len(),
                forall|k: int|
                    0 <= k < out@.len() ==> info_matches(#[trigger] out@[k], target[k]),
                forall|k: int|
                    out@.len() <= k < target.len() ==> target[k] == roots_view(
                        self.entries@.skip(i as int),
                    )[k - out@.len()],
            decreases n - i,
        {
            proof {
                assert(self.entries@.skip(i as int)[0] == self.entries@[i as int]);
                assert(self.entries@.skip(i as int).skip(1) =~= self.entries@.skip(i + 1));
            }
            let is_root = matches!(&self.entries[i].info.parent_id, None);
            if is_root {
                let snap = clone_info(&self.entries[i].info);
                out.push(snap);
            }
            i += 1;
        }
        proof {
            assert(roots_view(self.entries@.skip(n as int)) =~= Seq::<SubAgentInfo>::empty());
        }
        out
    }

    /// Return a stdin handle after a write, unless the entry vanished.
    pub fn put_stdin(&mut self, id: &String, stdin: tokio::process::ChildStdin)
        requires
            old(self).wf(),
        ensures
            final(self).wf(),
            final(self).entries@.len() == old(self).entries@.len(),
            old(self).find_spec(id@) is None ==> *final(self) == *old(self),
            forall|i: int|
                old(self).find_spec(id@) != Some(i) && 0 <= i < final(self).entries@.len()
                    ==> #[trigger] final(self).entries@[i] == old(self).entries@[i],
            old(self).find_spec(id@) matches Some(i) ==> final(self).entries@[i]
                == (SubAgentEntry { stdin_handle: Some(stdin), ..old(self).entries@[i] }),
    {
        if let Some(i) = self.find_index(id) {
            let ghost pre = *self;
            proof {
                lemma_find_unique(pre, id@, i as int);
            }
            self.entries[i].stdin_handle = Some(stdin);
            proof {
                lemma_same_infos_wf(pre, *self);
            }
        }
    }
}

/// A bounded buffer of captured output lines: the oldest lines leave when
/// the capacity is reached.
pub struct OutputRing {
    pub lines: Vec<String>,
    pub capacity: usize,
}

impl OutputRing {
    /// An empty ring with the given capacity.
    pub fn new(capacity: usize) -> (r: OutputRing)
        ensures
            r.lines@.len() == 0,
            r.capacity == capacity,
    {
        OutputRing { lines: Vec::new(), capacity }
    }

    /// Append a line, evicting the oldest one at capacity.
    pub fn push_line(&mut self, line: String)
        requires
            old(self).lines@.len() <= old(self).capacity,
        ensures
            final(self).capacity == old(self).capacity,
            final(self).lines@.len() <= final(self).capacity || final(self).capacity == 0,
            old(self).lines@.len() < old(self).capacity ==> final(self).lines@ == old(self).lines@.push(line),
            old(self).lines@.len() == old(self).capacity && old(self).capacity > 0 ==> final(self).lines@ == old(self).lines@.skip(1).push(line),
    {
        if self.capacity == 0 {
            return ;
        }
        if self.lines.len() >= self.capacity {
            self.lines.remove(0);
            proof {
                assert(self.lines@ =~= old(self).lines@.skip(1));
            }
        }
        self.lines.push(line);
    }

    /// The last `tail` lines, in order.
    pub fn tail_lines(&self, tail: usize) -> (r: Vec<String>)
        ensures
            r@ == if tail <= self.lines@.len() {
                self.lines@.skip(self.lines@.len() - tail)
            } else {
                self.lines@
            },
    {
        let len = self.lines.len();
        let start = if tail <= len {
            len - tail
        } else {
            0
        };
        let mut out: Vec<String> = Vec::new();
        let mut i = start;
        while i < len
            invariant
                len == self.lines@.len(),
                start <= i <= len,
                out@ =~= self.lines@.subrange(start as int, i as int),
            decreases len - i,
        {
            out.push(self.lines[i].clone());
            proof {
                assert(out@ =~= self.lines@.subrange(start as int, i + 1));
            }
            i += 1;
        }
        proof {
            if tail <= len {
                assert(self.lines@.subrange(start as int, len as int) =~= self.lines@.skip(
                    len - tail,
                ));
            } else {
                assert(self.lines@.subrange(0, len as int) =~= self.lines@);
            }
        }
        out
    }
}

} // verus!

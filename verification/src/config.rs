//! Configuration records and the three-layer merge: command-line overrides
//! beat the workspace configuration, which beats the user configuration,
//! and built-in defaults fill what remains.
//!
//! Reading and parsing the configuration files is I/O at the application
//! edge; the merge and the defaults are decided here. Paths travel as plain
//! strings and thresholds as thousandths of the context limit.

use vstd::prelude::*;

use crate::defaults::default_blocklist;
use crate::defaults::default_blocklist_patterns;
use crate::defaults::default_blocklist_reasons;

verus! {

/// The general section of a configuration file.
pub struct GeneralConfig {
    pub model: Option<String>,
    pub workspace: Option<String>,
}

/// The safety section of a configuration file.
pub struct SafetyConfig {
    pub shell_timeout_secs: Option<u64>,
    pub context_limit: Option<u64>,
    /// When set in any layer, replaces the default blocklist entirely.
    pub blocked_patterns: Option<Vec<BlocklistEntry>>,
    pub security_log: Option<String>,
}

/// One blocklist entry of a configuration file.
pub struct BlocklistEntry {
    pub pattern: String,
    pub reason: String,
}

/// The context section of a configuration file.
pub struct ContextConfig {
    pub soft_threshold_permille: Option<u64>,
    pub hard_threshold_permille: Option<u64>,
    pub carryover_turns: Option<usize>,
    pub max_restarts: Option<u32>,
    pub auto_restart: Option<bool>,
    pub max_sleep_duration_secs: Option<u64>,
}

/// The web section of a configuration file: search-provider knobs.
pub struct WebConfig {
    pub ddg_rate_limit_ms: Option<u64>,
    pub brave_rate_limit_ms: Option<u64>,
    pub brave_api_key: Option<String>,
}

/// A partially resolved configuration: every field optional, so a missing
/// value never overrides a lower-priority layer.
pub struct PartialConfig {
    pub model: Option<String>,
    pub workspace: Option<String>,
    pub shell_timeout_secs: Option<u64>,
    pub context_limit: Option<u64>,
    pub blocked_patterns: Option<Vec<(String, String)>>,
    pub security_log_path: Option<String>,
    pub soft_threshold_permille: Option<u64>,
    pub hard_threshold_permille: Option<u64>,
    pub carryover_turns: Option<usize>,
    pub max_restarts: Option<Option<u32>>,
    pub auto_restart: Option<bool>,
    pub max_sleep_duration_secs: Option<u64>,
    pub ddg_rate_limit_ms: Option<u64>,
    pub brave_rate_limit_ms: Option<u64>,
    pub brave_api_key: Option<Option<String>>,
}

/// The fully resolved runtime configuration: every field has a value.
pub struct AppConfig {
    pub model: String,
    pub workspace: String,
    pub shell_timeout_secs: u64,
    pub context_limit: u64,
    pub blocked_patterns: Vec<(String, String)>,
    pub security_log_path: String,
    pub soft_threshold_permille: u64,
    pub hard_threshold_permille: u64,
    pub carryover_turns: usize,
    pub max_restarts: Option<u32>,
    pub auto_restart: bool,
    pub max_sleep_duration_secs: u64,
    pub ddg_rate_limit_ms: u64,
    pub brave_rate_limit_ms: u64,
    pub brave_api_key: Option<String>,
}

impl PartialConfig {
    /// A configuration with nothing set.
    pub fn empty() -> (r: PartialConfig)
        ensures
            r.model is None,
            r.workspace is None,
            r.shell_timeout_secs is None,
            r.context_limit is None,
            r.blocked_patterns is None,
            r.security_log_path is None,
            r.soft_threshold_permille is None,
            r.hard_threshold_permille is None,
            r.carryover_turns is None,
            r.max_restarts is None,
            r.auto_restart is None,
            r.max_sleep_duration_secs is None,
            r.ddg_rate_limit_ms is None,
            r.brave_rate_limit_ms is None,
            r.brave_api_key is None,
    {
        PartialConfig {
            model: None,
            workspace: None,
            shell_timeout_secs: None,
            context_limit: None,
            blocked_patterns: None,
            security_log_path: None,
            soft_threshold_permille: None,
            hard_threshold_permille: None,
            carryover_turns: None,
            max_restarts: None,
            auto_restart: None,
            max_sleep_duration_secs: None,
            ddg_rate_limit_ms: None,
            brave_rate_limit_ms: None,
            brave_api_key: None,
        }
    }

    /// Merge with a lower-priority fallback: every set field of `self` wins,
    /// every unset one takes the fallback's value. A set blocklist replaces
    /// the fallback's entirely — the lists are never merged.
    pub fn with_fallback(self, fallback: PartialConfig) -> (r: PartialConfig)
        ensures
            r.model == if self.model is Some {
                self.model
            } else {
                fallback.model
            },
            r.workspace == if self.workspace is Some {
                self.workspace
            } else {
                fallback.workspace
            },
            r.shell_timeout_secs == if self.shell_timeout_secs is Some {
                self.shell_timeout_secs
            } else {
                fallback.shell_timeout_secs
            },
            r.context_limit == if self.context_limit is Some {
                self.context_limit
            } else {
                fallback.context_limit
            },
            r.blocked_patterns == if self.blocked_patterns is Some {
                self.blocked_patterns
            } else {
                fallback.blocked_patterns
            },
            r.security_log_path == if self.security_log_path is Some {
                self.security_log_path
            } else {
                fallback.security_log_path
            },
            r.soft_threshold_permille == if self.soft_threshold_permille is Some {
                self.soft_threshold_permille
            } else {
                fallback.soft_threshold_permille
            },
            r.hard_threshold_permille == if self.hard_threshold_permille is Some {
                self.hard_threshold_permille
            } else {
                fallback.hard_threshold_permille
            },
            r.carryover_turns == if self.carryover_turns is Some {
                self.carryover_turns
            } else {
                fallback.carryover_turns
            },
            r.max_restarts == if self.max_restarts is Some {
                self.max_restarts
            } else {
                fallback.max_restarts
            },
            r.auto_restart == if self.auto_restart is Some {
                self.auto_restart
            } else {
                fallback.auto_restart
            },
            r.max_sleep_duration_secs == if self.max_sleep_duration_secs is Some {
                self.max_sleep_duration_secs
            } else {
                fallback.max_sleep_duration_secs
            },
            r.ddg_rate_limit_ms == if self.ddg_rate_limit_ms is Some {
                self.ddg_rate_limit_ms
            } else {
                fallback.ddg_rate_limit_ms
            },
            r.brave_rate_limit_ms == if self.brave_rate_limit_ms is Some {
                self.brave_rate_limit_ms
            } else {
                fallback.brave_rate_limit_ms
            },
            r.brave_api_key == if self.brave_api_key is Some {
                self.brave_api_key
            } else {
                fallback.brave_api_key
            },
    {
        PartialConfig {
            model: or_opt(self.model, fallback.model),
            workspace: or_opt(self.workspace, fallback.workspace),
            shell_timeout_secs: or_opt(self.shell_timeout_secs, fallback.shell_timeout_secs),
            context_limit: or_opt(self.context_limit, fallback.context_limit),
            blocked_patterns: or_opt(self.blocked_patterns, fallback.blocked_patterns),
            security_log_path: or_opt(self.security_log_path, fallback.security_log_path),
            soft_threshold_permille: or_opt(
                self.soft_threshold_permille,
                fallback.soft_threshold_permille,
            ),
            hard_threshold_permille: or_opt(
                self.hard_threshold_permille,
                fallback.hard_threshold_permille,
            ),
            carryover_turns: or_opt(self.carryover_turns, fallback.carryover_turns),
            max_restarts: or_opt(self.max_restarts, fallback.max_restarts),
            auto_restart: or_opt(self.auto_restart, fallback.auto_restart),
            max_sleep_duration_secs: or_opt(
                self.max_sleep_duration_secs,
                fallback.max_sleep_duration_secs,
            ),
            ddg_rate_limit_ms: or_opt(self.ddg_rate_limit_ms, fallback.ddg_rate_limit_ms),
            brave_rate_limit_ms: or_opt(self.brave_rate_limit_ms, fallback.brave_rate_limit_ms),
            brave_api_key: or_opt(self.brave_api_key, fallback.brave_api_key),
        }
    }

    /// Resolve to a full configuration, filling the gaps with the built-in
    /// defaults. The security log defaults to a file inside the workspace.
    pub fn finalize(self) -> (r: AppConfig)
        ensures
            r.model@ == match self.model {
                Some(m) => m@,
                None => "llama3.2"@,
            },
            r.workspace@ == match self.workspace {
                Some(w) => w@,
                None => "./workspace"@,
            },
            r.shell_timeout_secs == match self.shell_timeout_secs {
                Some(t) => t,
                None => 30u64,
            },
            r.context_limit == match self.context_limit {
                Some(c) => c,
                None => 32768u64,
            },
            self.blocked_patterns matches Some(b) ==> r.blocked_patterns == b,
            self.blocked_patterns is None ==> r.blocked_patterns@.map_values(
                |p: (String, String)| p.0@,
            ) == default_blocklist_patterns() && r.blocked_patterns@.map_values(
                |p: (String, String)| p.1@,
            ) == default_blocklist_reasons(),
            r.security_log_path@ == match self.security_log_path {
                Some(p) => p@,
                None => (match self.workspace {
                    Some(w) => w@,
                    None => "./workspace"@,
                }) + "/security.log"@,
            },
            r.soft_threshold_permille == match self.soft_threshold_permille {
                Some(s) => s,
                None => 700u64,
            },
            r.hard_threshold_permille == match self.hard_threshold_permille {
                Some(h) => h,
                None => 900u64,
            },
            r.carryover_turns == match self.carryover_turns {
                Some(c) => c,
                None => 5usize,
            },
            r.max_restarts == match self.max_restarts {
                Some(m) => m,
                None => None,
            },
            r.auto_restart == match self.auto_restart {
                Some(a) => a,
                None => true,
            },
            r.max_sleep_duration_secs == match self.max_sleep_duration_secs {
                Some(v) => v,
                None => 3600u64,
            },
            r.ddg_rate_limit_ms == match self.ddg_rate_limit_ms {
                Some(v) => v,
                None => 2000u64,
            },
            r.brave_rate_limit_ms == match self.brave_rate_limit_ms {
                Some(v) => v,
                None => 1000u64,
            },
            r.brave_api_key == match self.brave_api_key {
                Some(k) => k,
                None => None::<String>,
            },
    {
        let workspace: String = match self.workspace {
            Some(w) => w,
            None => "./workspace".to_owned(),
        };
        let security_log_path: String = match self.security_log_path {
            Some(p) => p,
            None => {
                let mut p = workspace.clone();
                p.append("/security.log");
                p
            },
        };
        let blocked_patterns: Vec<(String, String)> = match self.blocked_patterns {
            Some(b) => b,
            None => default_blocklist(),
        };
        AppConfig {
            model: match self.model {
                Some(m) => m,
                None => "llama3.2".to_owned(),
            },
            workspace,
            shell_timeout_secs: match self.shell_timeout_secs {
                Some(t) => t,
                None => 30,
            },
            context_limit: match self.context_limit {
                Some(c) => c,
                None => 32768,
            },
            blocked_patterns,
            security_log_path,
            soft_threshold_permille: match self.soft_threshold_permille {
                Some(s) => s,
                None => 700,
            },
            hard_threshold_permille: match self.hard_threshold_permille {
                Some(h) => h,
                None => 900,
            },
            carryover_turns: match self.carryover_turns {
                Some(c) => c,
                None => 5,
            },
            max_restarts: match self.max_restarts {
                Some(m) => m,
                None => None,
            },
            auto_restart: match self.auto_restart {
                Some(a) => a,
                None => true,
            },
            max_sleep_duration_secs: match self.max_sleep_duration_secs {
                Some(v) => v,
                None => 3600,
            },
            ddg_rate_limit_ms: match self.ddg_rate_limit_ms {
                Some(v) => v,
                None => 2000,
            },
            brave_rate_limit_ms: match self.brave_rate_limit_ms {
                Some(v) => v,
                None => 1000,
            },
            brave_api_key: match self.brave_api_key {
                Some(k) => k,
                None => None,
            },
        }
    }
}

/// The first option when set, else the second.
fn or_opt<T>(a: Option<T>, b: Option<T>) -> (r: Option<T>)
    ensures
        r == if a is Some {
            a
        } else {
            b
        },
{
    match a {
        Some(v) => Some(v),
        None => b,
    }
}

/// The restart policy of the outer session loop.
#[derive(Debug, PartialEq, Eq, Structural)]
pub enum RestartDecision {
    /// Start the next session at once.
    Restart,
    /// Ask the operator before restarting.
    AskOperator,
    /// The restart bound is reached: stop.
    Stop,
}

/// Decide what the outer loop does when a session ends with a full context:
/// stop at the restart bound, ask the operator when automatic restarts are
/// off, else restart.
pub fn restart_decision(session_number: u32, max_restarts: Option<u32>, auto_restart: bool) -> (r:
    RestartDecision)
    ensures
        r == (if (max_restarts matches Some(m) && session_number >= m) {
            RestartDecision::Stop
        } else if !auto_restart {
            RestartDecision::AskOperator
        } else {
            RestartDecision::Restart
        }),
{
    match max_restarts {
        Some(m) => {
            if session_number >= m {
                return RestartDecision::Stop;
            }
        },
        None => {},
    }
    if !auto_restart {
        RestartDecision::AskOperator
    } else {
        RestartDecision::Restart
    }
}

} // verus!

//! Context management: token accounting, graduated pressure thresholds, and
//! the restart trigger.
//!
//! The session loop consults the [`ContextManager`] after every turn to
//! decide whether to continue, mask old observations, tell the agent to wind
//! down, or restart the session.
//!
//! Key design points:
//! - `prompt_tokens` as reported by the model is already the full context
//!   size, so it is set, never accumulated.
//! - A character-count fallback (1 token per 4 characters) applies while no
//!   token counts have been reported.
//! - Thresholds are fractions of the context limit, held in thousandths so
//!   that the comparison is exact integer arithmetic.

use vstd::prelude::*;

verus! {

/// Number of observations masked per masking round.
pub const MASK_BATCH_SIZE: usize = 3;

/// Action the session loop should take, based on current context pressure.
#[derive(Debug, PartialEq, Eq, Structural)]
pub enum ContextAction {
    /// Context is healthy: proceed normally.
    Continue,
    /// Soft threshold reached: mask `count` oldest unmasked observations.
    Mask { count: usize },
    /// Hard threshold reached for the first time: tell the agent to wrap up.
    WindDown,
    /// Hard threshold reached again after wind-down: restart the session.
    Restart,
}

/// Outcome of one masking round.
#[derive(Debug, PartialEq, Eq, Structural)]
pub struct MaskResult {
    /// Number of observations masked in this round.
    pub masked_count: usize,
    /// Total observations masked across the entire session.
    pub total_masked: usize,
}

/// Tracks token usage and evaluates context pressure thresholds.
pub struct ContextManager {
    /// Model context window size in tokens. Positive.
    pub context_limit: u64,
    /// Fraction of the limit (in thousandths) at which masking begins.
    pub soft_threshold_permille: u64,
    /// Fraction of the limit (in thousandths) at which wind-down / restart triggers.
    pub hard_threshold_permille: u64,
    /// Number of recent turns to preserve during restart carryover.
    pub carryover_turns: usize,
    /// Latest prompt token count reported by the model. A level, not a sum.
    pub prompt_tokens: u64,
    /// Cumulative completion tokens across the session, for logging.
    pub completion_tokens_total: u64,
    /// Fallback character count, used while no token counts were reported.
    pub total_chars: u64,
    /// Total observations masked so far this session.
    pub masked_count: usize,
    /// 1-based session number, incremented on restart.
    pub session_number: u32,
    /// Turns completed in the current session.
    pub turn_count: u64,
    /// Whether a `WindDown` action has already been issued this session.
    pub wind_down_sent: bool,
}

impl ContextManager {
    /// The thresholds are ordered fractions of a positive limit.
    pub open spec fn wf(self) -> bool {
        &&& self.context_limit > 0
        &&& self.soft_threshold_permille < self.hard_threshold_permille
        &&& self.hard_threshold_permille < 1000
    }

    /// The token level pressure is measured against: the reported prompt
    /// tokens when available, else the character fallback at 4 chars a token.
    pub open spec fn effective_tokens(self) -> int {
        if self.prompt_tokens > 0 {
            self.prompt_tokens as int
        } else {
            self.total_chars as int / 4
        }
    }

    /// Whether usage has reached the given fraction (in thousandths) of the
    /// context limit.
    pub open spec fn reaches(self, threshold_permille: int) -> bool {
        self.effective_tokens() * 1000 >= threshold_permille * self.context_limit
    }

    /// The action `evaluate` returns in state `self`.
    pub open spec fn action_spec(self) -> ContextAction {
        if self.reaches(self.hard_threshold_permille as int) {
            if self.wind_down_sent {
                ContextAction::Restart
            } else {
                ContextAction::WindDown
            }
        } else if self.reaches(self.soft_threshold_permille as int) {
            ContextAction::Mask { count: MASK_BATCH_SIZE }
        } else {
            ContextAction::Continue
        }
    }

    /// The state `evaluate` leaves behind: only the one-shot wind-down flag
    /// can change, and it only rises.
    pub open spec fn after_evaluate(self) -> ContextManager {
        ContextManager {
            wind_down_sent: self.wind_down_sent || self.reaches(
                self.hard_threshold_permille as int,
            ),
            ..self
        }
    }

    /// Create a manager with the given limit and thresholds. `session_number`
    /// starts at 1 and all counters start at zero.
    pub fn new(
        context_limit: u64,
        soft_threshold_permille: u64,
        hard_threshold_permille: u64,
        carryover_turns: usize,
    ) -> (r: ContextManager)
        requires
            context_limit > 0,
            soft_threshold_permille < hard_threshold_permille,
            hard_threshold_permille < 1000,
        ensures
            r.wf(),
            r == (ContextManager {
                context_limit,
                soft_threshold_permille,
                hard_threshold_permille,
                carryover_turns,
                prompt_tokens: 0,
                completion_tokens_total: 0,
                total_chars: 0,
                masked_count: 0,
                session_number: 1,
                turn_count: 0,
                wind_down_sent: false,
            }),
    {
        ContextManager {
            context_limit,
            soft_threshold_permille,
            hard_threshold_permille,
            carryover_turns,
            prompt_tokens: 0,
            completion_tokens_total: 0,
            total_chars: 0,
            masked_count: 0,
            session_number: 1,
            turn_count: 0,
            wind_down_sent: false,
        }
    }

    /// Record token usage from the latest model response. The prompt count is
    /// set (never added), because it already reflects the full context size;
    /// the completion count accumulates for logging.
    pub fn update_token_usage(&mut self, prompt_tokens: u64, completion_tokens: u64)
        ensures
            final(self).prompt_tokens == prompt_tokens,
            final(self).completion_tokens_total == if old(
                self,
            ).completion_tokens_total + completion_tokens <= u64::MAX {
                old(self).completion_tokens_total + completion_tokens
            } else {
                u64::MAX as int
            },
            *final(self) == (ContextManager {
                prompt_tokens: final(self).prompt_tokens,
                completion_tokens_total: final(self).completion_tokens_total,
                ..*old(self)
            }),
    {
        self.prompt_tokens = prompt_tokens;
        self.completion_tokens_total = self.completion_tokens_total.saturating_add(
            completion_tokens,
        );
    }

    /// Add characters to the fallback counter, used while the model reports
    /// no token counts.
    pub fn add_chars(&mut self, chars: u64)
        ensures
            final(self).total_chars == if old(self).total_chars + chars <= u64::MAX {
                old(self).total_chars + chars
            } else {
                u64::MAX as int
            },
            *final(self) == (ContextManager { total_chars: final(self).total_chars, ..*old(self) }),
    {
        self.total_chars = self.total_chars.saturating_add(chars);
    }

    /// Current usage as thousandths of the context limit, saturating at
    /// `u64::MAX`.
    pub fn usage_permille(&self) -> (r: u64)
        requires
            self.wf(),
        ensures
            r == if self.effective_tokens() * 1000 / self.context_limit as int <= u64::MAX {
                self.effective_tokens() * 1000 / self.context_limit as int
            } else {
                u64::MAX as int
            },
    {
        let eff: u64 = if self.prompt_tokens > 0 {
            self.prompt_tokens
        } else {
            self.total_chars / 4
        };
        let q: u128 = (eff as u128) * 1000 / (self.context_limit as u128);
        if q > u64::MAX as u128 {
            u64::MAX
        } else {
            q as u64
        }
    }

    /// Evaluate context pressure, in priority order: at or above the hard
    /// threshold a `WindDown` is issued exactly once and every later
    /// evaluation returns `Restart`; at or above the soft threshold a masking
    /// round of [`MASK_BATCH_SIZE`] is requested; otherwise `Continue`.
    pub fn evaluate(&mut self) -> (r: ContextAction)
        requires
            old(self).wf(),
        ensures
            r == old(self).action_spec(),
            *final(self) == old(self).after_evaluate(),
            final(self).wf(),
    {
        let eff: u64 = if self.prompt_tokens > 0 {
            self.prompt_tokens
        } else {
            self.total_chars / 4
        };
        let scaled: u128 = (eff as u128) * 1000;
        proof {
            lemma_mul_bound(
                self.hard_threshold_permille as int,
                self.context_limit as int,
                u64::MAX as int,
                u64::MAX as int,
            );
            lemma_mul_bound(
                self.soft_threshold_permille as int,
                self.context_limit as int,
                u64::MAX as int,
                u64::MAX as int,
            );
        }
        if scaled >= (self.hard_threshold_permille as u128) * (self.context_limit as u128) {
            if self.wind_down_sent {
                return ContextAction::Restart;
            }
            self.wind_down_sent = true;
            return ContextAction::WindDown;
        }

        if scaled >= (self.soft_threshold_permille as u128) * (self.context_limit as u128) {
            return ContextAction::Mask { count: MASK_BATCH_SIZE };
        }

        ContextAction::Continue
    }

    /// Count a completed turn.
    pub fn increment_turn(&mut self)
        ensures
            final(self).turn_count == if old(self).turn_count + 1 <= u64::MAX {
                old(self).turn_count + 1
            } else {
                u64::MAX as int
            },
            *final(self) == (ContextManager { turn_count: final(self).turn_count, ..*old(self) }),
    {
        self.turn_count = self.turn_count.saturating_add(1);
    }

    /// Prepare for a session restart: advance the session number and reset
    /// every per-session counter, the wind-down flag included.
    pub fn prepare_restart(&mut self)
        requires
            old(self).session_number < u32::MAX,
        ensures
            *final(self) == (ContextManager {
                session_number: (old(self).session_number + 1) as u32,
                prompt_tokens: 0,
                completion_tokens_total: 0,
                total_chars: 0,
                turn_count: 0,
                masked_count: 0,
                wind_down_sent: false,
                ..*old(self)
            }),
    {
        self.session_number = self.session_number + 1;
        self.prompt_tokens = 0;
        self.completion_tokens_total = 0;
        self.total_chars = 0;
        self.turn_count = 0;
        self.masked_count = 0;
        self.wind_down_sent = false;
    }

    /// Current session number (1-based).
    pub fn session_number(&self) -> (r: u32)
        ensures
            r == self.session_number,
    {
        self.session_number
    }

    /// Turns completed in the current session.
    pub fn turn_count(&self) -> (r: u64)
        ensures
            r == self.turn_count,
    {
        self.turn_count
    }

    /// Total observations masked this session.
    pub fn masked_count(&self) -> (r: usize)
        ensures
            r == self.masked_count,
    {
        self.masked_count
    }

    /// Latest prompt token level reported by the model.
    pub fn prompt_tokens(&self) -> (r: u64)
        ensures
            r == self.prompt_tokens,
    {
        self.prompt_tokens
    }

    /// Number of recent turns to carry over on restart.
    pub fn carryover_turns(&self) -> (r: usize)
        ensures
            r == self.carryover_turns,
    {
        self.carryover_turns
    }
}

proof fn lemma_mul_bound(a: int, b: int, ma: int, mb: int)
    requires
        0 <= a <= ma,
        0 <= b <= mb,
    ensures
        a * b <= ma * mb,
{
    assert(a * b <= ma * mb) by (nonlinear_arith)
        requires
            0 <= a <= ma,
            0 <= b <= mb,
    ;
}

/// Law: the wind-down action is issued at most once per session. It is
/// returned only while the one-shot flag is clear and it sets the flag;
/// once the flag stands, evaluation never issues it again, never clears the
/// flag, and at or above the hard threshold it returns `Restart`.
pub proof fn lemma_wind_down_at_most_once(s: ContextManager)
    ensures
        s.action_spec() == ContextAction::WindDown ==> !s.wind_down_sent
            && s.after_evaluate().wind_down_sent,
        s.wind_down_sent ==> s.after_evaluate().wind_down_sent && s.action_spec()
            != ContextAction::WindDown,
        s.wind_down_sent && s.reaches(s.hard_threshold_permille as int) ==> s.action_spec()
            == ContextAction::Restart,
{
}

} // verus!

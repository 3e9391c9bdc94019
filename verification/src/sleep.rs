//! Agent-initiated pauses, with three resume modes: a fixed timer, the
//! completion of a named sub-agent, or a manual resume by the operator.
//!
//! The clock is I/O: callers pass the current time in, so every decision
//! here is a function of its arguments.

use vstd::prelude::*;

use crate::strutil::dec_digits;
use crate::strutil::push_dec_u64;
use crate::tools::ToolArgs;

verus! {

/// How the agent wakes from a sleep.
#[derive(Debug)]
pub enum SleepMode {
    /// Sleep for a fixed number of seconds.
    Timer(u64),
    /// Sleep until the named sub-agent or process completes.
    Event { agent_id: String },
    /// Sleep until the operator resumes.
    Manual,
}

/// The state of an active (or just ended) sleep.
#[derive(Debug)]
pub struct SleepState {
    /// Whether the sleep is currently active.
    pub active: bool,
    /// The wake condition.
    pub mode: SleepMode,
    /// When the sleep started, in milliseconds of the caller's clock.
    pub started_at_ms: u64,
    /// The cap on this sleep, in seconds.
    pub max_duration_secs: u64,
    /// Why the agent woke, once it did.
    pub wake_reason: Option<String>,
}

/// The display of a duration: hours, minutes and seconds, the larger units
/// only when present.
pub open spec fn format_duration_spec(total_secs: int) -> Seq<char> {
    let h = total_secs / 3600;
    let m = (total_secs % 3600) / 60;
    let s = total_secs % 60;
    if h > 0 {
        dec_digits(h as nat) + "h "@ + dec_digits(m as nat) + "m "@ + dec_digits(s as nat) + "s"@
    } else if m > 0 {
        dec_digits(m as nat) + "m "@ + dec_digits(s as nat) + "s"@
    } else {
        dec_digits(s as nat) + "s"@
    }
}

/// Format a duration in seconds for display.
pub fn format_duration(total_secs: u64) -> (r: String)
    ensures
        r@ == format_duration_spec(total_secs as int),
{
    let hours = total_secs / 3600;
    let minutes = (total_secs % 3600) / 60;
    let seconds = total_secs % 60;
    let mut out = String::new();
    if hours > 0 {
        push_dec_u64(&mut out, hours);
        out.append("h ");
        push_dec_u64(&mut out, minutes);
        out.append("m ");
        push_dec_u64(&mut out, seconds);
        out.append("s");
        proof {
            assert(out@ =~= format_duration_spec(total_secs as int));
        }
    } else if minutes > 0 {
        push_dec_u64(&mut out, minutes);
        out.append("m ");
        push_dec_u64(&mut out, seconds);
        out.append("s");
        proof {
            assert(out@ =~= format_duration_spec(total_secs as int));
        }
    } else {
        push_dec_u64(&mut out, seconds);
        out.append("s");
        proof {
            assert(out@ =~= format_duration_spec(total_secs as int));
        }
    }
    out
}

impl SleepState {
    /// How many milliseconds this sleep has been running at time `now_ms`.
    pub open spec fn elapsed_spec(self, now_ms: u64) -> int {
        if now_ms >= self.started_at_ms {
            now_ms - self.started_at_ms
        } else {
            0
        }
    }

    /// The display shown while sleeping: the remaining timer, the awaited
    /// agent, or the manual pause.
    pub open spec fn display_spec(self, now_ms: u64) -> Seq<char> {
        match self.mode {
            SleepMode::Timer(d) => {
                if self.elapsed_spec(now_ms) / 1000 >= d {
                    "Timer expired"@
                } else {
                    format_duration_spec(d - self.elapsed_spec(now_ms) / 1000)
                }
            },
            SleepMode::Event { agent_id } => "Waiting: agent "@ + agent_id@,
            SleepMode::Manual => "Manual pause"@,
        }
    }

    /// Begin an active sleep at time `now_ms`, capped at
    /// `max_duration_secs`.
    pub fn new(mode: SleepMode, max_duration_secs: u64, now_ms: u64) -> (r: SleepState)
        ensures
            r.active,
            r.mode == mode,
            r.started_at_ms == now_ms,
            r.max_duration_secs == max_duration_secs,
            r.wake_reason is None,
    {
        SleepState { active: true, mode, started_at_ms: now_ms, max_duration_secs, wake_reason: None }
    }

    /// How long the agent has been sleeping, in milliseconds.
    pub fn elapsed_ms(&self, now_ms: u64) -> (r: u64)
        ensures
            r == self.elapsed_spec(now_ms),
    {
        if now_ms >= self.started_at_ms {
            now_ms - self.started_at_ms
        } else {
            0
        }
    }

    /// Human-readable remaining time or status for display.
    pub fn remaining_display(&self, now_ms: u64) -> (r: String)
        ensures
            r@ == self.display_spec(now_ms),
    {
        match &self.mode {
            SleepMode::Timer(d) => {
                let elapsed_secs = self.elapsed_ms(now_ms) / 1000;
                if elapsed_secs >= *d {
                    "Timer expired".to_owned()
                } else {
                    format_duration(*d - elapsed_secs)
                }
            },
            SleepMode::Event { agent_id } => {
                let mut out = String::new();
                out.append("Waiting: agent ");
                out.append(agent_id.as_str());
                out
            },
            SleepMode::Manual => "Manual pause".to_owned(),
        }
    }

    /// Whether the sleep has outrun its cap.
    pub fn is_expired(&self, now_ms: u64) -> (r: bool)
        ensures
            r == (self.elapsed_spec(now_ms) >= self.max_duration_secs * 1000),
    {
        let elapsed = self.elapsed_ms(now_ms) as u128;
        proof {
            assert((self.max_duration_secs as u128) * 1000 == self.max_duration_secs * 1000)
                by (nonlinear_arith);
        }
        elapsed >= (self.max_duration_secs as u128) * 1000
    }

    /// Wake the agent, recording the reason.
    pub fn wake(&mut self, reason: &str)
        ensures
            !final(self).active,
            final(self).wake_reason matches Some(w) && w@ == reason@,
            final(self).mode == old(self).mode,
            final(self).started_at_ms == old(self).started_at_ms,
            final(self).max_duration_secs == old(self).max_duration_secs,
    {
        self.active = false;
        self.wake_reason = Some(reason.to_owned());
    }
}

/// Parse the sleep tool's arguments into a ready sleep state, its duration
/// clamped to the configured maximum. `timer` requires a positive
/// `duration_secs`; `event` a non-empty `agent_id`; anything else but
/// `manual` is rejected.
pub fn parse_sleep_args(args: &ToolArgs, max_sleep_duration_secs: u64, now_ms: u64) -> (r: Result<
    SleepState,
    String,
>)
    ensures
        match args.str_arg("mode"@) {
            None => r matches Err(e) && e@ == "sleep: missing required 'mode' field"@,
            Some(mode) => {
                if mode == "timer"@ {
                    match args.uint_arg("duration_secs"@) {
                        None => r matches Err(e) && e@
                            == "sleep: timer mode requires 'duration_secs' (positive integer)"@,
                        Some(secs) => {
                            if secs == 0 {
                                r matches Err(e) && e@
                                    == "sleep: duration_secs must be greater than 0"@
                            } else {
                                r matches Ok(st) && st.active && (st.mode matches SleepMode::Timer(
                                    d,
                                ) && d == secs) && st.started_at_ms == now_ms
                                    && st.max_duration_secs == (if secs
                                    <= max_sleep_duration_secs {
                                    secs
                                } else {
                                    max_sleep_duration_secs
                                }) && st.wake_reason is None
                            }
                        },
                    }
                } else if mode == "event"@ {
                    match args.str_arg("agent_id"@) {
                        None => r matches Err(e) && e@
                            == "sleep: event mode requires 'agent_id' (string)"@,
                        Some(aid) => {
                            if aid.len() == 0 {
                                r matches Err(e) && e@ == "sleep: agent_id must not be empty"@
                            } else {
                                r matches Ok(st) && st.active && (st.mode
                                    matches SleepMode::Event { agent_id } && agent_id@ == aid)
                                    && st.started_at_ms == now_ms && st.max_duration_secs
                                    == max_sleep_duration_secs && st.wake_reason is None
                            }
                        },
                    }
                } else if mode == "manual"@ {
                    r matches Ok(st) && st.active && (st.mode is Manual) && st.started_at_ms
                        == now_ms && st.max_duration_secs == max_sleep_duration_secs
                        && st.wake_reason is None
                } else {
                    r matches Err(e) && e@ == "sleep: unknown mode '"@ + mode
                        + "'. Expected 'timer', 'event', or 'manual'"@
                }
            },
        },
{
    let mode_str = match args.get_str("mode") {
        Some(m) => m,
        None => {
            return Err("sleep: missing required 'mode' field".to_owned());
        },
    };
    if crate::strutil::str_eq(mode_str.as_str(), "timer") {
        let secs = match args.get_u64("duration_secs") {
            Some(s) => s,
            None => {
                return Err(
                    "sleep: timer mode requires 'duration_secs' (positive integer)".to_owned(),
                );
            },
        };
        if secs == 0 {
            return Err("sleep: duration_secs must be greater than 0".to_owned());
        }
        let effective = if secs <= max_sleep_duration_secs {
            secs
        } else {
            max_sleep_duration_secs
        };
        Ok(SleepState::new(SleepMode::Timer(secs), effective, now_ms))
    } else if crate::strutil::str_eq(mode_str.as_str(), "event") {
        let agent_id = match args.get_str("agent_id") {
            Some(a) => a,
            None => {
                return Err("sleep: event mode requires 'agent_id' (string)".to_owned());
            },
        };
        if agent_id.unicode_len() == 0 {
            return Err("sleep: agent_id must not be empty".to_owned());
        }
        Ok(
            SleepState::new(
                SleepMode::Event { agent_id: agent_id.clone() },
                max_sleep_duration_secs,
                now_ms,
            ),
        )
    } else if crate::strutil::str_eq(mode_str.as_str(), "manual") {
        Ok(SleepState::new(SleepMode::Manual, max_sleep_duration_secs, now_ms))
    } else {
        let mut msg = String::new();
        msg.append("sleep: unknown mode '");
        msg.append(mode_str.as_str());
        msg.append("'. Expected 'timer', 'event', or 'manual'");
        Err(msg)
    }
}

} // verus!

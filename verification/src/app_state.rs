//! Dashboard state: a pure accumulator over session events.
//!
//! Events are applied one at a time and only here; each render frame reads
//! the accumulated state. Rendering itself is the application's concern —
//! the labels, wrapping and scrolling decisions are computed here.

use vstd::prelude::*;

use crate::events::AgentEvent;
use crate::events::AgentState;
use crate::registry::SubAgentInfo;
use crate::registry::SubAgentKind;
use crate::registry::SubAgentStatus;
use crate::strutil::dec_digits;
use crate::strutil::first_line;
use crate::strutil::line_count;
use crate::strutil::count_lines;
use crate::strutil::push_dec_u64;
use crate::strutil::take_first_line;
use crate::strutil::truncate_chars;
use crate::strutil::truncated;

verus! {

/// Categorizes log entries for color and icon selection.
#[derive(Debug, Clone, Copy, PartialEq, Eq, Structural)]
pub enum LogEntryKind {
    /// Agent thinking text.
    Thought,
    /// A tool call was initiated.
    ToolCall,
    /// A tool call completed with a result.
    ToolResult,
    /// An error occurred.
    Error,
    /// Visual separator for session restarts.
    SessionSeparator,
    /// System-level message.
    System,
}

/// One entry of the dashboard's log stream.
pub struct LogEntry {
    /// Wall-clock timestamp for display.
    pub timestamp: String,
    /// Entry classification.
    pub kind: LogEntryKind,
    /// One-line summary always visible.
    pub summary: String,
    /// Full content shown when expanded.
    pub full_content: String,
    /// Whether the entry is expanded.
    pub expanded: bool,
}

/// All dashboard-visible state, accumulated from events.
pub struct AppState {
    /// Ordered log entries, newest last.
    pub log_entries: Vec<LogEntry>,
    /// Flagged discoveries: timestamp, title, description.
    pub discoveries: Vec<(String, String, String)>,
    /// Known sub-agent snapshots.
    pub sub_agent_entries: Vec<SubAgentInfo>,
    /// Current agent state.
    pub agent_state: AgentState,
    /// Context usage in thousandths of the limit.
    pub context_usage_permille: u64,
    /// Prompt tokens used in the current context.
    pub prompt_tokens: u64,
    /// The context limit in tokens.
    pub context_limit: u64,
    /// Current session number, 1-based.
    pub session_number: u32,
    /// Turns completed in the session.
    pub turn_count: u64,
    /// Tool calls executed in the session.
    pub tool_call_count: u64,
    /// Index of the active tab.
    pub active_tab: usize,
    /// Scroll offset into the log entries.
    pub log_scroll_offset: usize,
    /// Whether new entries keep the view at the bottom.
    pub auto_scroll: bool,
    /// Whether the sub-agent panel is shown.
    pub sub_agent_panel_visible: bool,
    /// Whether a quit was requested once and awaits confirmation.
    pub quit_pending: bool,
}

/// The first line of a text, truncated to `max_len` characters.
pub fn first_line_or_truncate(text: &str, max_len: usize) -> (r: String)
    ensures
        r@ == truncated(first_line(text@), max_len as int),
{
    let head = take_first_line(text);
    truncate_chars(head.as_str(), max_len)
}

impl AppState {
    /// The scroll offset auto-scroll targets: the last entry.
    pub open spec fn bottom_offset(self) -> int {
        if self.log_entries@.len() == 0 {
            0
        } else {
            self.log_entries@.len() - 1
        }
    }

    /// A fresh state: idle, empty, auto-scrolling, panel visible.
    pub fn new() -> (r: AppState)
        ensures
            r.log_entries@.len() == 0,
            r.discoveries@.len() == 0,
            r.sub_agent_entries@.len() == 0,
            r.agent_state is Idle,
            r.context_usage_permille == 0,
            r.prompt_tokens == 0,
            r.context_limit == 0,
            r.session_number == 1,
            r.turn_count == 0,
            r.tool_call_count == 0,
            r.active_tab == 0,
            r.log_scroll_offset == 0,
            r.auto_scroll,
            r.sub_agent_panel_visible,
            !r.quit_pending,
    {
        AppState {
            log_entries: Vec::new(),
            discoveries: Vec::new(),
            sub_agent_entries: Vec::new(),
            agent_state: AgentState::Idle,
            context_usage_permille: 0,
            prompt_tokens: 0,
            context_limit: 0,
            session_number: 1,
            turn_count: 0,
            tool_call_count: 0,
            active_tab: 0,
            log_scroll_offset: 0,
            auto_scroll: true,
            sub_agent_panel_visible: true,
            quit_pending: false,
        }
    }

    /// Apply one event: push the matching log entry or update the matching
    /// fields. Log entries are only ever appended, and with auto-scroll on,
    /// the view follows the newest entry.
    pub fn apply_event(&mut self, event: AgentEvent)
        ensures
            final(self).log_entries@.len() >= old(self).log_entries@.len(),
            final(self).log_entries@.subrange(0, old(self).log_entries@.len() as int) == old(self).log_entries@,
            match event {
                AgentEvent::ThoughtText { timestamp, turn, content } => final(self).log_entries@.len() == old(self).log_entries@.len() + 1 && ({
                    let e = final(self).log_entries@.last();
                    e.kind is Thought && e.expanded && e.timestamp@ == timestamp@ && e.summary@
                        == truncated(first_line(content@), 120) && e.full_content@ == content@
                }),
                AgentEvent::ToolCallStarted { fn_name, args_summary, timestamp, .. } => final(self).log_entries@.len() == old(self).log_entries@.len() + 1 && ({
                    let e = final(self).log_entries@.last();
                    e.kind is ToolCall && !e.expanded && e.summary@ == fn_name@ + "("@
                        + args_summary@ + ")"@
                }),
                AgentEvent::ToolCallCompleted { fn_name, full_result, .. } => final(self).log_entries@.len() == old(self).log_entries@.len() + 1 && ({
                    let e = final(self).log_entries@.last();
                    e.kind is ToolResult && !e.expanded && e.summary@ == fn_name@ + ": "@
                        + dec_digits(line_count(full_result@)) + " lines of output"@
                        && e.full_content@ == full_result@
                }),
                AgentEvent::StateChanged(st) => final(self).agent_state == st && final(self).log_entries@ == old(self).log_entries@,
                AgentEvent::ContextPressure { usage_permille, prompt_tokens, context_limit } => {
                    &&& final(self).context_usage_permille == usage_permille
                    &&& final(self).prompt_tokens == prompt_tokens
                    &&& final(self).context_limit == context_limit
                },
                AgentEvent::SessionRestarted { session_number } => final(self).session_number
                    == session_number && final(self).log_entries@.len() == old(self).log_entries@.len() + 1 && ({
                    let e = final(self).log_entries@.last();
                    e.kind is SessionSeparator && e.summary@ == "--- Session "@ + dec_digits(
                        session_number as nat,
                    ) + " started ---"@
                }),
                AgentEvent::Error { timestamp, turn, message } => final(self).log_entries@.len()
                    == old(self).log_entries@.len() + 1 && ({
                    let e = final(self).log_entries@.last();
                    e.kind is Error && e.expanded && e.summary@ == truncated(
                        first_line(message@),
                        120,
                    ) && e.full_content@ == message@
                }),
                AgentEvent::Discovery { timestamp, title, description } => final(self).discoveries@.len() == old(self).discoveries@.len() + 1 && ({
                    let d = final(self).discoveries@.last();
                    d.0@ == timestamp@ && d.1@ == title@ && d.2@ == description@
                }),
                AgentEvent::CountersUpdated { turn, tool_calls } => final(self).turn_count == turn
                    && final(self).tool_call_count == tool_calls,
                AgentEvent::SubAgentStatusChanged { .. } => *final(self) == *old(self),
            },
    {
        match event {
            AgentEvent::ThoughtText { timestamp, turn: _, content } => {
                let summary = first_line_or_truncate(content.as_str(), 120);
                self.log_entries.push(
                    LogEntry {
                        timestamp,
                        kind: LogEntryKind::Thought,
                        summary,
                        full_content: content,
                        expanded: true,
                    },
                );
                self.auto_scroll_to_bottom();
            },
            AgentEvent::ToolCallStarted { timestamp, turn: _, call_id: _, fn_name, args_summary } => {
                let mut summary = fn_name;
                summary.append("(");
                summary.append(args_summary.as_str());
                summary.append(")");
                self.log_entries.push(
                    LogEntry {
                        timestamp,
                        kind: LogEntryKind::ToolCall,
                        summary,
                        full_content: String::new(),
                        expanded: false,
                    },
                );
                self.auto_scroll_to_bottom();
            },
            AgentEvent::ToolCallCompleted {
                timestamp,
                turn: _,
                call_id: _,
                fn_name,
                result_summary: _,
                full_result,
            } => {
                let lines = count_lines(full_result.as_str());
                let mut summary = fn_name;
                summary.append(": ");
                push_dec_u64(&mut summary, lines as u64);
                summary.append(" lines of output");
                self.log_entries.push(
                    LogEntry {
                        timestamp,
                        kind: LogEntryKind::ToolResult,
                        summary,
                        full_content: full_result,
                        expanded: false,
                    },
                );
                self.auto_scroll_to_bottom();
            },
            AgentEvent::StateChanged(st) => {
                self.agent_state = st;
            },
            AgentEvent::ContextPressure { usage_permille, prompt_tokens, context_limit } => {
                self.context_usage_permille = usage_permille;
                self.prompt_tokens = prompt_tokens;
                self.context_limit = context_limit;
            },
            AgentEvent::SessionRestarted { session_number } => {
                self.session_number = session_number;
                let mut summary = String::new();
                summary.append("--- Session ");
                push_dec_u64(&mut summary, session_number as u64);
                summary.append(" started ---");
                self.log_entries.push(
                    LogEntry {
                        timestamp: String::new(),
                        kind: LogEntryKind::SessionSeparator,
                        summary,
                        full_content: String::new(),
                        expanded: false,
                    },
                );
                self.auto_scroll_to_bottom();
            },
            AgentEvent::Error { timestamp, turn: _, message } => {
                let summary = first_line_or_truncate(message.as_str(), 120);
                self.log_entries.push(
                    LogEntry {
                        timestamp,
                        kind: LogEntryKind::Error,
                        summary,
                        full_content: message,
                        expanded: true,
                    },
                );
                self.auto_scroll_to_bottom();
            },
            AgentEvent::Discovery { timestamp, title, description } => {
                self.discoveries.push((timestamp, title, description));
            },
            AgentEvent::CountersUpdated { turn, tool_calls } => {
                self.turn_count = turn;
                self.tool_call_count = tool_calls;
            },
            AgentEvent::SubAgentStatusChanged { agent_id: _, status: _, kind: _ } => {},
        }
    }

    /// Toggle the expanded state of a log entry; out of bounds is a no-op.
    pub fn toggle_expand(&mut self, index: usize)
        ensures
            final(self).log_entries@.len() == old(self).log_entries@.len(),
            index < old(self).log_entries@.len() ==> final(self).log_entries@[index as int].expanded
                == !old(self).log_entries@[index as int].expanded,
            index >= old(self).log_entries@.len() ==> *final(self) == *old(self),
    {
        if index < self.log_entries.len() {
            let flipped = !self.log_entries[index].expanded;
            self.log_entries[index].expanded = flipped;
        }
    }

    /// Scroll up one entry and stop following the newest entry.
    pub fn scroll_up(&mut self)
        ensures
            final(self).log_scroll_offset == if old(self).log_scroll_offset > 0 {
                old(self).log_scroll_offset - 1
            } else {
                0int
            },
            !final(self).auto_scroll,
    {
        if self.log_scroll_offset > 0 {
            self.log_scroll_offset = self.log_scroll_offset - 1;
        }
        self.auto_scroll = false;
    }

    /// Scroll down one entry, clamped to the last entry.
    pub fn scroll_down(&mut self)
        ensures
            final(self).log_scroll_offset == if old(self).log_scroll_offset + 1 <= old(self).bottom_offset() {
                old(self).log_scroll_offset + 1
            } else {
                old(self).bottom_offset()
            } || final(self).log_scroll_offset == old(self).log_scroll_offset,
            final(self).log_scroll_offset <= old(self).bottom_offset() || final(self).log_scroll_offset == old(self).log_scroll_offset,
    {
        let bottom = if self.log_entries.len() == 0 {
            0
        } else {
            self.log_entries.len() - 1
        };
        if self.log_scroll_offset < bottom {
            self.log_scroll_offset = self.log_scroll_offset + 1;
        } else if self.log_scroll_offset > bottom {
            self.log_scroll_offset = bottom;
        }
    }

    /// Jump to the bottom of the log and follow new entries again.
    pub fn jump_to_bottom(&mut self)
        ensures
            final(self).log_scroll_offset == old(self).bottom_offset(),
            final(self).auto_scroll,
    {
        let bottom = if self.log_entries.len() == 0 {
            0
        } else {
            self.log_entries.len() - 1
        };
        self.log_scroll_offset = bottom;
        self.auto_scroll = true;
    }

    /// Follow the newest entry while auto-scroll is on.
    fn auto_scroll_to_bottom(&mut self)
        ensures
            final(self).log_entries == old(self).log_entries,
            final(self).discoveries == old(self).discoveries,
            final(self).sub_agent_entries == old(self).sub_agent_entries,
            final(self).agent_state == old(self).agent_state,
            final(self).session_number == old(self).session_number,
            final(self).turn_count == old(self).turn_count,
            final(self).tool_call_count == old(self).tool_call_count,
            final(self).context_usage_permille == old(self).context_usage_permille,
            final(self).prompt_tokens == old(self).prompt_tokens,
            final(self).context_limit == old(self).context_limit,
    {
        if self.auto_scroll {
            let bottom = if self.log_entries.len() == 0 {
                0
            } else {
                self.log_entries.len() - 1
            };
            self.log_scroll_offset = bottom;
        }
    }
}

// ---------------------------------------------------------------------------
// Labels
// ---------------------------------------------------------------------------

/// A text icon per status.
pub fn status_icon(status: &SubAgentStatus) -> (r: &'static str)
    ensures
        r@ == match *status {
            SubAgentStatus::Running => "[*]"@,
            SubAgentStatus::Completed => "[+]"@,
            SubAgentStatus::Failed(_) => "[!]"@,
            SubAgentStatus::Killed => "[x]"@,
        },
{
    match status {
        SubAgentStatus::Running => "[*]",
        SubAgentStatus::Completed => "[+]",
        SubAgentStatus::Failed(_) => "[!]",
        SubAgentStatus::Killed => "[x]",
    }
}

/// A short label per kind.
pub fn kind_label(kind: &SubAgentKind) -> (r: &'static str)
    ensures
        r@ == match *kind {
            SubAgentKind::LlmSession { .. } => "LLM"@,
            SubAgentKind::BackgroundProcess { .. } => "Proc"@,
        },
{
    match kind {
        SubAgentKind::LlmSession { .. } => "LLM",
        SubAgentKind::BackgroundProcess { .. } => "Proc",
    }
}

/// The goal or command, truncated for display.
pub fn kind_description(kind: &SubAgentKind) -> (r: String)
    ensures
        r@ == match *kind {
            SubAgentKind::LlmSession { goal, .. } => truncated(goal@, 40),
            SubAgentKind::BackgroundProcess { command } => truncated(command@, 40),
        },
{
    match kind {
        SubAgentKind::LlmSession { goal, .. } => truncate_chars(goal.as_str(), 40),
        SubAgentKind::BackgroundProcess { command } => truncate_chars(command.as_str(), 40),
    }
}

/// A human-readable status text, failure messages truncated.
pub fn status_text(status: &SubAgentStatus) -> (r: String)
    ensures
        r@ == match *status {
            SubAgentStatus::Running => "running"@,
            SubAgentStatus::Completed => "completed"@,
            SubAgentStatus::Failed(msg) => "failed: "@ + truncated(msg@, 30),
            SubAgentStatus::Killed => "killed"@,
        },
{
    match status {
        SubAgentStatus::Running => "running".to_owned(),
        SubAgentStatus::Completed => "completed".to_owned(),
        SubAgentStatus::Failed(msg) => {
            let mut s = String::new();
            s.append("failed: ");
            let short = truncate_chars(msg.as_str(), 30);
            s.append(short.as_str());
            s
        },
        SubAgentStatus::Killed => "killed".to_owned(),
    }
}

/// The tree label of a sub-agent entry:
/// `{icon} {kind}: {description} ({status})`.
pub fn format_entry_label(entry: &SubAgentInfo) -> (r: String)
    ensures
        r@ == status_icon_view(entry.status) + " "@ + kind_label_view(entry.kind) + ": "@
            + kind_description_view(entry.kind) + " ("@ + status_text_view(entry.status) + ")"@,
{
    let mut out = String::new();
    let icon = status_icon(&entry.status);
    out.append(icon);
    out.append(" ");
    let label = kind_label(&entry.kind);
    out.append(label);
    out.append(": ");
    let description = kind_description(&entry.kind);
    out.append(description.as_str());
    out.append(" (");
    let status = status_text(&entry.status);
    out.append(status.as_str());
    out.append(")");
    out
}

/// The icon text per status.
pub open spec fn status_icon_view(status: SubAgentStatus) -> Seq<char> {
    match status {
        SubAgentStatus::Running => "[*]"@,
        SubAgentStatus::Completed => "[+]"@,
        SubAgentStatus::Failed(_) => "[!]"@,
        SubAgentStatus::Killed => "[x]"@,
    }
}

/// The short label per kind.
pub open spec fn kind_label_view(kind: SubAgentKind) -> Seq<char> {
    match kind {
        SubAgentKind::LlmSession { .. } => "LLM"@,
        SubAgentKind::BackgroundProcess { .. } => "Proc"@,
    }
}

/// The truncated description per kind.
pub open spec fn kind_description_view(kind: SubAgentKind) -> Seq<char> {
    match kind {
        SubAgentKind::LlmSession { goal, .. } => truncated(goal@, 40),
        SubAgentKind::BackgroundProcess { command } => truncated(command@, 40),
    }
}

/// The status text.
pub open spec fn status_text_view(status: SubAgentStatus) -> Seq<char> {
    match status {
        SubAgentStatus::Running => "running"@,
        SubAgentStatus::Completed => "completed"@,
        SubAgentStatus::Failed(msg) => "failed: "@ + truncated(msg@, 30),
        SubAgentStatus::Killed => "killed"@,
    }
}

/// The icon prefix of a log entry kind.
pub fn kind_prefix(kind: LogEntryKind) -> (r: &'static str)
    ensures
        r@ == match kind {
            LogEntryKind::Thought => "\u{25CB}"@,
            LogEntryKind::ToolCall => "\u{25B6}"@,
            LogEntryKind::ToolResult => "\u{25C0}"@,
            LogEntryKind::Error => "\u{2716}"@,
            LogEntryKind::SessionSeparator => "\u{2500}"@,
            LogEntryKind::System => "\u{2605}"@,
        },
{
    match kind {
        LogEntryKind::Thought => "\u{25CB}",
        LogEntryKind::ToolCall => "\u{25B6}",
        LogEntryKind::ToolResult => "\u{25C0}",
        LogEntryKind::Error => "\u{2716}",
        LogEntryKind::SessionSeparator => "\u{2500}",
        LogEntryKind::System => "\u{2605}",
    }
}

/// The header label of a log entry kind.
pub fn log_kind_label(kind: LogEntryKind) -> (r: &'static str)
    ensures
        r@ == match kind {
            LogEntryKind::Thought => "thought"@,
            LogEntryKind::ToolCall => "tool-call"@,
            LogEntryKind::ToolResult => "tool-result"@,
            LogEntryKind::Error => "error"@,
            LogEntryKind::SessionSeparator => ""@,
            LogEntryKind::System => "system"@,
        },
{
    match kind {
        LogEntryKind::Thought => "thought",
        LogEntryKind::ToolCall => "tool-call",
        LogEntryKind::ToolResult => "tool-result",
        LogEntryKind::Error => "error",
        LogEntryKind::SessionSeparator => "",
        LogEntryKind::System => "system",
    }
}

// ---------------------------------------------------------------------------
// Wrapping
// ---------------------------------------------------------------------------

/// A text cut into pieces of at most `width` characters, in order; a
/// non-positive width leaves the text in one piece.
pub open spec fn wrapped(s: Seq<char>, width: int) -> Seq<Seq<char>>
    decreases s.len(),
{
    if width <= 0 {
        seq![s]
    } else if s.len() > width {
        seq![s.subrange(0, width)] + wrapped(s.skip(width), width)
    } else {
        seq![s]
    }
}

/// Cut a text into display lines of at most `max_width` characters.
pub fn wrap_text(text: &str, max_width: usize) -> (r: Vec<String>)
    ensures
        r@.map_values(|p: String| p@) == wrapped(text@, max_width as int),
    decreases text@.len(),
{
    if max_width == 0 {
        let mut out: Vec<String> = Vec::new();
        out.push(text.to_owned());
        proof {
            assert(out@.map_values(|p: String| p@) =~= wrapped(text@, 0));
        }
        return out;
    }
    let len = text.unicode_len();
    if len > max_width {
        let head = text.substring_char(0, max_width);
        let tail = text.substring_char(max_width, len);
        let mut out: Vec<String> = Vec::new();
        out.push(head.to_owned());
        let mut rest = wrap_text(tail, max_width);
        out.append(&mut rest);
        proof {
            assert(out@.map_values(|p: String| p@) =~= wrapped(text@, max_width as int));
        }
        out
    } else {
        let mut out: Vec<String> = Vec::new();
        out.push(text.to_owned());
        proof {
            assert(out@.map_values(|p: String| p@) =~= wrapped(text@, max_width as int));
        }
        out
    }
}

} // verus!

//! Tool arguments, routing, and the structured payloads tool dispatch
//! returns.
//!
//! Dispatch always answers the model with a string: a success payload (often
//! JSON) or a JSON error object. The argument values arrive as plain data —
//! the application converts the provider's JSON into [`ToolArgs`] — and the
//! decisions here are verified; the I/O each tool performs lives at the
//! application edge.

use vstd::prelude::*;

use crate::json::JVal;
use crate::json::SpecJson;
use crate::json::assoc_view;
use crate::json::object_json;
use crate::json::push_object;
use crate::strutil::str_eq;

verus! {

/// One plain argument value.
pub enum ArgValue {
    AStr(String),
    AUInt(u64),
    ABool(bool),
    AList(Vec<String>),
    AMap(Vec<(String, String)>),
}

/// The arguments of one tool invocation, as (name, value) pairs.
pub struct ToolArgs {
    pub entries: Vec<(String, ArgValue)>,
}

/// The value under the first occurrence of `key`, if any.
pub open spec fn find_arg(s: Seq<(String, ArgValue)>, key: Seq<char>) -> Option<ArgValue>
    decreases s.len(),
{
    if s.len() == 0 {
        None
    } else if s[0].0@ == key {
        Some(s[0].1)
    } else {
        find_arg(s.skip(1), key)
    }
}

impl ToolArgs {
    /// The string under `key`, if the key is present with a string value.
    pub open spec fn str_arg(self, key: Seq<char>) -> Option<Seq<char>> {
        match find_arg(self.entries@, key) {
            Some(ArgValue::AStr(s)) => Some(s@),
            _ => None,
        }
    }

    /// The unsigned integer under `key`, if present with an integer value.
    pub open spec fn uint_arg(self, key: Seq<char>) -> Option<u64> {
        match find_arg(self.entries@, key) {
            Some(ArgValue::AUInt(n)) => Some(n),
            _ => None,
        }
    }

    /// An empty argument set.
    pub fn new() -> (r: ToolArgs)
        ensures
            r.entries@.len() == 0,
    {
        ToolArgs { entries: Vec::new() }
    }

    /// Look up the value under `key`.
    pub fn get<'a>(&'a self, key: &str) -> (r: Option<&'a ArgValue>)
        ensures
            match r {
                Some(v) => find_arg(self.entries@, key@) == Some(*v),
                None => find_arg(self.entries@, key@) is None,
            },
    {
        let n = self.entries.len();
        let mut i: usize = 0;
        proof {
            assert(self.entries@.skip(0) =~= self.entries@);
        }
        while i < n
            invariant
                n == self.entries@.len(),
                0 <= i <= n,
                find_arg(self.entries@, key@) == find_arg(self.entries@.skip(i as int), key@),
            decreases n - i,
        {
            proof {
                assert(self.entries@.skip(i as int)[0] == self.entries@[i as int]);
                assert(self.entries@.skip(i as int).skip(1) =~= self.entries@.skip(i + 1));
            }
            if str_eq(self.entries[i].0.as_str(), key) {
                return Some(&self.entries[i].1);
            }
            i += 1;
        }
        proof {
            assert(self.entries@.skip(n as int) =~= Seq::<(String, ArgValue)>::empty());
        }
        None
    }

    /// Look up a string argument.
    pub fn get_str<'a>(&'a self, key: &str) -> (r: Option<&'a String>)
        ensures
            match r {
                Some(s) => self.str_arg(key@) == Some(s@),
                None => self.str_arg(key@) is None,
            },
    {
        match self.get(key) {
            Some(v) => match v {
                ArgValue::AStr(s) => Some(s),
                _ => None,
            },
            None => None,
        }
    }

    /// Look up an unsigned integer argument.
    pub fn get_u64(&self, key: &str) -> (r: Option<u64>)
        ensures
            r == self.uint_arg(key@),
    {
        match self.get(key) {
            Some(v) => match v {
                ArgValue::AUInt(n) => Some(*n),
                _ => None,
            },
            None => None,
        }
    }
}

// ---------------------------------------------------------------------------
// Routing
// ---------------------------------------------------------------------------

/// The thirteen recognized tools, and the rejection of everything else.
#[derive(Debug, PartialEq, Eq, Structural, Clone, Copy)]
pub enum ToolRoute {
    ShellExec,
    FileRead,
    FileWrite,
    SpawnLlmSession,
    SpawnBackgroundTask,
    AgentStatus,
    AgentResult,
    KillAgent,
    WriteStdin,
    WebFetch,
    WebSearch,
    Sleep,
    FlagDiscovery,
    Unknown,
}

/// Where an invocation of the named function is routed.
pub open spec fn route_spec(name: Seq<char>) -> ToolRoute {
    if name == "shell_exec"@ {
        ToolRoute::ShellExec
    } else if name == "file_read"@ {
        ToolRoute::FileRead
    } else if name == "file_write"@ {
        ToolRoute::FileWrite
    } else if name == "spawn_llm_session"@ {
        ToolRoute::SpawnLlmSession
    } else if name == "spawn_background_task"@ {
        ToolRoute::SpawnBackgroundTask
    } else if name == "agent_status"@ {
        ToolRoute::AgentStatus
    } else if name == "agent_result"@ {
        ToolRoute::AgentResult
    } else if name == "kill_agent"@ {
        ToolRoute::KillAgent
    } else if name == "write_stdin"@ {
        ToolRoute::WriteStdin
    } else if name == "web_fetch"@ {
        ToolRoute::WebFetch
    } else if name == "web_search"@ {
        ToolRoute::WebSearch
    } else if name == "sleep"@ {
        ToolRoute::Sleep
    } else if name == "flag_discovery"@ {
        ToolRoute::FlagDiscovery
    } else {
        ToolRoute::Unknown
    }
}

/// Route an invocation by its function name.
pub fn route_tool(name: &str) -> (r: ToolRoute)
    ensures
        r == route_spec(name@),
{
    if str_eq(name, "shell_exec") {
        ToolRoute::ShellExec
    } else if str_eq(name, "file_read") {
        ToolRoute::FileRead
    } else if str_eq(name, "file_write") {
        ToolRoute::FileWrite
    } else if str_eq(name, "spawn_llm_session") {
        ToolRoute::SpawnLlmSession
    } else if str_eq(name, "spawn_background_task") {
        ToolRoute::SpawnBackgroundTask
    } else if str_eq(name, "agent_status") {
        ToolRoute::AgentStatus
    } else if str_eq(name, "agent_result") {
        ToolRoute::AgentResult
    } else if str_eq(name, "kill_agent") {
        ToolRoute::KillAgent
    } else if str_eq(name, "write_stdin") {
        ToolRoute::WriteStdin
    } else if str_eq(name, "web_fetch") {
        ToolRoute::WebFetch
    } else if str_eq(name, "web_search") {
        ToolRoute::WebSearch
    } else if str_eq(name, "sleep") {
        ToolRoute::Sleep
    } else if str_eq(name, "flag_discovery") {
        ToolRoute::FlagDiscovery
    } else {
        ToolRoute::Unknown
    }
}

// ---------------------------------------------------------------------------
// Structured payloads
// ---------------------------------------------------------------------------

/// The JSON error object dispatch answers with.
pub open spec fn error_payload_spec(msg: Seq<char>) -> Seq<char> {
    object_json(seq![("error"@, SpecJson::SStr(msg))])
}

/// Wrap an error message as the JSON error object.
pub fn error_payload(msg: String) -> (r: String)
    ensures
        r@ == error_payload_spec(msg@),
{
    let ghost msg_view = msg@;
    let mut pairs: Vec<(String, JVal)> = Vec::new();
    pairs.push(("error".to_owned(), JVal::JStr(msg)));
    let mut out = String::new();
    proof {
        assert(assoc_view(pairs@) =~= seq![("error"@, SpecJson::SStr(msg_view))]);
    }
    push_object(&mut out, &pairs);
    out
}

/// The error payload for an unrecognized function name.
pub fn unknown_tool_error(name: &str) -> (r: String)
    ensures
        r@ == error_payload_spec("Unknown tool: "@ + name@),
{
    let mut msg = String::new();
    msg.append("Unknown tool: ");
    msg.append(name);
    error_payload(msg)
}

/// The success payload of a file write: bytes written and the path.
pub fn written_payload(written_bytes: u64, path: &str) -> (r: String)
    requires
        written_bytes <= i64::MAX,
    ensures
        r@ == object_json(
            seq![
                ("written_bytes"@, SpecJson::SInt(written_bytes as int)),
                ("path"@, SpecJson::SStr(path@)),
            ],
        ),
{
    let mut pairs: Vec<(String, JVal)> = Vec::new();
    pairs.push(("written_bytes".to_owned(), JVal::JInt(written_bytes as i64)));
    pairs.push(("path".to_owned(), JVal::JStr(path.to_owned())));
    let mut out = String::new();
    proof {
        assert(assoc_view(pairs@) =~= seq![
            ("written_bytes"@, SpecJson::SInt(written_bytes as int)),
            ("path"@, SpecJson::SStr(path@)),
        ]);
    }
    push_object(&mut out, &pairs);
    out
}

/// The success payload of a spawn: the new agent's id and its status.
pub fn spawned_payload(agent_id: &str) -> (r: String)
    ensures
        r@ == object_json(
            seq![
                ("agent_id"@, SpecJson::SStr(agent_id@)),
                ("status"@, SpecJson::SStr("spawned"@)),
            ],
        ),
{
    let mut pairs: Vec<(String, JVal)> = Vec::new();
    pairs.push(("agent_id".to_owned(), JVal::JStr(agent_id.to_owned())));
    pairs.push(("status".to_owned(), JVal::JStr("spawned".to_owned())));
    let mut out = String::new();
    proof {
        assert(assoc_view(pairs@) =~= seq![
            ("agent_id"@, SpecJson::SStr(agent_id@)),
            ("status"@, SpecJson::SStr("spawned"@)),
        ]);
    }
    push_object(&mut out, &pairs);
    out
}

/// The success payload of a kill.
pub fn killed_payload() -> (r: String)
    ensures
        r@ == object_json(seq![("killed"@, SpecJson::SBool(true))]),
{
    let mut pairs: Vec<(String, JVal)> = Vec::new();
    pairs.push(("killed".to_owned(), JVal::JBool(true)));
    let mut out = String::new();
    proof {
        assert(assoc_view(pairs@) =~= seq![("killed"@, SpecJson::SBool(true))]);
    }
    push_object(&mut out, &pairs);
    out
}

/// The success payload of a stdin write.
pub fn written_bytes_payload(written_bytes: u64) -> (r: String)
    requires
        written_bytes <= i64::MAX,
    ensures
        r@ == object_json(seq![("written_bytes"@, SpecJson::SInt(written_bytes as int))]),
{
    let mut pairs: Vec<(String, JVal)> = Vec::new();
    pairs.push(("written_bytes".to_owned(), JVal::JInt(written_bytes as i64)));
    let mut out = String::new();
    proof {
        assert(assoc_view(pairs@) =~= seq![
            ("written_bytes"@, SpecJson::SInt(written_bytes as int)),
        ]);
    }
    push_object(&mut out, &pairs);
    out
}

/// The confirmation payload of a flagged discovery.
pub fn flagged_payload(title: &str, timestamp: &str) -> (r: String)
    ensures
        r@ == object_json(
            seq![
                ("flagged"@, SpecJson::SBool(true)),
                ("title"@, SpecJson::SStr(title@)),
                ("timestamp"@, SpecJson::SStr(timestamp@)),
            ],
        ),
{
    let mut pairs: Vec<(String, JVal)> = Vec::new();
    pairs.push(("flagged".to_owned(), JVal::JBool(true)));
    pairs.push(("title".to_owned(), JVal::JStr(title.to_owned())));
    pairs.push(("timestamp".to_owned(), JVal::JStr(timestamp.to_owned())));
    let mut out = String::new();
    proof {
        assert(assoc_view(pairs@) =~= seq![
            ("flagged"@, SpecJson::SBool(true)),
            ("title"@, SpecJson::SStr(title@)),
            ("timestamp"@, SpecJson::SStr(timestamp@)),
        ]);
    }
    push_object(&mut out, &pairs);
    out
}

/// The confirmation payload of a sleep request, consumed by the session loop.
pub fn sleep_payload(mode_display: &str, max_duration_secs: u64) -> (r: String)
    requires
        max_duration_secs <= i64::MAX,
    ensures
        r@ == object_json(
            seq![
                ("sleep_requested"@, SpecJson::SBool(true)),
                ("mode"@, SpecJson::SStr(mode_display@)),
                ("max_duration_secs"@, SpecJson::SInt(max_duration_secs as int)),
            ],
        ),
{
    let mut pairs: Vec<(String, JVal)> = Vec::new();
    pairs.push(("sleep_requested".to_owned(), JVal::JBool(true)));
    pairs.push(("mode".to_owned(), JVal::JStr(mode_display.to_owned())));
    pairs.push(("max_duration_secs".to_owned(), JVal::JInt(max_duration_secs as i64)));
    let mut out = String::new();
    proof {
        assert(assoc_view(pairs@) =~= seq![
            ("sleep_requested"@, SpecJson::SBool(true)),
            ("mode"@, SpecJson::SStr(mode_display@)),
            ("max_duration_secs"@, SpecJson::SInt(max_duration_secs as int)),
        ]);
    }
    push_object(&mut out, &pairs);
    out
}

/// A human-readable description of every tool, embedded into the system
/// prompt so the model knows its tools before it sees the formal schemas.
pub fn tool_descriptions() -> (r: String)
    ensures
        r@ == "### shell_exec\nExecute a shell command in the workspace directory.\n- **command** (string, required): The shell command to execute\n- Returns: JSON with stdout, stderr, exit_code, timed_out fields\n- Commands run via `sh -c` with the workspace as the working directory\n- Commands are filtered against a security blocklist\n\n### file_read\nRead the contents of a file.\n- **path** (string, required): File path, relative to workspace or absolute\n- Returns: The file contents as a string\n- Read access is unrestricted (can read any file on the filesystem)\n\n### file_write\nWrite content to a file within the workspace directory.\n- **path** (string, required): File path relative to the workspace root\n- **content** (string, required): Content to write to the file\n- Returns: JSON with written_bytes and path fields\n- Parent directories are created automatically\n- Writes outside the workspace directory are rejected\n\n### spawn_llm_session\nSpawn a child LLM chat session that runs concurrently.\n- **goal** (string, required): What the sub-agent should accomplish\n- **model** (string, optional): Ollama model name (defaults to your model)\n- **context** (object, optional): Key-value context injected into the sub-agent's prompt\n- **timeout_secs** (integer, optional): Maximum runtime in seconds\n- **tools** (array of strings, optional): Tool names to enable (default: all your tools)\n- Returns: JSON with agent_id and status fields\n- The sub-agent runs independently and you can check its progress via agent_status\n\n### spawn_background_task\nSpawn a background shell process that runs independently.\n- **command** (string, required): The shell command to run\n- Returns: JSON with agent_id and status fields\n- The process runs in the background; use agent_status to check progress\n- Use write_stdin to send input to the process\n\n### agent_status\nQuery the status of sub-agents and background processes.\n- **agent_id** (string, optional): Specific agent ID to query (omit for all)\n- Returns: JSON with agent info including status (running/completed/failed/killed)\n\n### agent_result\nRetrieve the structured result of a completed sub-agent.\n- **agent_id** (string, required): The agent ID to retrieve results for\n- Returns: JSON with summary, output, files_modified, elapsed_secs\n- Returns error if the agent is still running\n\n### kill_agent\nTerminate a running sub-agent or background process.\n- **agent_id** (string, required): The agent ID to terminate\n- Returns: JSON with killed status\n\n### write_stdin\nWrite data to a running background process's stdin.\n- **agent_id** (string, required): The background process ID\n- **data** (string, required): Data to write (newline appended automatically)\n- Returns: JSON with written_bytes\n\n### web_fetch\nFetch a web page by URL and return its content.\n- **url** (string, required): The URL to fetch\n- **format** (string, optional): Output format for HTML pages: 'markdown' (default) or 'html'\n- **max_length** (integer, optional): Truncation limit in characters (for large pages)\n- Returns: The page content as text (markdown, HTML, or JSON depending on content type)\n- JSON responses are returned as-is regardless of format parameter\n- Uses HTTP GET with 30-second timeout and redirect following\n\n### web_search\nSearch the internet and return structured results.\n- **query** (string, required): The search query\n- **count** (integer, optional): Maximum results to return (default: 5)\n- **provider** (string, optional): 'duckduckgo' (default, always available) or 'brave' (requires API key in config)\n- Returns: JSON array of objects with title, url, snippet fields\n- Rate-limited to avoid being blocked by search providers\n\n### sleep\nPause the agent loop with configurable resume.\n- **mode** (string, required): 'timer', 'event', or 'manual'\n- **duration_secs** (integer, required for timer): How long to sleep in seconds\n- **agent_id** (string, required for event): Sub-agent ID to wait for completion\n- Returns: JSON confirmation with sleep_requested, mode, and duration fields\n- Timer: auto-wake after duration. Event: wake when agent completes/fails. Manual: wake on user resume from TUI\n- No LLM calls occur during sleep; turn counter does not increment\n\n### flag_discovery\nFlag a noteworthy finding for the user.\n- **title** (string, required): Short title summarizing the discovery\n- **description** (string, required): Detailed description with context\n- Returns: JSON confirmation with flagged status\n- Discoveries persist to disk (survive session restarts) and appear in the TUI discoveries panel\n- Use for interesting patterns, unexpected results, useful resources, or insights worth surfacing"@,
{
    "### shell_exec\nExecute a shell command in the workspace directory.\n- **command** (string, required): The shell command to execute\n- Returns: JSON with stdout, stderr, exit_code, timed_out fields\n- Commands run via `sh -c` with the workspace as the working directory\n- Commands are filtered against a security blocklist\n\n### file_read\nRead the contents of a file.\n- **path** (string, required): File path, relative to workspace or absolute\n- Returns: The file contents as a string\n- Read access is unrestricted (can read any file on the filesystem)\n\n### file_write\nWrite content to a file within the workspace directory.\n- **path** (string, required): File path relative to the workspace root\n- **content** (string, required): Content to write to the file\n- Returns: JSON with written_bytes and path fields\n- Parent directories are created automatically\n- Writes outside the workspace directory are rejected\n\n### spawn_llm_session\nSpawn a child LLM chat session that runs concurrently.\n- **goal** (string, required): What the sub-agent should accomplish\n- **model** (string, optional): Ollama model name (defaults to your model)\n- **context** (object, optional): Key-value context injected into the sub-agent's prompt\n- **timeout_secs** (integer, optional): Maximum runtime in seconds\n- **tools** (array of strings, optional): Tool names to enable (default: all your tools)\n- Returns: JSON with agent_id and status fields\n- The sub-agent runs independently and you can check its progress via agent_status\n\n### spawn_background_task\nSpawn a background shell process that runs independently.\n- **command** (string, required): The shell command to run\n- Returns: JSON with agent_id and status fields\n- The process runs in the background; use agent_status to check progress\n- Use write_stdin to send input to the process\n\n### agent_status\nQuery the status of sub-agents and background processes.\n- **agent_id** (string, optional): Specific agent ID to query (omit for all)\n- Returns: JSON with agent info including status (running/completed/failed/killed)\n\n### agent_result\nRetrieve the structured result of a completed sub-agent.\n- **agent_id** (string, required): The agent ID to retrieve results for\n- Returns: JSON with summary, output, files_modified, elapsed_secs\n- Returns error if the agent is still running\n\n### kill_agent\nTerminate a running sub-agent or background process.\n- **agent_id** (string, required): The agent ID to terminate\n- Returns: JSON with killed status\n\n### write_stdin\nWrite data to a running background process's stdin.\n- **agent_id** (string, required): The background process ID\n- **data** (string, required): Data to write (newline appended automatically)\n- Returns: JSON with written_bytes\n\n### web_fetch\nFetch a web page by URL and return its content.\n- **url** (string, required): The URL to fetch\n- **format** (string, optional): Output format for HTML pages: 'markdown' (default) or 'html'\n- **max_length** (integer, optional): Truncation limit in characters (for large pages)\n- Returns: The page content as text (markdown, HTML, or JSON depending on content type)\n- JSON responses are returned as-is regardless of format parameter\n- Uses HTTP GET with 30-second timeout and redirect following\n\n### web_search\nSearch the internet and return structured results.\n- **query** (string, required): The search query\n- **count** (integer, optional): Maximum results to return (default: 5)\n- **provider** (string, optional): 'duckduckgo' (default, always available) or 'brave' (requires API key in config)\n- Returns: JSON array of objects with title, url, snippet fields\n- Rate-limited to avoid being blocked by search providers\n\n### sleep\nPause the agent loop with configurable resume.\n- **mode** (string, required): 'timer', 'event', or 'manual'\n- **duration_secs** (integer, required for timer): How long to sleep in seconds\n- **agent_id** (string, required for event): Sub-agent ID to wait for completion\n- Returns: JSON confirmation with sleep_requested, mode, and duration fields\n- Timer: auto-wake after duration. Event: wake when agent completes/fails. Manual: wake on user resume from TUI\n- No LLM calls occur during sleep; turn counter does not increment\n\n### flag_discovery\nFlag a noteworthy finding for the user.\n- **title** (string, required): Short title summarizing the discovery\n- **description** (string, required): Detailed description with context\n- Returns: JSON confirmation with flagged status\n- Discoveries persist to disk (survive session restarts) and appear in the TUI discoveries panel\n- Use for interesting patterns, unexpected results, useful resources, or insights worth surfacing".to_owned()
}

} // verus!

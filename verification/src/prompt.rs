//! System prompt assembly: the harness preamble around the operator's
//! prompt, the goal-directed prompt of a sub-agent, and the short system
//! notices the session loop injects.
//!
//! The operator's prompt file is read at the application edge and handed in
//! as text; it is re-read on every session start, so changes the agent made
//! to its own prompt take effect on restart.

use vstd::prelude::*;

use crate::strutil::dec_digits;
use crate::strutil::push_dec_u64;

verus! {

/// The context lines of a sub-agent prompt: one `- **key**: value` per pair.
pub open spec fn context_lines(ctx: Seq<(String, String)>) -> Seq<char>
    decreases ctx.len(),
{
    if ctx.len() == 0 {
        Seq::empty()
    } else {
        "- **"@ + ctx[0].0@ + "**: "@ + ctx[0].1@ + "\n"@ + context_lines(ctx.skip(1))
    }
}

/// The goal-directed system prompt of a sub-agent: a fixed preamble, the
/// goal, the injected context pairs when any, the tool descriptions, and
/// fixed instructions.
pub open spec fn sub_agent_prompt_spec(
    goal: Seq<char>,
    ctx: Seq<(String, String)>,
    tools: Seq<char>,
) -> Seq<char> {
    "You are a sub-agent spawned by the Ouroboros orchestration system.\nYour purpose is to accomplish a specific goal and report your results.\n\n## Your Goal\n\n"@
        + goal + "\n\n"@ + (if ctx.len() == 0 {
        Seq::<char>::empty()
    } else {
        "## Context\n\n"@ + context_lines(ctx) + "\n"@
    }) + "## Available Tools\n\n"@ + tools + "\n\n"@
        + "## Instructions\n\n1. Work toward the goal using the available tools.\n2. Write any outputs or results to files in the workspace.\n3. When finished, produce a final summary of what you accomplished.\n4. If you encounter an error you cannot resolve, explain what went wrong.\n5. Do not attempt to spawn additional sub-agents.\n"@
}

/// Build a sub-agent's system prompt from its goal, the injected context
/// pairs (in order), and the tool descriptions.
pub fn build_sub_agent_prompt(goal: &str, context: &Vec<(String, String)>, tools: &str) -> (r:
    String)
    ensures
        r@ == sub_agent_prompt_spec(goal@, context@, tools@),
{
    let mut out = String::new();
    out.append(
        "You are a sub-agent spawned by the Ouroboros orchestration system.\nYour purpose is to accomplish a specific goal and report your results.\n\n## Your Goal\n\n",
    );
    out.append(goal);
    out.append("\n\n");
    let n = context.len();
    if n > 0 {
        out.append("## Context\n\n");
        let ghost mid = out@;
        let mut i: usize = 0;
        proof {
            assert(context@.skip(0) =~= context@);
        }
        while i < n
            invariant
                n == context@.len(),
                0 <= i <= n,
                out@ + context_lines(context@.skip(i as int)) == mid + context_lines(context@),
            decreases n - i,
        {
            proof {
                assert(context@.skip(i as int)[0] == context@[i as int]);
                assert(context@.skip(i as int).skip(1) =~= context@.skip(i + 1));
            }
            out.append("- **");
            out.append(context[i].0.as_str());
            out.append("**: ");
            out.append(context[i].1.as_str());
            out.append("\n");
            i += 1;
        }
        proof {
            assert(context_lines(context@.skip(n as int)) =~= Seq::<char>::empty());
            assert(out@ =~= mid + context_lines(context@));
        }
        out.append("\n");
    }
    out.append("## Available Tools\n\n");
    out.append(tools);
    out.append("\n\n");
    out.append(
        "## Instructions\n\n1. Work toward the goal using the available tools.\n2. Write any outputs or results to files in the workspace.\n3. When finished, produce a final summary of what you accomplished.\n4. If you encounter an error you cannot resolve, explain what went wrong.\n5. Do not attempt to spawn additional sub-agents.\n",
    );
    proof {
        assert(out@ =~= sub_agent_prompt_spec(goal@, context@, tools@));
    }
    out
}

/// The session continuity section added to a restarted session's prompt.
pub open spec fn continuity_spec(session_number: u32) -> Seq<char> {
    if session_number > 1 {
        "\n\n## Session Continuity\nThis is session #"@ + dec_digits(session_number as nat)
            + ". You have been restarted due to context window limits.\nYour SYSTEM_PROMPT.md is reloaded from disk each restart -- if you modified it, your changes are active.\nCheck your workspace for any state files you wrote in previous sessions."@
    } else {
        Seq::<char>::empty()
    }
}

/// The full system prompt: harness preamble (model, workspace, tools,
/// constraints), the continuity section on a restart, and the operator's
/// prompt text.
pub open spec fn system_prompt_spec(
    user_content: Seq<char>,
    model: Seq<char>,
    workspace_display: Seq<char>,
    tools: Seq<char>,
    session_number: u32,
) -> Seq<char> {
    "You are an autonomous AI agent running in the Ouroboros research harness.\n\n## Environment\n- Model: "@
        + model + "\n- Workspace: "@ + workspace_display
        + " (you own this directory)\n- Shell commands execute in the workspace directory\n\n## Available Tools\n"@
        + tools
        + "\n\n## Constraints\n- File writes are restricted to the workspace directory\n- Shell commands are filtered against a security blocklist\n- Shell commands have a configurable timeout\n- Read access is unrestricted"@
        + continuity_spec(session_number)
        + "\n\n## Your System Prompt\nThe following is your system prompt, provided by your operator:\n\n---\n\n"@
        + user_content
}

/// Wrap the operator's prompt with the harness preamble.
pub fn build_system_prompt(
    user_content: &str,
    model: &str,
    workspace_display: &str,
    tools: &str,
    session_number: u32,
) -> (r: String)
    ensures
        r@ == system_prompt_spec(user_content@, model@, workspace_display@, tools@, session_number),
{
    let mut out = String::new();
    out.append(
        "You are an autonomous AI agent running in the Ouroboros research harness.\n\n## Environment\n- Model: ",
    );
    out.append(model);
    out.append("\n- Workspace: ");
    out.append(workspace_display);
    out.append(
        " (you own this directory)\n- Shell commands execute in the workspace directory\n\n## Available Tools\n",
    );
    out.append(tools);
    out.append(
        "\n\n## Constraints\n- File writes are restricted to the workspace directory\n- Shell commands are filtered against a security blocklist\n- Shell commands have a configurable timeout\n- Read access is unrestricted",
    );
    if session_number > 1 {
        out.append("\n\n## Session Continuity\nThis is session #");
        push_dec_u64(&mut out, session_number as u64);
        out.append(
            ". You have been restarted due to context window limits.\nYour SYSTEM_PROMPT.md is reloaded from disk each restart -- if you modified it, your changes are active.\nCheck your workspace for any state files you wrote in previous sessions.",
        );
    }
    out.append(
        "\n\n## Your System Prompt\nThe following is your system prompt, provided by your operator:\n\n---\n\n",
    );
    out.append(user_content);
    proof {
        assert(out@ =~= system_prompt_spec(
            user_content@,
            model@,
            workspace_display@,
            tools@,
            session_number,
        ));
    }
    out
}

/// The system notice injected at the start of a restarted session.
pub fn restart_marker(session_number: u32) -> (r: String)
    ensures
        r@ == "[Session restarted. Session #"@ + dec_digits(session_number as nat)
            + ". Previous session context was full. Check your workspace files for progress state.]"@,
{
    let mut out = String::new();
    out.append("[Session restarted. Session #");
    push_dec_u64(&mut out, session_number as u64);
    out.append(". Previous session context was full. Check your workspace files for progress state.]");
    proof {
        assert(out@ =~= "[Session restarted. Session #"@ + dec_digits(session_number as nat)
            + ". Previous session context was full. Check your workspace files for progress state.]"@);
    }
    out
}

/// The wind-down notice injected when the hard threshold is first reached.
pub fn wind_down_message(usage_percent: u64) -> (r: String)
    ensures
        r@ == "[Context window "@ + dec_digits(usage_percent as nat)
            + "% full. Please wrap up your current task and write any important state to workspace files. The session will restart shortly.]"@,
{
    let mut out = String::new();
    out.append("[Context window ");
    push_dec_u64(&mut out, usage_percent);
    out.append(
        "% full. Please wrap up your current task and write any important state to workspace files. The session will restart shortly.]",
    );
    proof {
        assert(out@ =~= "[Context window "@ + dec_digits(usage_percent as nat)
            + "% full. Please wrap up your current task and write any important state to workspace files. The session will restart shortly.]"@);
    }
    out
}

} // verus!

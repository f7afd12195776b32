//! Registering the cloche MCP server with agent clients: which clients to
//! configure, and how each attempt is reported.

use vstd::prelude::*;

use crate::setup::AgentClient;
use crate::strings::chars_of;
use crate::strings::split_on;
use crate::strings::str_eq;
use crate::strings::trim;
use crate::strings::trim_str;
use crate::strings::trim_end;
use crate::strings::trim_end_str;
use crate::paths::extension_of;
use crate::paths::path_extension;
use crate::paths::is_separator_free;
use crate::paths::path_with_extension;
use crate::paths::separator_free;
use crate::paths::with_extension_of;

verus! {

/// Which clients look installed on this machine.
#[derive(Debug, Clone, Copy, PartialEq, Eq, Structural)]
pub struct DetectedClients {
    pub claude_code: bool,
    pub codex: bool,
    pub openclaw: bool,
}

/// Combine the installation probes: `AgentClient::ClaudeCode` counts as
/// installed when its command is on PATH or its JSON config exists in the home
/// directory; Codex when `~/.codex` exists; OpenClaw when
/// `~/.openclaw/openclaw.json` exists.
pub fn detect_clients(
    claude_cli_on_path: bool,
    claude_json_exists: bool,
    codex_dir_exists: bool,
    openclaw_json_exists: bool,
) -> (r: DetectedClients)
    ensures
        r.claude_code == (claude_cli_on_path || claude_json_exists),
        r.codex == codex_dir_exists,
        r.openclaw == openclaw_json_exists,
{
    DetectedClients {
        claude_code: claude_cli_on_path || claude_json_exists,
        codex: codex_dir_exists,
        openclaw: openclaw_json_exists,
    }
}

/// How configuring one client went.
#[derive(Debug, Clone, Copy, PartialEq, Eq, Structural)]
pub enum ClientStatus {
    Applied,
    AlreadyConfigured,
    Printed,
    Error,
}

/// Result of configuring one client.
#[derive(Debug)]
pub struct ClientResult {
    pub client: AgentClient,
    pub status: ClientStatus,
    pub backup: Option<String>,
    pub message: String,
}

/// The TOML block appended to `~/.codex/config.toml`.
pub const CODEX_BLOCK: &'static str = "\n[mcp_servers.cloche]\ncommand = \"cloche\"\nargs = [\"mcp\"]\n";

/// The table header that declares the cloche server in Codex's config.
pub const CODEX_HEADER: &'static str = "[mcp_servers.cloche]";

/// True when some line of the text, trimmed, is the cloche table header.
pub open spec fn has_codex_header(text: Seq<char>) -> bool {
    exists|i: int|
        0 <= i < split_on(text, '\n').len() && trim(#[trigger] split_on(text, '\n')[i])
            == CODEX_HEADER@
}

/// True when the Codex config text already declares the cloche server.
pub fn codex_block_present(text: &str) -> (r: bool)
    ensures
        r == has_codex_header(text@),
{
    let chars = chars_of(text);
    let n = chars.len();
    let mut line = String::new();
    let ghost mut done: Seq<Seq<char>> = Seq::empty();
    let mut i: usize = 0;
    proof {
        assert(text@.take(0) =~= Seq::<char>::empty());
        assert(split_on(text@.take(0), '\n') =~= done.push(line@));
    }
    while i < n
        invariant
            n == chars@.len(),
            chars@ == text@,
            i <= n,
            split_on(text@.take(i as int), '\n') == done.push(line@),
            forall|j: int| 0 <= j < done.len() ==> trim(#[trigger] done[j]) != CODEX_HEADER@,
        decreases n - i,
    {
        let c = chars[i];
        proof {
            assert(text@.take(i + 1).drop_last() =~= text@.take(i as int));
            assert(text@.take(i + 1).last() == c);
        }
        if c == '\n' {
            if str_eq(trim_str(line.as_str()), CODEX_HEADER) {
                proof {
                    crate::strings::lemma_split_prefix(text@, '\n', i + 1);
                    let parts = split_on(text@.take(i + 1), '\n');
                    assert(parts == done.push(line@).push(Seq::empty()));
                    assert(parts[done.len() as int] == line@);
                    assert(split_on(text@, '\n')[done.len() as int] == line@);
                }
                return true;
            }
            proof {
                assert forall|j: int| 0 <= j < done.push(line@).len() implies trim(
                    #[trigger] done.push(line@)[j],
                ) != CODEX_HEADER@ by {
                    if j < done.len() {
                        assert(done.push(line@)[j] == done[j]);
                    }
                }
                done = done.push(line@);
            }
            line = String::new();
            proof {
                assert(split_on(text@.take(i + 1), '\n') =~= done.push(line@));
            }
        } else {
            crate::strings::push_char(&mut line, c);
            proof {
                assert(split_on(text@.take(i + 1), '\n') =~= done.push(line@));
            }
        }
        i = i + 1;
    }
    proof {
        assert(text@.take(n as int) =~= text@);
    }
    let found = str_eq(trim_str(line.as_str()), CODEX_HEADER);
    proof {
        let parts = split_on(text@, '\n');
        assert(parts[done.len() as int] == line@);
        if !found {
            assert forall|j: int| 0 <= j < parts.len() implies trim(#[trigger] parts[j])
                != CODEX_HEADER@ by {
                if j < done.len() {
                    assert(parts[j] == done[j]);
                }
            }
        }
    }
    found
}

/// Report of a JSON or TOML config edit.
pub fn json_result(client: AgentClient, path: &str, r: Result<(bool, Option<String>), String>) -> (out:
    ClientResult)
    ensures
        out.client == client,
        match r {
            Ok((true, bak)) => out.status == ClientStatus::Applied && out.backup == bak
                && out.message@ == "edited "@ + path@,
            Ok((false, _)) => out.status == ClientStatus::AlreadyConfigured && out.backup is None
                && out.message@ == "already configured"@,
            Err(msg) => out.status == ClientStatus::Error && out.backup is None && out.message@
                == msg@,
        },
{
    match r {
        Ok((true, bak)) => {
            let mut message = String::from_str("edited ");
            message.append(path);
            ClientResult { client, status: ClientStatus::Applied, backup: bak, message }
        },
        Ok((false, _)) => ClientResult {
            client,
            status: ClientStatus::AlreadyConfigured,
            backup: None,
            message: String::from_str("already configured"),
        },
        Err(msg) => ClientResult { client, status: ClientStatus::Error, backup: None, message: msg },
    }
}

/// What registering `AgentClient::ClaudeCode` takes next.
pub enum ClaudeAction {
    /// Nothing to run: this is the result.
    Done(ClientResult),
    /// Run `<cli> mcp add cloche -s user -- cloche mcp`, then report it with
    /// [`claude_cli_result`].
    RunCli,
    /// Edit the client's JSON config under `mcpServers`, then report it with
    /// [`json_result`].
    EditJson,
}

/// The arguments handed to the client's own command to register the server.
pub const CLI_ADD_ARGS: &'static str = " mcp add cloche -s user -- cloche mcp";

/// Register `AgentClient::ClaudeCode`: prefer its official command (`cli`, the
/// name found on PATH), else edit its JSON config. A dry run with the command
/// present only says what it would run.
pub fn register_claude(cli: Option<&str>, apply: bool) -> (action: ClaudeAction)
    ensures
        cli is None ==> action is EditJson,
        cli is Some && apply ==> action is RunCli,
        !apply ==> (cli matches Some(name) ==> action matches ClaudeAction::Done(result)
            && result.client == AgentClient::ClaudeCode && result.status == ClientStatus::Applied
            && result.backup is None && result.message@ == "would run: "@ + name@
            + CLI_ADD_ARGS@),
{
    match cli {
        Some(name) => {
            if !apply {
                let mut message = String::from_str("would run: ");
                message.append(name);
                message.append(CLI_ADD_ARGS);
                return ClaudeAction::Done(
                    ClientResult {
                        client: AgentClient::ClaudeCode,
                        status: ClientStatus::Applied,
                        backup: None,
                        message,
                    },
                );
            }
            ClaudeAction::RunCli
        },
        None => ClaudeAction::EditJson,
    }
}

/// Report of running the client's own registration command `cli`.
pub fn claude_cli_result(cli: &str, outcome: Result<(), String>) -> (r: ClientResult)
    ensures
        r.client == AgentClient::ClaudeCode,
        r.backup is None,
        outcome is Ok ==> r.status == ClientStatus::Applied && r.message@ == "registered via "@
            + cli@ + " CLI"@,
        outcome matches Err(err) ==> r.status == ClientStatus::Error && r.message@ == cli@
            + " CLI failed: "@ + err@,
{
    match outcome {
        Ok(()) => {
            let mut message = String::from_str("registered via ");
            message.append(cli);
            message.append(" CLI");
            ClientResult {
                client: AgentClient::ClaudeCode,
                status: ClientStatus::Applied,
                backup: None,
                message,
            }
        },
        Err(err) => {
            let mut message = String::from_str(cli);
            message.append(" CLI failed: ");
            message.append(err.as_str());
            ClientResult {
                client: AgentClient::ClaudeCode,
                status: ClientStatus::Error,
                backup: None,
                message,
            }
        },
    }
}

/// One step of `cloche setup agent`.
#[derive(Debug, Clone, Copy, PartialEq, Eq, Structural)]
pub enum AgentStep {
    /// Print the generic snippet because it was asked for.
    PrintRequested,
    /// Register `AgentClient::ClaudeCode`.
    ClaudeCode,
    /// Register Codex (`~/.codex/config.toml`).
    Codex,
    /// Register OpenClaw (`~/.openclaw/openclaw.json`, under `mcp.servers`).
    Openclaw,
    /// Print the generic snippet because no known client was detected.
    PrintFallback,
}

/// Whether a client is configured: asked for by name, or, with no name
/// given, detected on the machine.
pub open spec fn wants(only: Option<AgentClient>, client: AgentClient, detected: bool) -> bool {
    (only is None || only == Some(client)) && (detected || only is Some)
}

/// The clients to configure, in order, for a request.
pub open spec fn agent_plan(only: Option<AgentClient>, detected: DetectedClients) -> Seq<AgentStep> {
    if only == Some(AgentClient::Print) {
        seq![AgentStep::PrintRequested]
    } else {
        let steps = (if wants(only, AgentClient::ClaudeCode, detected.claude_code) {
            seq![AgentStep::ClaudeCode]
        } else {
            Seq::empty()
        }) + (if wants(only, AgentClient::Codex, detected.codex) {
            seq![AgentStep::Codex]
        } else {
            Seq::empty()
        }) + (if wants(only, AgentClient::Openclaw, detected.openclaw) {
            seq![AgentStep::Openclaw]
        } else {
            Seq::empty()
        });
        if steps.len() == 0 {
            seq![AgentStep::PrintFallback]
        } else {
            steps
        }
    }
}

/// What a setup run configures. `--print` only prints. Asking for one
/// client configures exactly that client, installed or not. Asking for none
/// configures each installed client once, in the order `AgentClient::ClaudeCode`, Codex,
/// OpenClaw, and prints the generic snippet when none is installed.
pub proof fn lemma_agent_plan(only: Option<AgentClient>, detected: DetectedClients)
    ensures
        only == Some(AgentClient::Print) ==> agent_plan(only, detected) == seq![AgentStep::PrintRequested],
        only == Some(AgentClient::ClaudeCode) ==> agent_plan(only, detected) == seq![AgentStep::ClaudeCode],
        only == Some(AgentClient::Codex) ==> agent_plan(only, detected) == seq![AgentStep::Codex],
        only == Some(AgentClient::Openclaw) ==> agent_plan(only, detected) == seq![AgentStep::Openclaw],
        only is None ==> (agent_plan(only, detected).contains(AgentStep::ClaudeCode)
            <==> detected.claude_code),
        only is None ==> (agent_plan(only, detected).contains(AgentStep::Codex) <==> detected.codex),
        only is None ==> (agent_plan(only, detected).contains(AgentStep::Openclaw)
            <==> detected.openclaw),
        only is None ==> (agent_plan(only, detected) == seq![AgentStep::PrintFallback]
            <==> !detected.claude_code && !detected.codex && !detected.openclaw),
        only is None ==> agent_plan(only, detected).no_duplicates(),
        only is None ==> !agent_plan(only, detected).contains(AgentStep::PrintRequested),
{
    let plan = agent_plan(only, detected);
    if only is None {
        let c = if detected.claude_code { seq![AgentStep::ClaudeCode] } else { Seq::empty() };
        let x = if detected.codex { seq![AgentStep::Codex] } else { Seq::empty() };
        let o = if detected.openclaw { seq![AgentStep::Openclaw] } else { Seq::empty() };
        let steps = c + x + o;
        assert(wants(only, AgentClient::ClaudeCode, detected.claude_code) == detected.claude_code);
        assert(wants(only, AgentClient::Codex, detected.codex) == detected.codex);
        assert(wants(only, AgentClient::Openclaw, detected.openclaw) == detected.openclaw);
        assert forall|s: AgentStep| #[trigger] steps.contains(s) <==> ((s == AgentStep::ClaudeCode
            && detected.claude_code) || (s == AgentStep::Codex && detected.codex) || (s
            == AgentStep::Openclaw && detected.openclaw)) by {
            if steps.contains(s) {
                let k = choose|k: int| 0 <= k < steps.len() && steps[k] == s;
                if k < c.len() {
                    assert(steps[k] == c[k]);
                } else if k < c.len() + x.len() {
                    assert(steps[k] == x[k - c.len()]);
                } else {
                    assert(steps[k] == o[k - c.len() - x.len()]);
                }
            }
            if s == AgentStep::ClaudeCode && detected.claude_code {
                assert(steps[0] == s);
            }
            if s == AgentStep::Codex && detected.codex {
                assert(steps[c.len() as int] == s);
            }
            if s == AgentStep::Openclaw && detected.openclaw {
                assert(steps[(c.len() + x.len()) as int] == s);
            }
        }
        assert(steps.no_duplicates()) by {
            assert forall|a: int, b: int| 0 <= a < steps.len() && 0 <= b < steps.len() && a != b
                implies steps[a] != steps[b] by {
                if a < c.len() { assert(steps[a] == c[a]); }
                else if a < c.len() + x.len() { assert(steps[a] == x[a - c.len()]); }
                else { assert(steps[a] == o[a - c.len() - x.len()]); }
                if b < c.len() { assert(steps[b] == c[b]); }
                else if b < c.len() + x.len() { assert(steps[b] == x[b - c.len()]); }
                else { assert(steps[b] == o[b - c.len() - x.len()]); }
            }
        }
        if steps.len() == 0 {
            assert(plan == seq![AgentStep::PrintFallback]);
            assert(!detected.claude_code && !detected.codex && !detected.openclaw) by {
                if detected.claude_code { assert(steps.contains(AgentStep::ClaudeCode)); }
                if detected.codex { assert(steps.contains(AgentStep::Codex)); }
                if detected.openclaw { assert(steps.contains(AgentStep::Openclaw)); }
            }
        } else {
            assert(plan == steps);
            assert(plan != seq![AgentStep::PrintFallback]) by {
                if plan == seq![AgentStep::PrintFallback] {
                    assert(steps[0] == AgentStep::PrintFallback);
                    assert(steps.contains(AgentStep::PrintFallback));
                }
            }
        }
    }
}

/// Plan the configuration of all detected clients (or the one requested).
pub fn setup_agents(only: Option<AgentClient>, detected: &DetectedClients) -> (steps: Vec<
    AgentStep,
>)
    ensures
        steps@ == agent_plan(only, *detected),
{
    let mut steps: Vec<AgentStep> = Vec::new();
    if only == Some(AgentClient::Print) {
        steps.push(AgentStep::PrintRequested);
        assert(steps@ =~= agent_plan(only, *detected));
        return steps;
    }
    let any = only.is_some();
    if (only.is_none() || only == Some(AgentClient::ClaudeCode)) && (detected.claude_code || any) {
        steps.push(AgentStep::ClaudeCode);
    }
    if (only.is_none() || only == Some(AgentClient::Codex)) && (detected.codex || any) {
        steps.push(AgentStep::Codex);
    }
    if (only.is_none() || only == Some(AgentClient::Openclaw)) && (detected.openclaw || any) {
        steps.push(AgentStep::Openclaw);
    }
    if steps.len() == 0 {
        steps.push(AgentStep::PrintFallback);
    }
    assert(steps@ =~= agent_plan(only, *detected));
    steps
}

/// The result line of a printed snippet.
pub fn printed_result(fallback: bool) -> (r: ClientResult)
    ensures
        r.client == AgentClient::Print,
        r.status == ClientStatus::Printed,
        r.backup is None,
        fallback ==> r.message@ == "no known client detected; printed generic snippet"@,
        !fallback ==> r.message@ == "printed generic snippet"@,
{
    ClientResult {
        client: AgentClient::Print,
        status: ClientStatus::Printed,
        backup: None,
        message: if fallback {
            String::from_str("no known client detected; printed generic snippet")
        } else {
            String::from_str("printed generic snippet")
        },
    }
}

/// The extension a backup gets: the file's own extension, a dot, then
/// `cloche.bak` (`openclaw.json` is backed up as `openclaw.json.cloche.bak`).
pub open spec fn backup_extension(ext: Option<Seq<char>>) -> Seq<char> {
    match ext {
        Some(e) => e + "."@ + "cloche.bak"@,
        None => "cloche.bak"@,
    }
}

/// The backup extension for a file's extension.
pub fn backup_ext(ext: Option<&str>) -> (r: String)
    ensures
        r@ == backup_extension(
            match ext {
                Some(e) => Some(e@),
                None => None,
            },
        ),
{
    let mut r = String::new();
    if let Some(e) = ext {
        r.append(e);
        r.append(".");
    }
    r.append("cloche.bak");
    proof {
        reveal_strlit(".");
    }
    r
}

/// Where a config file is backed up before it is edited: `None` when the
/// backup extension would hold a path separator, where `with_extension` would
/// refuse it.
pub fn backup_path(path: &str) -> (r: Option<String>)
    ensures
        match r {
            Some(p) => separator_free(backup_extension(extension_of(path@)))
                && p@ == with_extension_of(path@, backup_extension(extension_of(path@))),
            None => !separator_free(backup_extension(extension_of(path@))),
        },
{
    let ext = path_extension(path);
    let suffix = match &ext {
        Some(e) => backup_ext(Some(e.as_str())),
        None => backup_ext(None),
    };
    if !is_separator_free(suffix.as_str()) {
        return None;
    }
    Some(path_with_extension(path, suffix.as_str()))
}

/// What registering with Codex does to its `config.toml`.
pub enum CodexEdit {
    /// The cloche table is already declared.
    AlreadyPresent,
    /// A dry run: the block would be appended.
    WouldAppend,
    /// The new file text: the old text without trailing whitespace, then the
    /// block.
    Write(String),
}

/// Decide the Codex config edit for the file's current text (empty when the
/// file does not exist).
pub fn codex_config_update(text: &str, apply: bool) -> (r: CodexEdit)
    ensures
        has_codex_header(text@) ==> r is AlreadyPresent,
        !has_codex_header(text@) && !apply ==> r is WouldAppend,
        !has_codex_header(text@) && apply ==> (r matches CodexEdit::Write(new_text) && new_text@
            == trim_end(text@) + CODEX_BLOCK@),
{
    if codex_block_present(text) {
        return CodexEdit::AlreadyPresent;
    }
    if !apply {
        return CodexEdit::WouldAppend;
    }
    let mut updated = String::from_str(trim_end_str(text));
    updated.append(CODEX_BLOCK);
    CodexEdit::Write(updated)
}

/// Appending the block registers the server: the text written by a Codex
/// registration already declares it, so the next run leaves the file alone.
pub proof fn lemma_codex_block_registers(text: Seq<char>)
    ensures
        has_codex_header(trim_end(text) + CODEX_BLOCK@),
{
    reveal_strlit("\n[mcp_servers.cloche]\ncommand = \"cloche\"\nargs = [\"mcp\"]\n");
    reveal_strlit("[mcp_servers.cloche]");
    let header = CODEX_HEADER@;
    let rest = "command = \"cloche\"\nargs = [\"mcp\"]\n"@;
    reveal_strlit("command = \"cloche\"\nargs = [\"mcp\"]\n");
    let head = trim_end(text);
    assert(CODEX_BLOCK@ =~= seq!['\n'] + header + seq!['\n'] + rest);
    assert(head + CODEX_BLOCK@ =~= head + seq!['\n'] + (header + seq!['\n'] + rest));
    crate::strings::lemma_split_join(head, header + seq!['\n'] + rest, '\n');
    crate::strings::lemma_split_join(header, rest, '\n');
    assert forall|i: int| 0 <= i < header.len() implies header[i] != '\n' by {}
    crate::strings::lemma_split_single(header, '\n');
    let parts = split_on(head + CODEX_BLOCK@, '\n');
    let k = split_on(head, '\n').len() as int;
    assert(parts[k] == header);
    crate::strings::lemma_trim_start_at(header, 0);
    crate::strings::lemma_trim_end_at(header, header.len() as int);
    assert(header.subrange(0, header.len() as int) =~= header);
    assert(trim(parts[k]) == CODEX_HEADER@);
}

} // verus!

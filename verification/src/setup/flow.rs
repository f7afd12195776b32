//! The guided `cloche setup` flow: which steps a command runs, and how each
//! step's outcome lands in the report.

use vstd::prelude::*;

use crate::polish::strings;
use crate::setup::AgentClient;
use crate::setup::agents::ClientResult;
use crate::setup::agents::ClientStatus;
use crate::setup::hotkey::HotkeyOutcome;
use crate::setup::verify::Check;
use crate::setup::verify::CheckStatus;

verus! {

/// `cloche setup` subcommands; none means the whole flow.
#[derive(Debug, Clone, Copy, PartialEq, Eq, Structural)]
pub enum SetupCommand {
    /// Install the grab script and bind the hotkey.
    Hotkey,
    /// Register the MCP server with agent clients (all detected, or one).
    Agent(Option<AgentClient>),
    /// Only run the confirmation checks.
    Verify,
}

/// The mode name a report carries.
pub open spec fn spec_mode_label(cmd: Option<SetupCommand>) -> Seq<char> {
    match cmd {
        None => "setup"@,
        Some(SetupCommand::Hotkey) => "hotkey"@,
        Some(SetupCommand::Agent(_)) => "agent"@,
        Some(SetupCommand::Verify) => "verify"@,
    }
}

/// The mode name a report carries.
pub fn mode_label(cmd: Option<SetupCommand>) -> (r: &'static str)
    ensures
        r@ == spec_mode_label(cmd),
{
    match cmd {
        None => "setup",
        Some(SetupCommand::Hotkey) => "hotkey",
        Some(SetupCommand::Agent(_)) => "agent",
        Some(SetupCommand::Verify) => "verify",
    }
}

/// What one run of `cloche setup` does.
#[derive(Debug, Clone, Copy, PartialEq, Eq, Structural)]
pub struct SetupSteps {
    /// Whether anything is changed (and so whether to ask first).
    pub apply: bool,
    pub hotkey: bool,
    pub agents: bool,
    pub verify: bool,
    /// The client the agent step is limited to.
    pub only: Option<AgentClient>,
}

/// The steps of a command: `verify` and `--print` never change anything; the
/// whole flow runs every step; the checks are skipped when only printing.
pub fn setup_steps(cmd: Option<SetupCommand>, print: bool) -> (s: SetupSteps)
    ensures
        s.apply == (!print && cmd != Some(SetupCommand::Verify)),
        s.hotkey == (cmd is None || cmd == Some(SetupCommand::Hotkey)),
        s.agents == (cmd is None || cmd matches Some(SetupCommand::Agent(_))),
        s.verify == ((cmd is None || cmd == Some(SetupCommand::Verify)) && !print),
        s.only == match cmd {
            Some(SetupCommand::Agent(only)) => only,
            _ => None,
        },
{
    let verify_only = match cmd {
        Some(SetupCommand::Verify) => true,
        _ => false,
    };
    let (hotkey, agents, verify, only) = match cmd {
        None => (true, true, true, None),
        Some(SetupCommand::Hotkey) => (true, false, false, None),
        Some(SetupCommand::Agent(only)) => (false, true, false, only),
        Some(SetupCommand::Verify) => (false, false, true, None),
    };
    SetupSteps { apply: !print && !verify_only, hotkey, agents, verify: verify && !print, only }
}

/// The report of one setup run.
#[derive(Debug, Clone)]
pub struct SetupReport {
    pub ok: bool,
    pub mode: String,
    pub applied: Vec<String>,
    pub skipped: Vec<String>,
    pub printed: Vec<String>,
    pub backups: Vec<String>,
    pub checks: Vec<Check>,
    pub warnings: Vec<String>,
    pub errors: Vec<String>,
}

/// The report left when the user declines the prompt: nothing changed.
pub fn declined_report(cmd: Option<SetupCommand>) -> (r: SetupReport)
    ensures
        r.ok,
        r.mode@ == spec_mode_label(cmd),
        r.applied@.len() == 0 && r.skipped@.len() == 0 && r.printed@.len() == 0,
        r.backups@.len() == 0 && r.checks@.len() == 0 && r.errors@.len() == 0,
        strings(r.warnings@) == seq!["aborted by user; nothing changed"@],
{
    let mut r = SetupReport::new(cmd);
    r.warnings.push(String::from_str("aborted by user; nothing changed"));
    assert(strings(r.warnings@) =~= seq!["aborted by user; nothing changed"@]);
    r
}

fn joined(head: &str, tail: &str) -> (m: String)
    ensures
        m@ == head@ + tail@,
{
    let mut m = String::from_str(head);
    m.append(tail);
    m
}

impl SetupReport {
    /// An empty, passing report for a command.
    pub fn new(cmd: Option<SetupCommand>) -> (r: SetupReport)
        ensures
            r.ok,
            r.mode@ == spec_mode_label(cmd),
            r.applied@.len() == 0 && r.skipped@.len() == 0 && r.printed@.len() == 0,
            r.backups@.len() == 0 && r.checks@.len() == 0 && r.warnings@.len() == 0,
            r.errors@.len() == 0,
    {
        SetupReport {
            ok: true,
            mode: String::from_str(mode_label(cmd)),
            applied: Vec::new(),
            skipped: Vec::new(),
            printed: Vec::new(),
            backups: Vec::new(),
            checks: Vec::new(),
            warnings: Vec::new(),
            errors: Vec::new(),
        }
    }

    /// Record the hotkey step: a fresh GNOME binding is applied, an existing
    /// one skipped, manual instructions printed.
    pub fn record_hotkey(&mut self, outcome: HotkeyOutcome)
        ensures
            final(self).ok == old(self).ok,
            final(self).mode == old(self).mode,
            final(self).backups == old(self).backups,
            final(self).checks == old(self).checks,
            final(self).warnings == old(self).warnings,
            final(self).errors == old(self).errors,
            outcome == (HotkeyOutcome::Bound { changed: true }) ==> strings(final(self).applied@)
                == strings(old(self).applied@).push("hotkey:gnome-binding"@) && final(self).skipped
                == old(self).skipped && final(self).printed == old(self).printed,
            outcome == (HotkeyOutcome::Bound { changed: false }) ==> strings(final(self).skipped@)
                == strings(old(self).skipped@).push("hotkey:already-bound"@) && final(self).applied
                == old(self).applied && final(self).printed == old(self).printed,
            outcome == HotkeyOutcome::Manual ==> strings(final(self).printed@) == strings(
                old(self).printed@,
            ).push("hotkey:manual-instructions"@) && final(self).applied == old(self).applied
                && final(self).skipped == old(self).skipped,
    {
        match outcome {
            HotkeyOutcome::Bound { changed: true } => {
                self.applied.push(String::from_str("hotkey:gnome-binding"));
                assert(strings(self.applied@) =~= strings(old(self).applied@).push(
                    "hotkey:gnome-binding"@,
                ));
            },
            HotkeyOutcome::Bound { changed: false } => {
                self.skipped.push(String::from_str("hotkey:already-bound"));
                assert(strings(self.skipped@) =~= strings(old(self).skipped@).push(
                    "hotkey:already-bound"@,
                ));
            },
            HotkeyOutcome::Manual => {
                self.printed.push(String::from_str("hotkey:manual-instructions"));
                assert(strings(self.printed@) =~= strings(old(self).printed@).push(
                    "hotkey:manual-instructions"@,
                ));
            },
        }
    }

    /// Record one agent client's result under its wire name `label`:
    /// `agent:<label>` in the list its status names, an error with its
    /// message, and its backup when one was made.
    pub fn record_agent(&mut self, label: &str, result: ClientResult)
        ensures
            final(self).ok == old(self).ok,
            final(self).mode == old(self).mode,
            final(self).checks == old(self).checks,
            final(self).warnings == old(self).warnings,
            result.status == ClientStatus::Applied ==> strings(final(self).applied@) == strings(
                old(self).applied@,
            ).push("agent:"@ + label@),
            result.status != ClientStatus::Applied ==> final(self).applied == old(self).applied,
            result.status == ClientStatus::AlreadyConfigured ==> strings(final(self).skipped@)
                == strings(old(self).skipped@).push("agent:"@ + label@),
            result.status != ClientStatus::AlreadyConfigured ==> final(self).skipped == old(
                self,
            ).skipped,
            result.status == ClientStatus::Printed ==> strings(final(self).printed@) == strings(
                old(self).printed@,
            ).push("agent:"@ + label@),
            result.status != ClientStatus::Printed ==> final(self).printed == old(self).printed,
            result.status == ClientStatus::Error ==> strings(final(self).errors@) == strings(
                old(self).errors@,
            ).push("agent:"@ + label@ + ": "@ + result.message@),
            result.status != ClientStatus::Error ==> final(self).errors == old(self).errors,
            match result.backup {
                Some(b) => strings(final(self).backups@) == strings(old(self).backups@).push(b@),
                None => final(self).backups == old(self).backups,
            },
    {
        let entry = joined("agent:", label);
        match result.status {
            ClientStatus::Applied => {
                self.applied.push(entry);
                assert(strings(self.applied@) =~= strings(old(self).applied@).push(
                    "agent:"@ + label@,
                ));
            },
            ClientStatus::AlreadyConfigured => {
                self.skipped.push(entry);
                assert(strings(self.skipped@) =~= strings(old(self).skipped@).push(
                    "agent:"@ + label@,
                ));
            },
            ClientStatus::Printed => {
                self.printed.push(entry);
                assert(strings(self.printed@) =~= strings(old(self).printed@).push(
                    "agent:"@ + label@,
                ));
            },
            ClientStatus::Error => {
                let mut error = entry;
                error.append(": ");
                error.append(result.message.as_str());
                self.errors.push(error);
                assert(strings(self.errors@) =~= strings(old(self).errors@).push(
                    "agent:"@ + label@ + ": "@ + result.message@,
                ));
            },
        }
        if let Some(b) = result.backup {
            let ghost before = self.backups@;
            self.backups.push(b);
            assert(strings(self.backups@) =~= strings(before).push(b@));
        }
    }

    /// Record a confirmation check; a failed check fails the run.
    pub fn record_check(&mut self, check: Check)
        ensures
            final(self).ok == (old(self).ok && check.status != CheckStatus::Fail),
            final(self).checks@ == old(self).checks@.push(check),
            final(self).mode == old(self).mode,
            final(self).applied == old(self).applied,
            final(self).skipped == old(self).skipped,
            final(self).printed == old(self).printed,
            final(self).backups == old(self).backups,
            final(self).warnings == old(self).warnings,
            final(self).errors == old(self).errors,
    {
        if check.status == CheckStatus::Fail {
            self.ok = false;
        }
        self.checks.push(check);
    }

    /// Close the report: any error fails the run.
    pub fn finish(&mut self)
        ensures
            final(self).ok == (old(self).ok && old(self).errors@.len() == 0),
            final(self).mode == old(self).mode,
            final(self).applied == old(self).applied,
            final(self).skipped == old(self).skipped,
            final(self).printed == old(self).printed,
            final(self).backups == old(self).backups,
            final(self).checks == old(self).checks,
            final(self).warnings == old(self).warnings,
            final(self).errors == old(self).errors,
    {
        if self.errors.len() > 0 {
            self.ok = false;
        }
    }
}

} // verus!

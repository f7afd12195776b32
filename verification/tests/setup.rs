use cloche::setup::agents::backup_path;
use cloche::setup::agents::claude_cli_result;
use cloche::setup::agents::codex_config_update;
use cloche::setup::agents::CodexEdit;
use cloche::setup::agents::codex_block_present;
use cloche::setup::agents::detect_clients;
use cloche::setup::agents::json_result;
use cloche::setup::agents::printed_result;
use cloche::setup::agents::register_claude;
use cloche::setup::agents::setup_agents;
use cloche::setup::agents::AgentStep;
use cloche::setup::agents::ClaudeAction;
use cloche::setup::agents::ClientStatus;
use cloche::setup::flow::mode_label;
use cloche::setup::flow::setup_steps;
use cloche::setup::flow::SetupCommand;
use cloche::setup::flow::SetupReport;
use cloche::setup::hotkey::bind_gnome;
use cloche::setup::hotkey::choose_binding_slot;
use cloche::setup::hotkey::classify_desktop;
use cloche::setup::hotkey::format_gsettings_list;
use cloche::setup::hotkey::grab_script_path;
use cloche::setup::hotkey::is_cloche_command;
use cloche::setup::hotkey::parse_gsettings_array;
use cloche::setup::hotkey::setup_hotkey;
use cloche::setup::hotkey::Desktop;
use cloche::setup::hotkey::HotkeyOutcome;
use cloche::setup::hotkey::KEYBIND_PREFIX;
use cloche::setup::verify::agent_mcp_check;
use cloche::setup::verify::capture_pipeline_check;
use cloche::setup::verify::check_hotkey;
use cloche::setup::verify::CheckStatus;
use cloche::setup::AgentClient;

#[test]
fn classifies_gnome_variants() {
    assert_eq!(classify_desktop(Some("ubuntu:GNOME"), None), Desktop::Gnome);
    assert_eq!(classify_desktop(None, Some("gnome")), Desktop::Gnome);
}

#[test]
fn classifies_kde_plasma_sway_i3_other() {
    assert_eq!(classify_desktop(Some("KDE"), None), Desktop::Kde);
    assert_eq!(classify_desktop(Some("plasma"), None), Desktop::Kde);
    assert_eq!(classify_desktop(Some("sway"), None), Desktop::Sway);
    assert_eq!(classify_desktop(Some("i3"), None), Desktop::I3);
    assert_eq!(classify_desktop(Some("xfce"), None), Desktop::Other);
    assert_eq!(classify_desktop(None, None), Desktop::Other);
}

#[test]
fn allocates_first_free_slot() {
    let existing = vec![format!("{KEYBIND_PREFIX}custom0/")];
    assert_eq!(choose_binding_slot(&existing, None), format!("{KEYBIND_PREFIX}custom1/"));
}

#[test]
fn reuses_existing_cloche_slot() {
    let slot = format!("{KEYBIND_PREFIX}custom3/");
    let existing = vec![slot.clone()];
    assert_eq!(choose_binding_slot(&existing, Some(&slot)), slot);
}

#[test]
fn allocates_custom0_when_empty() {
    assert_eq!(choose_binding_slot(&[], None), format!("{KEYBIND_PREFIX}custom0/"));
}

#[test]
fn recognizes_cloche_command_by_name_or_path() {
    assert!(is_cloche_command("cloche-grab"));
    assert!(is_cloche_command("  cloche-grab  "));
    assert!(is_cloche_command("/home/u/.local/bin/cloche-grab"));
    assert!(is_cloche_command("/home/u/bin/cloche-grab"));
    assert!(!is_cloche_command("flameshot"));
    assert!(!is_cloche_command("cloche-grab-helper"));
}

#[test]
fn parses_gsettings_arrays() {
    assert_eq!(parse_gsettings_array("@as []"), Vec::<String>::new());
    assert_eq!(
        parse_gsettings_array("['/a/custom0/', '/a/custom1/']"),
        vec!["/a/custom0/".to_string(), "/a/custom1/".to_string()]
    );
}

#[test]
fn gsettings_lists_round_trip_through_the_parser() {
    let items = vec!["/a/custom0/".to_string(), "/a/custom1/".to_string()];
    let text = format_gsettings_list(&items);
    assert_eq!(text, "['/a/custom0/', '/a/custom1/']");
    assert_eq!(parse_gsettings_array(&text), items);
}

#[test]
fn grab_script_goes_under_the_home_bin_dir() {
    assert_eq!(grab_script_path(Some("/home/u".to_string())), "/home/u/.local/bin/cloche-grab");
    assert_eq!(grab_script_path(None), "/root/.local/bin/cloche-grab");
}

#[test]
fn a_fresh_binding_adds_the_slot_to_the_list() {
    let existing = vec![format!("{KEYBIND_PREFIX}custom0/")];
    let plan = bind_gnome(&existing, None, true);
    assert_eq!(plan.outcome, HotkeyOutcome::Bound { changed: true });
    assert_eq!(plan.slot, format!("{KEYBIND_PREFIX}custom1/"));
    assert_eq!(
        plan.new_list.as_deref(),
        Some(format!("['{KEYBIND_PREFIX}custom0/', '{KEYBIND_PREFIX}custom1/']").as_str())
    );
    assert!(plan.write_slot);

    let dry = bind_gnome(&existing, Some(&existing[0]), false);
    assert_eq!(dry.outcome, HotkeyOutcome::Bound { changed: false });
    assert!(dry.new_list.is_none() && !dry.write_slot);
}

#[test]
fn hotkey_warnings_follow_the_steps() {
    let (outcome, warnings) = setup_hotkey(
        Some(Err("disk full".to_string())),
        "/home/u/.local/bin",
        false,
        Some(Err("no dbus".to_string())),
    );
    assert_eq!(outcome, HotkeyOutcome::Manual);
    assert_eq!(
        warnings,
        vec![
            "could not install cloche-grab: disk full".to_string(),
            "/home/u/.local/bin is not on PATH; add it so the hotkey can find cloche-grab".to_string(),
            "gsettings binding failed: no dbus".to_string(),
        ]
    );
    let (outcome, warnings) =
        setup_hotkey(None, "/x", true, Some(Ok(HotkeyOutcome::Bound { changed: false })));
    assert_eq!(outcome, HotkeyOutcome::Bound { changed: false });
    assert!(warnings.is_empty());
}

#[test]
fn hotkey_check_follows_the_desktop() {
    let missing = check_hotkey(false, "/g", Desktop::Gnome, None);
    assert_eq!(missing.status, CheckStatus::Fail);
    assert_eq!(missing.detail, "/g not installed; run `cloche setup hotkey`");
    let manual = check_hotkey(true, "/g", Desktop::Sway, None);
    assert_eq!(manual.status, CheckStatus::Skip);
    let bound = check_hotkey(true, "/g", Desktop::Gnome, Some(HotkeyOutcome::Bound { changed: false }));
    assert_eq!(bound.status, CheckStatus::Pass);
    let unbound = check_hotkey(true, "/g", Desktop::Gnome, Some(HotkeyOutcome::Bound { changed: true }));
    assert_eq!(unbound.status, CheckStatus::Fail);
}

#[test]
fn detects_existing_codex_block() {
    assert!(codex_block_present("[mcp_servers.cloche]\ncommand = \"cloche\""));
    assert!(codex_block_present("[mcp_servers.other]\n\n[mcp_servers.cloche]\n"));
    assert!(!codex_block_present("[mcp_servers.other]\ncommand = \"x\""));
    assert!(!codex_block_present(""));
}

#[test]
fn agent_plan_follows_detection_and_requests() {
    let detected = detect_clients(false, true, false, true);
    assert_eq!(
        setup_agents(None, &detected),
        vec![AgentStep::ClaudeCode, AgentStep::Openclaw]
    );
    assert_eq!(setup_agents(Some(AgentClient::Codex), &detected), vec![AgentStep::Codex]);
    assert_eq!(setup_agents(Some(AgentClient::Print), &detected), vec![AgentStep::PrintRequested]);
    let nothing = detect_clients(false, false, false, false);
    assert_eq!(setup_agents(None, &nothing), vec![AgentStep::PrintFallback]);
}

#[test]
fn registration_results_carry_their_messages() {
    match register_claude(Some("agentcli"), false) {
        ClaudeAction::Done(result) => {
            assert_eq!(result.status, ClientStatus::Applied);
            assert_eq!(result.message, "would run: agentcli mcp add cloche -s user -- cloche mcp");
        }
        _ => panic!("a dry run with the command present only reports"),
    }
    assert!(matches!(register_claude(Some("agentcli"), true), ClaudeAction::RunCli));
    assert!(matches!(register_claude(None, true), ClaudeAction::EditJson));
    let failed = claude_cli_result("agentcli", Err("exit 2".to_string()));
    assert_eq!(failed.status, ClientStatus::Error);
    assert_eq!(failed.message, "agentcli CLI failed: exit 2");
    let edited = json_result(AgentClient::Openclaw, "/h/.openclaw/openclaw.json", Ok((true, Some("/b".to_string()))));
    assert_eq!(edited.status, ClientStatus::Applied);
    assert_eq!(edited.message, "edited /h/.openclaw/openclaw.json");
    assert_eq!(edited.backup.as_deref(), Some("/b"));
    let same = json_result(AgentClient::Codex, "/c", Ok((false, None)));
    assert_eq!(same.status, ClientStatus::AlreadyConfigured);
    assert_eq!(printed_result(true).message, "no known client detected; printed generic snippet");
}

#[test]
fn setup_report_sorts_outcomes() {
    assert_eq!(mode_label(None), "setup");
    assert_eq!(mode_label(Some(SetupCommand::Agent(None))), "agent");
    let steps = setup_steps(Some(SetupCommand::Verify), false);
    assert!(!steps.apply && steps.verify && !steps.hotkey && !steps.agents);
    let steps = setup_steps(None, true);
    assert!(!steps.apply && steps.hotkey && steps.agents && !steps.verify);

    let mut report = SetupReport::new(None);
    report.record_hotkey(HotkeyOutcome::Bound { changed: true });
    report.record_agent("codex", json_result(AgentClient::Codex, "/c", Err("bad toml".to_string())));
    report.record_check(check_hotkey(true, "/g", Desktop::Sway, None));
    report.finish();
    assert_eq!(report.applied, vec!["hotkey:gnome-binding".to_string()]);
    assert_eq!(report.errors, vec!["agent:codex: bad toml".to_string()]);
    assert!(!report.ok);
}

#[test]
fn backups_keep_the_file_extension() {
    assert_eq!(backup_path("/h/.openclaw/openclaw.json").as_deref(), Some("/h/.openclaw/openclaw.json.cloche.bak"));
    assert_eq!(backup_path("/h/.codex/config.toml").as_deref(), Some("/h/.codex/config.toml.cloche.bak"));
    assert_eq!(backup_path("/h/notes").as_deref(), Some("/h/notes.cloche.bak"));
}

#[test]
fn a_backup_extension_with_a_separator_is_refused() {
    assert_eq!(backup_path("/h/notes.a\\b"), None);
}

#[test]
fn codex_block_is_appended_once() {
    let text = "model = \"x\"\n\n";
    match codex_config_update(text, true) {
        CodexEdit::Write(updated) => {
            assert_eq!(updated, "model = \"x\"\n[mcp_servers.cloche]\ncommand = \"cloche\"\nargs = [\"mcp\"]\n");
            assert!(matches!(codex_config_update(&updated, true), CodexEdit::AlreadyPresent));
        }
        _ => panic!("the block is missing, so it is written"),
    }
    assert!(matches!(codex_config_update(text, false), CodexEdit::WouldAppend));
}

#[test]
fn pipeline_and_mcp_checks_word_their_outcomes() {
    assert_eq!(capture_pipeline_check(false, true).status, CheckStatus::Skip);
    assert_eq!(capture_pipeline_check(true, true).status, CheckStatus::Pass);
    let failed = capture_pipeline_check(true, false);
    assert_eq!(failed.status, CheckStatus::Fail);
    assert_eq!(failed.detail, "capture did not produce both shot.png and shot-card.png");
    assert_eq!(agent_mcp_check(Ok(true)).status, CheckStatus::Pass);
    assert_eq!(agent_mcp_check(Ok(false)).status, CheckStatus::Fail);
    assert_eq!(
        agent_mcp_check(Err("not found".to_string())).detail,
        "could not start `cloche mcp`: not found"
    );
}

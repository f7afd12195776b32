//! Post-setup verification: the verdict of each confirmation check.

use vstd::prelude::*;

use crate::json::as_items;
use crate::json::as_text;
use crate::json::get;
use crate::json::get_in;
use crate::json::get_member;
use crate::json::items_view;
use crate::json::jview;
use crate::json::parse_json;
use crate::json::parsed_json;
use crate::json::lemma_items_view;
use crate::json::value_items;
use crate::json::value_text;
use crate::json::Json;
use crate::json::JsonValue;
use crate::setup::hotkey::Desktop;
use crate::strings::str_eq;
use crate::setup::hotkey::HotkeyOutcome;

verus! {

/// How one check came out.
#[derive(Debug, Clone, Copy, PartialEq, Eq, Structural)]
pub enum CheckStatus {
    Pass,
    Fail,
    Skip,
}

/// One confirmation check.
#[derive(Debug, Clone)]
pub struct Check {
    pub name: &'static str,
    pub status: CheckStatus,
    pub detail: String,
}

/// Check 2: the grab script is installed, and on GNOME a binding points at
/// it. `binding` is the outcome of a dry-run GNOME binding when one was made
/// and succeeded.
pub fn check_hotkey(
    grab_installed: bool,
    grab_path: &str,
    desktop: Desktop,
    binding: Option<HotkeyOutcome>,
) -> (check: Check)
    ensures
        check.name == "hotkey",
        !grab_installed ==> check.status == CheckStatus::Fail && check.detail@ == grab_path@
            + " not installed; run `cloche setup hotkey`"@,
        grab_installed && desktop != Desktop::Gnome ==> check.status == CheckStatus::Skip
            && check.detail@ == "binding is manual on this desktop; grab script is installed"@,
        grab_installed && desktop == Desktop::Gnome && binding == Some(
            HotkeyOutcome::Bound { changed: false },
        ) ==> check.status == CheckStatus::Pass && check.detail@
            == "Print is bound to cloche-grab"@,
        grab_installed && desktop == Desktop::Gnome && binding != Some(
            HotkeyOutcome::Bound { changed: false },
        ) ==> check.status == CheckStatus::Fail && check.detail@
            == "no Print binding for cloche-grab; run `cloche setup hotkey`"@,
{
    if !grab_installed {
        let mut detail = String::from_str(grab_path);
        detail.append(" not installed; run `cloche setup hotkey`");
        return Check { name: "hotkey", status: CheckStatus::Fail, detail };
    }
    if desktop != Desktop::Gnome {
        return Check {
            name: "hotkey",
            status: CheckStatus::Skip,
            detail: String::from_str("binding is manual on this desktop; grab script is installed"),
        };
    }
    match binding {
        Some(HotkeyOutcome::Bound { changed: false }) => Check {
            name: "hotkey",
            status: CheckStatus::Pass,
            detail: String::from_str("Print is bound to cloche-grab"),
        },
        _ => Check {
            name: "hotkey",
            status: CheckStatus::Fail,
            detail: String::from_str("no Print binding for cloche-grab; run `cloche setup hotkey`"),
        },
    }
}

/// Some tool of a `tools/list` reply is named `name`.
pub open spec fn names_tool(tools: Seq<Json>, name: Seq<char>) -> bool {
    exists|i: int| 0 <= i < tools.len() && #[trigger] as_text(get(tools[i], "name"@)) == Some(name)
}

/// A `tools/list` JSON-RPC reply lists both `capture` and `polish` under
/// `result.tools`.
pub open spec fn lists_core_tools(reply: Json) -> bool {
    match as_items(get_in(get(reply, "result"@), "tools"@)) {
        Some(tools) => names_tool(tools, "capture"@) && names_tool(tools, "polish"@),
        None => false,
    }
}

/// Whether one line the MCP server printed is a JSON `tools/list` reply that
/// exposes capture and polish; a line that is not JSON is not such a reply.
pub fn reply_line_has_core(line: &str) -> (r: bool)
    ensures
        r == (parsed_json(line@) matches Some(reply) && lists_core_tools(reply)),
{
    match parse_json(line) {
        Ok(reply) => tools_list_has_core(&reply),
        Err(_) => false,
    }
}

/// Confirm a parsed `tools/list` reply exposes capture and polish.
pub fn tools_list_has_core(reply: &JsonValue) -> (r: bool)
    ensures
        r == lists_core_tools(jview(*reply)),
{
    let result = get_member(reply, "result");
    let tools = match value_items(crate::json::get_in_value(result, "tools")) {
        Some(tools) => tools,
        None => return false,
    };
    proof {
        lemma_items_view(tools@);
    }
    let ghost views = items_view(tools@);
    let mut capture = false;
    let mut polish = false;
    let n = tools.len();
    let mut i: usize = 0;
    while i < n
        invariant
            n == tools@.len(),
            views == items_view(tools@),
            views.len() == n,
            forall|j: int| 0 <= j < n ==> #[trigger] views[j] == jview(tools@[j]),
            i <= n,
            capture == exists|j: int|
                0 <= j < i && #[trigger] as_text(get(views[j], "name"@)) == Some("capture"@),
            polish == exists|j: int|
                0 <= j < i && #[trigger] as_text(get(views[j], "name"@)) == Some("polish"@),
        decreases n - i,
    {
        let name = value_text(get_member(&tools[i], "name"));
        proof {
            assert(views[i as int] == jview(tools@[i as int]));
        }
        match name {
            Some(s) => {
                if str_eq(s, "capture") {
                    capture = true;
                }
                if str_eq(s, "polish") {
                    polish = true;
                }
            },
            None => {},
        }
        i = i + 1;
    }
    capture && polish
}

/// Check 1: a real non-interactive capture made both images. `has_gui` says
/// whether a display is reachable; `produced_both` whether the capture ran
/// and left a non-empty `shot.png` and `shot-card.png`.
pub fn capture_pipeline_check(has_gui: bool, produced_both: bool) -> (check: Check)
    ensures
        check.name == "capture-pipeline",
        !has_gui ==> check.status == CheckStatus::Skip && check.detail@
            == "no DISPLAY/WAYLAND_DISPLAY; cannot test capture here"@,
        has_gui && produced_both ==> check.status == CheckStatus::Pass && check.detail@
            == "captured shot.png and shot-card.png"@,
        has_gui && !produced_both ==> check.status == CheckStatus::Fail && check.detail@
            == "capture did not produce both shot.png and shot-card.png"@,
{
    if !has_gui {
        return Check {
            name: "capture-pipeline",
            status: CheckStatus::Skip,
            detail: String::from_str("no DISPLAY/WAYLAND_DISPLAY; cannot test capture here"),
        };
    }
    if produced_both {
        Check {
            name: "capture-pipeline",
            status: CheckStatus::Pass,
            detail: String::from_str("captured shot.png and shot-card.png"),
        }
    } else {
        Check {
            name: "capture-pipeline",
            status: CheckStatus::Fail,
            detail: String::from_str("capture did not produce both shot.png and shot-card.png"),
        }
    }
}

/// Check 3: `cloche mcp` answered `tools/list` with the core tools.
/// `started` is the error when the server could not be started, else whether
/// some reply line listed capture and polish.
pub fn agent_mcp_check(started: Result<bool, String>) -> (check: Check)
    ensures
        check.name == "agent-mcp",
        match started {
            Err(err) => check.status == CheckStatus::Fail && check.detail@
                == "could not start `cloche mcp`: "@ + err@,
            Ok(true) => check.status == CheckStatus::Pass && check.detail@
                == "`cloche mcp` lists capture and polish"@,
            Ok(false) => check.status == CheckStatus::Fail && check.detail@
                == "`cloche mcp` did not return the core tools"@,
        },
{
    match started {
        Err(err) => {
            let mut detail = String::from_str("could not start `cloche mcp`: ");
            detail.append(err.as_str());
            Check { name: "agent-mcp", status: CheckStatus::Fail, detail }
        },
        Ok(true) => Check {
            name: "agent-mcp",
            status: CheckStatus::Pass,
            detail: String::from_str("`cloche mcp` lists capture and polish"),
        },
        Ok(false) => Check {
            name: "agent-mcp",
            status: CheckStatus::Fail,
            detail: String::from_str("`cloche mcp` did not return the core tools"),
        },
    }
}

} // verus!

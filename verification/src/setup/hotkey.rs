//! Desktop detection and screenshot-hotkey binding decisions.

use vstd::prelude::*;

use crate::polish::strings;
use crate::strings::chars_of;
use crate::strings::contains_str;
use crate::strings::decimal;
use crate::strings::ends_with;
use crate::strings::ends_with_str;
use crate::strings::has_sub;
use crate::strings::lowercase;
use crate::strings::push_char;
use crate::strings::push_decimal;
use crate::strings::str_eq;
use crate::strings::to_lowercase;
use crate::strings::trim;
use crate::strings::trim_str;
use crate::strings::split_on;
use crate::strings::strip_lead;
use crate::strings::strip_lead_str;
use crate::strings::strip_trail;
use crate::strings::strip_trail_str;

verus! {

/// Desktop environments treated distinctly for hotkey binding.
#[derive(Debug, Clone, Copy, PartialEq, Eq, Structural)]
pub enum Desktop {
    Gnome,
    Kde,
    Sway,
    I3,
    Other,
}

/// The desktop a lowercased `XDG_CURRENT_DESKTOP DESKTOP_SESSION` line names.
pub open spec fn desktop_of(hay: Seq<char>) -> Desktop {
    if has_sub(hay, "gnome"@) {
        Desktop::Gnome
    } else if has_sub(hay, "kde"@) || has_sub(hay, "plasma"@) {
        Desktop::Kde
    } else if has_sub(hay, "sway"@) {
        Desktop::Sway
    } else if has_sub(hay, "i3"@) {
        Desktop::I3
    } else {
        Desktop::Other
    }
}

/// Classify an already lowercased desktop description by substring.
pub fn classify_haystack(hay: &str) -> (r: Desktop)
    ensures
        r == desktop_of(hay@),
{
    if contains_str(hay, "gnome") {
        Desktop::Gnome
    } else if contains_str(hay, "kde") || contains_str(hay, "plasma") {
        Desktop::Kde
    } else if contains_str(hay, "sway") {
        Desktop::Sway
    } else if contains_str(hay, "i3") {
        Desktop::I3
    } else {
        Desktop::Other
    }
}

/// The text of an optional value, empty when absent.
pub open spec fn or_empty(value: Option<&str>) -> Seq<char> {
    match value {
        Some(v) => v@,
        None => Seq::empty(),
    }
}

/// Classify a desktop from `XDG_CURRENT_DESKTOP` / `DESKTOP_SESSION` values.
/// Matching is case-insensitive and substring-based because real values are
/// noisy (e.g. `ubuntu:GNOME`, `plasma`, `sway`).
pub fn classify_desktop(current_desktop: Option<&str>, desktop_session: Option<&str>) -> (r:
    Desktop)
    ensures
        r == desktop_of(
            lowercase(or_empty(current_desktop) + seq![' '] + or_empty(desktop_session)),
        ),
{
    let mut line = String::new();
    if let Some(current) = current_desktop {
        line.append(current);
    }
    push_char(&mut line, ' ');
    if let Some(session) = desktop_session {
        line.append(session);
    }
    assert(line@ =~= or_empty(current_desktop) + seq![' '] + or_empty(desktop_session));
    let hay = to_lowercase(line.as_str());
    classify_haystack(hay.as_str())
}

/// Where the grab script is installed, given `$HOME` (`/root` when unset).
pub open spec fn grab_path(home: Option<Seq<char>>) -> Seq<char> {
    crate::config::path_join(
        match home {
            Some(h) => h,
            None => "/root"@,
        },
        ".local/bin/cloche-grab"@,
    )
}

/// Target install path for the grab script.
pub fn grab_script_path(home: Option<String>) -> (r: String)
    ensures
        r@ == grab_path(crate::config::opt_string(home)),
{
    let mut path = match home {
        Some(h) => h,
        None => String::from_str("/root"),
    };
    crate::config::push_path(&mut path, ".local/bin/cloche-grab");
    path
}

/// True when a binding command points at the grab script, whether bound by
/// the bare name or by an absolute path.
pub open spec fn names_grab_script(cmd: Seq<char>) -> bool {
    trim(cmd) == "cloche-grab"@ || ends_with(trim(cmd), "/cloche-grab"@)
}

/// True when a binding command points at our grab script, whether bound by
/// the bare name (`cloche-grab`) or an absolute path
/// (`/home/u/.local/bin/cloche-grab`). This keeps re-runs idempotent against
/// hand-rolled bindings.
pub fn is_cloche_command(cmd: &str) -> (r: bool)
    ensures
        r == names_grab_script(cmd@),
{
    let c = trim_str(cmd);
    str_eq(c, "cloche-grab") || ends_with_str(c, "/cloche-grab")
}

/// The dconf directory holding the custom keybinding slots.
pub const KEYBIND_PREFIX: &'static str = "/org/gnome/settings-daemon/plugins/media-keys/custom-keybindings/";

/// The schema of the media-keys settings.
pub const KEYBIND_SCHEMA: &'static str = "org.gnome.settings-daemon.plugins.media-keys";

/// The dconf path of custom keybinding slot `n`.
pub open spec fn slot_path(n: nat) -> Seq<char> {
    KEYBIND_PREFIX@ + "custom"@ + decimal(n) + "/"@
}

fn slot_string(n: u64) -> (r: String)
    ensures
        r@ == slot_path(n as nat),
{
    let mut r = String::from_str(KEYBIND_PREFIX);
    r.append("custom");
    push_decimal(&mut r, n);
    r.append("/");
    r
}

/// A decimal form is never empty.
pub proof fn lemma_decimal_nonempty(n: nat)
    ensures
        decimal(n).len() >= 1,
    decreases n,
{
    if n >= 10 {
        lemma_decimal_nonempty(n / 10);
    }
}

/// Distinct digits are distinct characters.
proof fn lemma_digit_char_injective(a: nat, b: nat)
    requires
        a < 10,
        b < 10,
        crate::strings::digit_char(a) == crate::strings::digit_char(b),
    ensures
        a == b,
{
    assert(crate::strings::digit_char(a) as u32 == 48 + a);
    assert(crate::strings::digit_char(b) as u32 == 48 + b);
}

/// Distinct numbers have distinct decimal forms.
pub proof fn lemma_decimal_injective(a: nat, b: nat)
    requires
        decimal(a) == decimal(b),
    ensures
        a == b,
    decreases a,
{
    if a >= 10 {
        lemma_decimal_nonempty(a / 10);
    }
    if b >= 10 {
        lemma_decimal_nonempty(b / 10);
    }
    if a >= 10 && b >= 10 {
        assert(decimal(a) == decimal(a / 10).push(crate::strings::digit_char(a % 10)));
        assert(decimal(b) == decimal(b / 10).push(crate::strings::digit_char(b % 10)));
        assert(decimal(a).last() == decimal(b).last());
        let da = crate::strings::digit_char((a % 10) as nat);
        let db = crate::strings::digit_char((b % 10) as nat);
        assert(decimal(a / 10).push(da).last() == da);
        assert(decimal(b / 10).push(db).last() == db);
        assert(crate::strings::digit_char((a % 10) as nat) == crate::strings::digit_char((b % 10) as nat));
        lemma_digit_char_injective(a % 10, b % 10);
        assert(decimal(a).drop_last() =~= decimal(a / 10));
        assert(decimal(b).drop_last() =~= decimal(b / 10));
        lemma_decimal_injective(a / 10, b / 10);
    } else if a < 10 && b >= 10 {
        assert(decimal(a).len() == 1);
    } else if a >= 10 && b < 10 {
        assert(decimal(b).len() == 1);
    } else {
        assert(decimal(a) == seq![crate::strings::digit_char(a)]);
        assert(decimal(b) == seq![crate::strings::digit_char(b)]);
        assert(decimal(a)[0] == decimal(b)[0]);
        assert(seq![crate::strings::digit_char(a)][0] == crate::strings::digit_char(a));
        assert(seq![crate::strings::digit_char(b)][0] == crate::strings::digit_char(b));
        assert(crate::strings::digit_char(a) == crate::strings::digit_char(b));
        lemma_digit_char_injective(a, b);
    }
}

/// Distinct slot numbers name distinct slots.
pub proof fn lemma_slot_path_injective(a: nat, b: nat)
    requires
        slot_path(a) == slot_path(b),
    ensures
        a == b,
{
    let head = KEYBIND_PREFIX@ + "custom"@;
    let da = decimal(a);
    let db = decimal(b);
    assert(slot_path(a) =~= head + da + "/"@);
    assert(slot_path(b) =~= head + db + "/"@);
    reveal_strlit("/");
    assert(da.len() == db.len());
    assert(da =~= slot_path(a).subrange(head.len() as int, (head.len() + da.len()) as int));
    assert(db =~= slot_path(b).subrange(head.len() as int, (head.len() + db.len()) as int));
    lemma_decimal_injective(a, b);
}

/// If the first `k` slots are all taken, the list holds at least `k` entries.
proof fn lemma_taken_slots_bound(existing: Seq<Seq<char>>, k: nat)
    requires
        forall|m: nat| m < k ==> existing.contains(#[trigger] slot_path(m)),
    ensures
        k <= existing.len(),
{
    let range = vstd::set_lib::set_int_range(0, k as int);
    vstd::set_lib::lemma_int_range(0, k as int);
    let f = |m: int| slot_path(m as nat);
    let image = range.map(f);
    assert(vstd::relations::injective_on(f, range)) by {
        assert forall|x: int, y: int| range.contains(x) && range.contains(y) && #[trigger] f(x)
            == #[trigger] f(y) implies x == y by {
            lemma_slot_path_injective(x as nat, y as nat);
        }
    }
    vstd::set_lib::lemma_map_size(range, image, f);
    assert(image.subset_of(existing.to_set())) by {
        assert forall|s: Seq<char>| image.contains(s) implies existing.to_set().contains(s) by {
            let m = choose|m: int| range.contains(m) && f(m) == s;
            assert(existing.contains(slot_path(m as nat)));
        }
    }
    existing.lemma_cardinality_of_set();
    vstd::set_lib::lemma_len_subset(image, existing.to_set());
}

/// Decide which dconf slot path the cloche binding should occupy.
/// `existing` is the current custom-keybindings list; `cloche_slot` is the
/// slot (if any) whose command already resolves to cloche-grab. Reuse the
/// cloche slot when present; otherwise allocate the first unused `customN`.
pub fn choose_binding_slot(existing: &[String], cloche_slot: Option<&str>) -> (r: String)
    ensures
        cloche_slot matches Some(slot) ==> r@ == slot@,
        cloche_slot is None ==> !strings(existing@).contains(r@) && exists|n: nat|
            r@ == slot_path(n) && forall|m: nat| m < n ==> strings(existing@).contains(
                #[trigger] slot_path(m),
            ),
{
    if let Some(slot) = cloche_slot {
        return String::from_str(slot);
    }
    let len = existing.len();
    let mut n: u64 = 0;
    loop
        invariant
            cloche_slot is None,
            len == existing@.len(),
            n <= len,
            forall|m: nat| m < n ==> strings(existing@).contains(#[trigger] slot_path(m)),
        decreases len - n,
    {
        let candidate = slot_string(n);
        if !crate::polish::contains_name(existing, candidate.as_str()) {
            return candidate;
        }
        proof {
            assert forall|m: nat| m < n + 1 implies strings(existing@).contains(
                #[trigger] slot_path(m),
            ) by {
                if m == n {
                    assert(candidate@ == slot_path(m));
                }
            }
            lemma_taken_slots_bound(strings(existing@), (n + 1) as nat);
        }
        n = n + 1;
    }
}

/// One entry of a gsettings array: trimmed, then stripped of its quotes.
pub open spec fn clean_entry(piece: Seq<char>) -> Seq<char> {
    strip_trail(strip_lead(trim(piece), '\''), '\'')
}

/// The non-empty cleaned entries of `pieces`, in order.
pub open spec fn kept_entries(pieces: Seq<Seq<char>>) -> Seq<Seq<char>>
    decreases pieces.len(),
{
    if pieces.len() == 0 {
        Seq::empty()
    } else {
        kept_entries(pieces.drop_last()) + if clean_entry(pieces.last()).len() > 0 {
            seq![clean_entry(pieces.last())]
        } else {
            Seq::empty()
        }
    }
}

/// The entries of a gsettings array value like `['a', 'b']` or `@as []`.
pub open spec fn gsettings_entries(raw: Seq<char>) -> Seq<Seq<char>> {
    let t = trim(raw);
    if t == "@as []"@ || t == "[]"@ {
        Seq::empty()
    } else {
        kept_entries(split_on(strip_trail(strip_lead(t, '['), ']'), ','))
    }
}

fn push_entry(out: &mut Vec<String>, piece: &str)
    ensures
        strings(final(out)@) == strings(old(out)@) + if clean_entry(piece@).len() > 0 {
            seq![clean_entry(piece@)]
        } else {
            Seq::empty()
        },
{
    let entry = strip_trail_str(strip_lead_str(trim_str(piece), '\''), '\'');
    let ghost before = strings(out@);
    if entry.unicode_len() > 0 {
        out.push(String::from_str(entry));
        assert(strings(out@) =~= before + seq![clean_entry(piece@)]);
    } else {
        assert(strings(out@) =~= before + Seq::<Seq<char>>::empty());
    }
}

/// Parse a gsettings array value like `['a', 'b']` or `@as []` into entries.
pub fn parse_gsettings_array(raw: &str) -> (r: Vec<String>)
    ensures
        strings(r@) == gsettings_entries(raw@),
{
    let trimmed = trim_str(raw);
    if str_eq(trimmed, "@as []") || str_eq(trimmed, "[]") {
        let r: Vec<String> = Vec::new();
        assert(strings(r@) =~= gsettings_entries(raw@));
        return r;
    }
    let inner = strip_trail_str(strip_lead_str(trimmed, '['), ']');
    let chars = chars_of(inner);
    let n = chars.len();
    let mut out: Vec<String> = Vec::new();
    let mut current = String::new();
    let ghost mut completed: Seq<Seq<char>> = Seq::empty();
    let mut i: usize = 0;
    proof {
        assert(inner@.take(0) =~= Seq::<char>::empty());
        assert(strings(out@) =~= kept_entries(completed));
        assert(split_on(inner@.take(0), ',') =~= completed.push(current@));
    }
    while i < n
        invariant
            n == chars@.len(),
            chars@ == inner@,
            i <= n,
            split_on(inner@.take(i as int), ',') == completed.push(current@),
            strings(out@) == kept_entries(completed),
        decreases n - i,
    {
        let c = chars[i];
        proof {
            assert(inner@.take(i + 1).drop_last() =~= inner@.take(i as int));
            assert(inner@.take(i + 1).last() == c);
        }
        if c == ',' {
            push_entry(&mut out, current.as_str());
            proof {
                assert(completed.push(current@).drop_last() =~= completed);
                assert(completed.push(current@).last() == current@);
                completed = completed.push(current@);
            }
            current = String::new();
            proof {
                assert(split_on(inner@.take(i + 1), ',') =~= completed.push(current@));
            }
        } else {
            let ghost before = current@;
            push_char(&mut current, c);
            proof {
                assert(split_on(inner@.take(i + 1), ',') =~= completed.push(current@));
            }
        }
        i = i + 1;
    }
    push_entry(&mut out, current.as_str());
    proof {
        assert(inner@.take(n as int) =~= inner@);
        assert(completed.push(current@).drop_last() =~= completed);
        assert(completed.push(current@).last() == current@);
        assert(strings(out@) =~= gsettings_entries(raw@));
    }
    out
}

/// Outcome of attempting to bind the hotkey.
#[derive(Debug, Clone, Copy, PartialEq, Eq, Structural)]
pub enum HotkeyOutcome {
    /// Bound automatically (GNOME). `changed` is true when a change was made.
    Bound { changed: bool },
    /// Printed manual instructions for this desktop.
    Manual,
}

/// The gsettings settings one GNOME binding run makes.
pub struct GnomeBinding {
    /// What the run reports.
    pub outcome: HotkeyOutcome,
    /// The slot the binding occupies.
    pub slot: String,
    /// The new `custom-keybindings` list, when the slot must be added to it.
    pub new_list: Option<String>,
    /// Whether to write the slot's `name`, `command` and `binding` keys.
    pub write_slot: bool,
}

/// A quoted entry of a gsettings list.
pub open spec fn quoted(s: Seq<char>) -> Seq<char> {
    seq!['\''] + s + seq!['\'']
}

/// The quoted entries joined by `, `.
pub open spec fn joined_entries(items: Seq<Seq<char>>) -> Seq<char>
    decreases items.len(),
{
    if items.len() == 0 {
        Seq::empty()
    } else if items.len() == 1 {
        quoted(items[0])
    } else {
        joined_entries(items.drop_last()) + seq![',', ' '] + quoted(items.last())
    }
}

/// A gsettings array literal: `['a', 'b']`.
pub open spec fn gsettings_list(items: Seq<Seq<char>>) -> Seq<char> {
    seq!['['] + joined_entries(items) + seq![']']
}

/// Format entries as a gsettings array literal.
pub fn format_gsettings_list(items: &[String]) -> (r: String)
    ensures
        r@ == gsettings_list(strings(items@)),
{
    let mut body = String::new();
    let n = items.len();
    let mut i: usize = 0;
    while i < n
        invariant
            n == items@.len(),
            i <= n,
            body@ == joined_entries(strings(items@).take(i as int)),
        decreases n - i,
    {
        let ghost before = body@;
        if i > 0 {
            push_char(&mut body, ',');
            push_char(&mut body, ' ');
        }
        push_char(&mut body, '\'');
        body.append(items[i].as_str());
        push_char(&mut body, '\'');
        proof {
            let prefix = strings(items@).take(i + 1);
            assert(prefix.drop_last() =~= strings(items@).take(i as int));
            assert(prefix.last() == items@[i as int]@);
            if i == 0 {
                assert(body@ =~= quoted(items@[0]@));
            } else {
                assert(body@ =~= before + seq![',', ' '] + quoted(items@[i as int]@));
            }
        }
        i = i + 1;
    }
    let mut r = String::new();
    push_char(&mut r, '[');
    r.append(body.as_str());
    push_char(&mut r, ']');
    proof {
        assert(strings(items@).take(n as int) =~= strings(items@));
        assert(r@ =~= gsettings_list(strings(items@)));
    }
    r
}

/// Decide how to bind `cloche-grab` to Print on GNOME, idempotently.
/// `existing` is the current custom-keybindings list, `cloche_slot` the slot
/// (if any) already bound to the grab script, `apply` false means dry-run.
pub fn bind_gnome(existing: &[String], cloche_slot: Option<&str>, apply: bool) -> (plan:
    GnomeBinding)
    ensures
        plan.outcome == (HotkeyOutcome::Bound { changed: cloche_slot is None }),
        cloche_slot matches Some(slot) ==> plan.slot@ == slot@,
        cloche_slot is None ==> !strings(existing@).contains(plan.slot@) && exists|n: nat|
            plan.slot@ == slot_path(n) && forall|m: nat| m < n ==> strings(existing@).contains(
                #[trigger] slot_path(m),
            ),
        plan.write_slot == apply,
        plan.new_list matches Some(list) ==> list@ == gsettings_list(
            strings(existing@).push(plan.slot@),
        ),
        plan.new_list is Some <==> apply && !strings(existing@).contains(plan.slot@),
{
    let already = cloche_slot.is_some();
    let slot = choose_binding_slot(existing, cloche_slot);
    if !apply {
        return GnomeBinding {
            outcome: HotkeyOutcome::Bound { changed: !already },
            slot,
            new_list: None,
            write_slot: false,
        };
    }
    let new_list = if !crate::polish::contains_name(existing, slot.as_str()) {
        let mut updated: Vec<String> = Vec::new();
        let n = existing.len();
        let mut i: usize = 0;
        while i < n
            invariant
                n == existing@.len(),
                i <= n,
                strings(updated@) == strings(existing@).take(i as int),
            decreases n - i,
        {
            let ghost before = updated@;
            let item = existing[i].clone();
            updated.push(item);
            proof {
                assert(updated@ == before.push(item));
                assert(strings(updated@) =~= strings(before).push(item@));
                assert(strings(updated@) =~= strings(existing@).take(i + 1));
            }
            i = i + 1;
        }
        updated.push(slot.clone());
        proof {
            assert(strings(existing@).take(n as int) =~= strings(existing@));
            assert(strings(updated@) =~= strings(existing@).push(slot@));
        }
        Some(format_gsettings_list(updated.as_slice()))
    } else {
        None
    };
    GnomeBinding { outcome: HotkeyOutcome::Bound { changed: !already }, slot, new_list, write_slot: true }
}

/// The warnings and outcome of installing the hotkey, from what the
/// application observed: `install` is the result of writing the grab script
/// (`None` on a dry run), `bin_on_path` whether its directory `bin_dir` is on
/// PATH, and `gnome` the result of binding on GNOME (`None` elsewhere, where
/// the binding is manual).
pub open spec fn hotkey_report(
    install: Option<Result<(), String>>,
    bin_dir: Seq<char>,
    bin_on_path: bool,
    gnome: Option<Result<HotkeyOutcome, String>>,
) -> (HotkeyOutcome, Seq<Seq<char>>) {
    let install_warning = match install {
        Some(Err(err)) => seq!["could not install cloche-grab: "@ + err@],
        _ => Seq::empty(),
    };
    let path_warning = if bin_on_path {
        Seq::empty()
    } else {
        seq![bin_dir + " is not on PATH; add it so the hotkey can find cloche-grab"@]
    };
    match gnome {
        Some(Ok(outcome)) => (outcome, install_warning + path_warning),
        Some(Err(err)) => (
            HotkeyOutcome::Manual,
            install_warning + path_warning + seq!["gsettings binding failed: "@ + err@],
        ),
        None => (HotkeyOutcome::Manual, install_warning + path_warning),
    }
}

fn prefixed(head: &str, tail: &str) -> (m: String)
    ensures
        m@ == head@ + tail@,
{
    let mut m = String::from_str(head);
    m.append(tail);
    m
}

/// Finish installing the hotkey: the outcome to report and the warnings to
/// show, in the order the steps ran.
pub fn setup_hotkey(
    install: Option<Result<(), String>>,
    bin_dir: &str,
    bin_on_path: bool,
    gnome: Option<Result<HotkeyOutcome, String>>,
) -> (r: (HotkeyOutcome, Vec<String>))
    ensures
        r.0 == hotkey_report(install, bin_dir@, bin_on_path, gnome).0,
        strings(r.1@) == hotkey_report(install, bin_dir@, bin_on_path, gnome).1,
{
    let ghost want = hotkey_report(install, bin_dir@, bin_on_path, gnome);
    let mut warnings: Vec<String> = Vec::new();
    if let Some(Err(err)) = &install {
        warnings.push(prefixed("could not install cloche-grab: ", err.as_str()));
    }
    if !bin_on_path {
        warnings.push(prefixed(bin_dir, " is not on PATH; add it so the hotkey can find cloche-grab"));
    }
    let outcome = match &gnome {
        Some(Ok(outcome)) => *outcome,
        Some(Err(err)) => {
            warnings.push(prefixed("gsettings binding failed: ", err.as_str()));
            HotkeyOutcome::Manual
        },
        None => HotkeyOutcome::Manual,
    };
    proof {
        assert(strings(warnings@) =~= want.1);
    }
    (outcome, warnings)
}

// ---------------------------------------------------------------------------
// Reading back what was written

/// An entry the gsettings list format carries through unchanged: not empty,
/// no comma or quote in it, and no whitespace at either end (every slot path
/// is one).
pub open spec fn plain_entry(e: Seq<char>) -> bool {
    &&& e.len() > 0
    &&& forall|i: int| 0 <= i < e.len() ==> e[i] != ',' && e[i] != '\''
    &&& !crate::strings::is_space(e[0])
    &&& !crate::strings::is_space(e.last())
}

/// The pieces a formatted list splits into at its commas: the first quoted
/// entry, then each further one after its separating space.
pub open spec fn list_pieces(items: Seq<Seq<char>>) -> Seq<Seq<char>>
    decreases items.len(),
{
    if items.len() <= 1 {
        items.map_values(|e: Seq<char>| quoted(e))
    } else {
        list_pieces(items.drop_last()) + seq![seq![' '] + quoted(items.last())]
    }
}

proof fn lemma_split_joined(items: Seq<Seq<char>>)
    requires
        items.len() > 0,
        forall|i: int| 0 <= i < items.len() ==> plain_entry(#[trigger] items[i]),
    ensures
        split_on(joined_entries(items), ',') == list_pieces(items),
    decreases items.len(),
{
    if items.len() == 1 {
        let q = quoted(items[0]);
        assert forall|i: int| 0 <= i < q.len() implies q[i] != ',' by {
            if 0 < i < q.len() - 1 {
                assert(q[i] == items[0][i - 1]);
            }
        }
        crate::strings::lemma_split_single(q, ',');
        assert(items.map_values(|e: Seq<char>| quoted(e)) =~= seq![q]);
    } else {
        let rest = items.drop_last();
        assert forall|i: int| 0 <= i < rest.len() implies plain_entry(#[trigger] rest[i]) by {
            assert(rest[i] == items[i]);
        }
        lemma_split_joined(rest);
        let last = seq![' '] + quoted(items.last());
        assert(plain_entry(items[items.len() - 1]));
        assert forall|i: int| 0 <= i < last.len() implies last[i] != ',' by {
            if 1 < i < last.len() - 1 {
                assert(last[i] == items.last()[i - 2]);
            }
        }
        crate::strings::lemma_split_single(last, ',');
        assert(joined_entries(items) =~= joined_entries(rest) + seq![','] + last);
        crate::strings::lemma_split_join(joined_entries(rest), last, ',');
    }
}

proof fn lemma_clean_piece(e: Seq<char>, lead: bool)
    requires
        plain_entry(e),
    ensures
        clean_entry(if lead {
            seq![' '] + quoted(e)
        } else {
            quoted(e)
        }) == e,
{
    let q = quoted(e);
    let p = if lead {
        seq![' '] + q
    } else {
        q
    };
    let start: int = if lead {
        1
    } else {
        0
    };
    assert(p.subrange(start, p.len() as int) =~= q);
    assert(q[0] == '\'' && q[q.len() - 1] == '\'');
    assert(crate::strings::is_space(' '));
    crate::strings::lemma_trim_start_at(p, start);
    crate::strings::lemma_trim_end_at(q, q.len() as int);
    assert(q.subrange(0, q.len() as int) =~= q);
    assert(trim(p) == q);
    assert(e[0] != '\'');
    assert(q[1] == e[0]);
    crate::strings::lemma_strip_lead_at(q, '\'', 1);
    let tail = q.subrange(1, q.len() as int);
    assert(tail =~= e + seq!['\'']);
    assert(tail[e.len() - 1] == e.last());
    crate::strings::lemma_strip_trail_at(tail, '\'', e.len() as int);
    assert(tail.subrange(0, e.len() as int) =~= e);
}

proof fn lemma_kept_pieces(items: Seq<Seq<char>>)
    requires
        items.len() > 0,
        forall|i: int| 0 <= i < items.len() ==> plain_entry(#[trigger] items[i]),
    ensures
        kept_entries(list_pieces(items)) == items,
    decreases items.len(),
{
    if items.len() == 1 {
        lemma_clean_piece(items[0], false);
        let pieces = list_pieces(items);
        assert(pieces =~= seq![quoted(items[0])]);
        assert(pieces.drop_last() =~= Seq::<Seq<char>>::empty());
        assert(clean_entry(quoted(items[0])) == items[0]);
        assert(pieces.last() == quoted(items[0]));
        assert(kept_entries(pieces.drop_last()) =~= Seq::<Seq<char>>::empty());
        assert(kept_entries(pieces) =~= seq![items[0]]);
        assert(kept_entries(pieces) =~= items);
    } else {
        let rest = items.drop_last();
        assert forall|i: int| 0 <= i < rest.len() implies plain_entry(#[trigger] rest[i]) by {
            assert(rest[i] == items[i]);
        }
        lemma_kept_pieces(rest);
        assert(plain_entry(items[items.len() - 1]));
        lemma_clean_piece(items.last(), true);
        let pieces = list_pieces(items);
        assert(pieces.drop_last() =~= list_pieces(rest));
        assert(pieces.last() == seq![' '] + quoted(items.last()));
        assert(clean_entry(pieces.last()) == items.last());
        assert(items.last().len() > 0);
        assert(kept_entries(pieces) == kept_entries(list_pieces(rest)) + seq![items.last()]);
        assert(kept_entries(pieces) =~= items);
    }
}

/// Decimal text holds digits only.
proof fn lemma_decimal_digits(n: nat)
    ensures
        forall|i: int| 0 <= i < decimal(n).len() ==> '0' <= #[trigger] decimal(n)[i] <= '9',
    decreases n,
{
    let d = if n < 10 {
        n
    } else {
        n % 10
    };
    assert((48 + d) as u8 == 48 + d);
    assert('0' <= crate::strings::digit_char(d) <= '9');
    if n >= 10 {
        lemma_decimal_digits(n / 10);
        let s = decimal(n / 10);
        assert forall|i: int| 0 <= i < decimal(n).len() implies '0' <= #[trigger] decimal(n)[i]
            <= '9' by {
            if i < s.len() {
                assert(decimal(n)[i] == s[i]);
            }
        }
    }
}

/// Every slot path is a plain entry.
pub proof fn lemma_slot_path_is_plain(n: nat)
    ensures
        plain_entry(slot_path(n)),
{
    reveal_strlit("/org/gnome/settings-daemon/plugins/media-keys/custom-keybindings/");
    reveal_strlit("custom");
    reveal_strlit("/");
    lemma_decimal_digits(n);
    lemma_decimal_nonempty(n);
    let p = slot_path(n);
    let head = KEYBIND_PREFIX@ + "custom"@;
    assert forall|i: int| 0 <= i < p.len() implies p[i] != ',' && p[i] != '\'' by {
        if i < head.len() {
            assert(p[i] == head[i]);
        } else if i < head.len() + decimal(n).len() {
            assert(p[i] == decimal(n)[i - head.len()]);
        } else {
            assert(p[i] == '/');
        }
    }
    assert(p[0] == '/');
    assert(p.last() == '/');
}

/// Reading back a written list gives the entries that were written: parsing
/// what `format_gsettings_list` produced for plain entries (every slot path
/// is one) yields those entries, in order.
pub proof fn lemma_list_round_trip(items: Seq<Seq<char>>)
    requires
        forall|i: int| 0 <= i < items.len() ==> plain_entry(#[trigger] items[i]),
    ensures
        gsettings_entries(gsettings_list(items)) == items,
{
    let l = gsettings_list(items);
    let j = joined_entries(items);
    assert(l[0] == '[');
    assert(l[l.len() - 1] == ']');
    crate::strings::lemma_trim_start_at(l, 0);
    crate::strings::lemma_trim_end_at(l, l.len() as int);
    assert(l.subrange(0, l.len() as int) =~= l);
    assert(trim(l) == l);
    reveal_strlit("[]");
    reveal_strlit("@as []");
    if items.len() == 0 {
        assert(l =~= "[]"@);
    } else {
        lemma_split_joined(items);
        lemma_kept_pieces(items);
        let pieces = list_pieces(items);
        assert(j.len() > 0 && j[0] == '\'' && j.last() == '\'') by {
            lemma_joined_ends(items);
        }
        assert(l != "[]"@) by {
            assert(l.len() > 2);
        }
        assert(l != "@as []"@) by {
            assert(l[0] != "@as []"@[0]);
        }
        crate::strings::lemma_strip_lead_at(l, '[', 1);
        let inner = l.subrange(1, l.len() as int);
        assert(inner =~= j + seq![']']);
        assert(inner[j.len() - 1] == j.last());
        crate::strings::lemma_strip_trail_at(inner, ']', j.len() as int);
        assert(inner.subrange(0, j.len() as int) =~= j);
    }
}

proof fn lemma_joined_ends(items: Seq<Seq<char>>)
    requires
        items.len() > 0,
    ensures
        joined_entries(items).len() > 0,
        joined_entries(items)[0] == '\'',
        joined_entries(items).last() == '\'',
    decreases items.len(),
{
    if items.len() > 1 {
        lemma_joined_ends(items.drop_last());
    }
}

} // verus!

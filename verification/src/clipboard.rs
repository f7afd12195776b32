//! Choosing the session's clipboard helper for copying a capture image.

use vstd::prelude::*;

use crate::strings::views;

verus! {

/// Helper-selection logic: Wayland sessions prefer `wl-copy`, X11 uses
/// `xclip`, and a Wayland session without `wl-copy` can still fall back to
/// `xclip` (XWayland). The `{path}` argument is replaced by the image path.
pub fn selected_tool(wayland: bool, has_wl_copy: bool, has_xclip: bool) -> (r: Option<
    (&'static str, Vec<&'static str>),
>)
    ensures
        wayland && has_wl_copy ==> (r matches Some((tool, args)) && tool@ == "wl-copy"@ && views(
            args@,
        ) == seq!["--type"@, "image/png"@]),
        !(wayland && has_wl_copy) && has_xclip ==> (r matches Some((tool, args)) && tool@
            == "xclip"@ && views(args@) == seq![
            "-selection"@,
            "clipboard"@,
            "-t"@,
            "image/png"@,
            "-i"@,
            "{path}"@,
        ]),
        !(wayland && has_wl_copy) && !has_xclip ==> r is None,
{
    if wayland && has_wl_copy {
        let mut args: Vec<&'static str> = Vec::new();
        args.push("--type");
        args.push("image/png");
        assert(views(args@) =~= seq!["--type"@, "image/png"@]);
        return Some(("wl-copy", args));
    }
    if has_xclip {
        let mut args: Vec<&'static str> = Vec::new();
        args.push("-selection");
        args.push("clipboard");
        args.push("-t");
        args.push("image/png");
        args.push("-i");
        args.push("{path}");
        assert(views(args@) =~= seq![
            "-selection"@,
            "clipboard"@,
            "-t"@,
            "image/png"@,
            "-i"@,
            "{path}"@,
        ]);
        return Some(("xclip", args));
    }
    None
}

} // verus!

use cloche::clipboard::selected_tool;

#[test]
fn wayland_prefers_wl_copy() {
    let (command, _) = selected_tool(true, true, true).expect("tool");
    assert_eq!(command, "wl-copy");
}

#[test]
fn x11_uses_xclip() {
    let (command, _) = selected_tool(false, true, true).expect("tool");
    assert_eq!(command, "xclip");
}

#[test]
fn wayland_without_wl_copy_falls_back_to_xclip() {
    let (command, _) = selected_tool(true, false, true).expect("tool");
    assert_eq!(command, "xclip");
}

#[test]
fn no_helpers_means_none() {
    assert!(selected_tool(false, false, false).is_none());
}

#[test]
fn xclip_reads_the_image_path_from_its_argument() {
    let (_, args) = selected_tool(false, false, true).expect("tool");
    assert_eq!(args, vec!["-selection", "clipboard", "-t", "image/png", "-i", "{path}"]);
    let (_, args) = selected_tool(true, true, false).expect("tool");
    assert_eq!(args, vec!["--type", "image/png"]);
}

use cloche::contract::ImageDetail;
use cloche::contract::ImageInfo;
use cloche::contract::WindowInfo;
use cloche::html::base64_encode;
use cloche::html::gallery_item;
use cloche::html::gallery_source;
use cloche::html::escape_html;
use cloche::html::render;
use cloche::html::GalleryImage;
use cloche::html::GalleryItem;

#[test]
fn base64_matches_rfc4648_vectors() {
    assert_eq!(base64_encode(b""), "");
    assert_eq!(base64_encode(b"f"), "Zg==");
    assert_eq!(base64_encode(b"fo"), "Zm8=");
    assert_eq!(base64_encode(b"foo"), "Zm9v");
    assert_eq!(base64_encode(b"foob"), "Zm9vYg==");
    assert_eq!(base64_encode(b"fooba"), "Zm9vYmE=");
    assert_eq!(base64_encode(b"foobar"), "Zm9vYmFy");
    assert_eq!(base64_encode(b"Man"), "TWFu");
}

#[test]
fn escapes_html_metacharacters() {
    assert_eq!(
        escape_html("<a href=\"x\">'&'</a>"),
        "&lt;a href=&quot;x&quot;&gt;&#39;&amp;&#39;&lt;/a&gt;"
    );
}

#[test]
fn render_includes_title_and_card_metadata() {
    let items = [GalleryItem {
        title: "Firefox <main>".to_string(),
        app: Some("firefox".to_string()),
        target: "active".to_string(),
        width: Some(1280),
        height: Some(720),
        created_at: "2026-06-01T00:00:00Z".to_string(),
        output_dir: "/tmp/appshot".to_string(),
        image: GalleryImage::Missing,
    }];
    let html = render("My Shots", &items);
    assert!(html.contains("<title>My Shots</title>"));
    assert!(html.contains("Firefox &lt;main&gt;"));
    assert!(html.contains("1280x720"));
    assert!(html.contains("1 capture<"));
    assert!(html.contains("no image"));
}

#[test]
fn render_reports_empty_gallery() {
    let html = render("Empty", &[]);
    assert!(html.contains("No captures found."));
    assert!(html.contains("0 captures"));
}

#[test]
fn render_embeds_png_bytes_as_a_data_url() {
    let items = [GalleryItem {
        title: "shot".to_string(),
        app: None,
        target: "region".to_string(),
        width: None,
        height: None,
        created_at: "2026-06-01T00:00:00Z".to_string(),
        output_dir: "/tmp/shot".to_string(),
        image: GalleryImage::Png(b"Man".to_vec()),
    }];
    let html = render("Shots", &items);
    assert!(html.contains("data:image/png;base64,TWFu"));
}

#[test]
fn escaping_leaves_plain_text_alone() {
    assert_eq!(escape_html("plain text 123"), "plain text 123");
    assert_eq!(escape_html(""), "");
}

fn image(path: &str, width: u32) -> ImageInfo {
    ImageInfo {
        path: path.to_string(),
        width: Some(width),
        height: Some(width / 2),
        bytes: 10,
        mime: "image/png".to_string(),
        detail: ImageDetail::Original,
    }
}

fn window(title: Option<&str>, app: Option<&str>) -> WindowInfo {
    WindowInfo {
        id: None,
        title: title.map(str::to_string),
        app_name: app.map(str::to_string),
        pid: None,
        geometry: None,
    }
}

#[test]
fn the_gallery_shows_the_card_before_the_raw_image() {
    let card = image("/c/card.png", 800);
    let raw = image("/c/raw.png", 600);
    assert_eq!(gallery_source(Some(&card), Some(&raw)).map(|i| i.path.as_str()), Some("/c/card.png"));
    assert_eq!(gallery_source(None, Some(&raw)).map(|i| i.path.as_str()), Some("/c/raw.png"));
    assert!(gallery_source(None, None).is_none());
}

#[test]
fn gallery_headings_fall_back_to_the_app_then_untitled() {
    let shown = image("/c/card.png", 800);
    let titled = window(Some("Editor"), Some("code"));
    let item = gallery_item(Some(&titled), "window".to_string(), Some(&shown), "t".to_string(), "/c".to_string(), GalleryImage::Missing);
    assert_eq!(item.title, "Editor");
    assert_eq!(item.app.as_deref(), Some("code"));
    assert_eq!((item.width, item.height), (Some(800), Some(400)));
    let untitled_window = window(None, Some("code"));
    let item = gallery_item(Some(&untitled_window), "window".to_string(), None, "t".to_string(), "/c".to_string(), GalleryImage::Missing);
    assert_eq!(item.title, "code");
    assert_eq!((item.width, item.height), (None, None));
    let item = gallery_item(None, "screen".to_string(), None, "t".to_string(), "/c".to_string(), GalleryImage::Missing);
    assert_eq!(item.title, "Untitled capture");
    assert_eq!(item.app, None);
    assert_eq!(item.target, "screen");
}

fn markup_of(page: &str) -> String {
    page.chars().filter(|c| matches!(c, '<' | '>' | '"' | '\'')).collect()
}

fn plain_item(title: &str, image: GalleryImage) -> GalleryItem {
    GalleryItem {
        title: title.to_string(),
        app: Some(format!("{title}-app")),
        target: title.to_string(),
        width: Some(10),
        height: None,
        created_at: title.to_string(),
        output_dir: title.to_string(),
        image,
    }
}

#[test]
fn caller_text_cannot_add_markup_to_the_page() {
    let hostile = "<script>alert('x')</script>\"><img src=x>";
    let a = render("Shots", &[plain_item("plain", GalleryImage::Png(vec![1, 2, 3])), plain_item("b", GalleryImage::Missing)]);
    let b = render(hostile, &[plain_item(hostile, GalleryImage::Png(vec![9])), plain_item(hostile, GalleryImage::Missing)]);
    assert_eq!(markup_of(&a), markup_of(&b));
    assert!(!b.contains("<script"));
}

#[test]
fn base64_pads_to_whole_groups() {
    for (n, pad) in [(0usize, 0usize), (1, 2), (2, 1), (3, 0), (4, 2), (5, 1), (6, 0)] {
        let out = base64_encode(&vec![0xffu8; n]);
        assert_eq!(out.len(), 4 * ((n + 2) / 3));
        assert_eq!(out.chars().rev().take_while(|c| *c == '=').count(), pad);
    }
}

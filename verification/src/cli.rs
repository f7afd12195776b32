//! The decisions of the command-line front end: where derived files go, which
//! image a preview opens, which style a reel wears, and the order of the steps
//! after a capture.

use vstd::prelude::*;

use crate::contract::ImageDetail;
use crate::contract::ImageInfo;
use crate::polish;
use crate::polish::BackdropKind;
use crate::polish::PresentationStyle;
use crate::polish::names_of_kind;
use crate::polish::strings;
use crate::polish::table_names;
use crate::polish::wears_palette;
use crate::rendezvous::pick;
use crate::json::as_items;
use crate::json::as_u64;
use crate::json::get;
use crate::json::get_in;
use crate::json::get_in_value;
use crate::json::get_member;
use crate::json::items_view;
use crate::json::jview;
use crate::json::lemma_items_view;
use crate::json::value_items;
use crate::json::value_u64;
use crate::json::Json;
use crate::json::JsonValue;
use crate::paths::extension_of;
use crate::paths::file_stem_of;
use crate::paths::path_extension;
use crate::paths::path_file_stem;
use crate::paths::path_with_extension;
use crate::paths::path_with_file_name;
use crate::paths::with_extension_of;
use crate::paths::with_file_name_of;
use crate::strings::owned;
use crate::strings::str_eq;

verus! {

// ---------------------------------------------------------------------------
// Paths

/// The file name of a card made from an image with stem `stem`: the stem
/// (`shot` when there is none) followed by `-card.png`.
pub open spec fn card_name(stem: Option<Seq<char>>) -> Seq<char> {
    match stem {
        Some(s) => s + "-card.png"@,
        None => "shot"@ + "-card.png"@,
    }
}

/// The card file name for an input stem: `shot` gives `shot-card.png`.
pub fn card_file_name(stem: Option<&str>) -> (r: String)
    ensures
        r@ == card_name(
            match stem {
                Some(s) => Some(s@),
                None => None,
            },
        ),
{
    let mut name = match stem {
        Some(s) => owned(s),
        None => String::from_str("shot"),
    };
    name.append("-card.png");
    name
}

/// Sibling path with a `-card.png` suffix: `shot.png` gives `shot-card.png`
/// in the same directory.
pub fn default_card_path(input: &str) -> (r: String)
    ensures
        r@ == with_file_name_of(input@, card_name(file_stem_of(input@))),
{
    let stem = path_file_stem(input);
    let name = match &stem {
        Some(s) => card_file_name(Some(s.as_str())),
        None => card_file_name(None),
    };
    path_with_file_name(input, name.as_str())
}

/// Where a reel's Remotion props are written: next to the output, with the
/// extension `remotion-props.json`.
pub fn default_reel_props_path(out: &str) -> (r: String)
    ensures
        r@ == with_extension_of(out@, "remotion-props.json"@),
{
    proof {
        reveal_strlit("remotion-props.json");
    }
    path_with_extension(out, "remotion-props.json")
}

/// The card path `polish` writes: the `--out` path, or the default sibling of
/// the input; refused unless it ends in `.png`, since cards are always PNG.
pub open spec fn polish_path(input: Seq<char>, out: Option<Seq<char>>) -> Result<Seq<char>, Seq<char>> {
    let path = match out {
        Some(o) => o,
        None => with_file_name_of(input, card_name(file_stem_of(input))),
    };
    if extension_of(path) == Some("png"@) {
        Ok(path)
    } else {
        Err("output path "@ + path + " must end in .png; cards are always PNG"@)
    }
}

/// Accept a card path whose extension (`ext`, as `Path::extension` reads
/// it) is `png`, or give the refusal.
pub fn png_card_check(path: String, ext: Option<&str>) -> (r: Result<String, String>)
    ensures
        match r {
            Ok(p) => p@ == path@ && (ext matches Some(e) && e@ == "png"@),
            Err(m) => !(ext matches Some(e) && e@ == "png"@) && m@ == "output path "@ + path@
                + " must end in .png; cards are always PNG"@,
        },
{
    let is_png = match ext {
        Some(e) => str_eq(e, "png"),
        None => false,
    };
    if is_png {
        Ok(path)
    } else {
        let mut m = String::from_str("output path ");
        m.append(path.as_str());
        m.append(" must end in .png; cards are always PNG");
        Err(m)
    }
}

/// Where `polish` writes its card, or why it refuses to.
pub fn polish_card_path(input: &str, out: Option<&str>) -> (r: Result<String, String>)
    ensures
        match r {
            Ok(p) => polish_path(input@, opt_text(out)) == Ok::<Seq<char>, Seq<char>>(p@),
            Err(m) => polish_path(input@, opt_text(out)) == Err::<Seq<char>, Seq<char>>(m@),
        },
{
    let path = match out {
        Some(o) => owned(o),
        None => default_card_path(input),
    };
    let ext = path_extension(path.as_str());
    match &ext {
        Some(e) => png_card_check(path, Some(e.as_str())),
        None => png_card_check(path, None),
    }
}

/// The view of an optional string slice.
pub open spec fn opt_text(s: Option<&str>) -> Option<Seq<char>> {
    match s {
        Some(x) => Some(x@),
        None => None,
    }
}

// ---------------------------------------------------------------------------
// Previews

/// The image a preview opens, as a path or the reason there is none: the raw
/// image when `raw` is asked for, else the presentation card, else the raw
/// image.
pub open spec fn preview_choice(raw: bool, image: Option<Seq<char>>, presentation: Option<Seq<char>>) -> Result<
    Seq<char>,
    Seq<char>,
> {
    if raw {
        match image {
            Some(path) => Ok(path),
            None => Err("capture does not include a raw image"@),
        }
    } else {
        match presentation {
            Some(path) => Ok(path),
            None => match image {
                Some(path) => Ok(path),
                None => Err("capture does not include an image"@),
            },
        }
    }
}

/// The path of an optional image.
pub open spec fn image_path(info: Option<&ImageInfo>) -> Option<Seq<char>> {
    match info {
        Some(i) => Some(i.path@),
        None => None,
    }
}

/// Pick the image a preview opens from a capture's raw image and its
/// presentation card.
pub fn pick_preview_image(raw: bool, image: Option<&ImageInfo>, presentation: Option<&ImageInfo>) -> (r:
    Result<String, String>)
    ensures
        match r {
            Ok(path) => preview_choice(raw, image_path(image), image_path(presentation)) == Ok::<
                Seq<char>,
                Seq<char>,
            >(path@),
            Err(msg) => preview_choice(raw, image_path(image), image_path(presentation)) == Err::<
                Seq<char>,
                Seq<char>,
            >(msg@),
        },
{
    if raw {
        match image {
            Some(info) => Ok(info.path.clone()),
            None => Err(String::from_str("capture does not include a raw image")),
        }
    } else {
        match presentation {
            Some(info) => Ok(info.path.clone()),
            None => match image {
                Some(info) => Ok(info.path.clone()),
                None => Err(String::from_str("capture does not include an image")),
            },
        }
    }
}

/// The description of a PNG written to `path`: its size in bytes and, when
/// its header could be read, its dimensions.
pub fn image_info(path: String, bytes: u64, dimensions: Option<(u32, u32)>, detail: ImageDetail) -> (r:
    ImageInfo)
    ensures
        r.path@ == path@,
        r.bytes == bytes,
        r.mime@ == "image/png"@,
        r.detail == detail,
        match dimensions {
            Some((w, h)) => r.width == Some(w) && r.height == Some(h),
            None => r.width is None && r.height is None,
        },
{
    let (width, height) = match dimensions {
        Some((w, h)) => (Some(w), Some(h)),
        None => (None, None),
    };
    ImageInfo { path, width, height, bytes, mime: String::from_str("image/png"), detail }
}

// ---------------------------------------------------------------------------
// Capture files

/// Which images a capture keeps.
#[derive(Debug, Clone, Copy, PartialEq, Eq, Structural)]
pub enum PresentationMode {
    /// Only the raw screenshot.
    Raw,
    /// The presentation card (the raw shot stays beside it).
    Card,
    /// The raw screenshot and the card.
    Both,
}

/// Whether a capture in this mode makes a card.
pub open spec fn makes_card(mode: PresentationMode) -> bool {
    mode == PresentationMode::Card || mode == PresentationMode::Both
}

/// The file names of one capture, all sharing the shot's stem.
#[derive(Debug, Clone)]
pub struct CaptureFiles {
    /// Where the raw screenshot goes.
    pub raw: String,
    /// Where the card goes, when one is made.
    pub card: Option<String>,
    /// The JSON metadata sidecar.
    pub metadata: String,
    /// The captured text.
    pub text: String,
}

fn stem_with(stem: &str, suffix: &str) -> (r: String)
    ensures
        r@ == stem@ + suffix@,
{
    let mut r = String::from_str(stem);
    r.append(suffix);
    r
}

/// The flat layout of one shot: `<stem>.png` is the shareable card when one
/// is made (the raw shot then moves to `<stem>.raw.png`), else the raw shot
/// itself; `<stem>.json` and `<stem>.txt` are the sidecars.
pub fn capture_files(stem: &str, mode: PresentationMode) -> (files: CaptureFiles)
    ensures
        makes_card(mode) ==> files.raw@ == stem@ + ".raw.png"@ && (files.card matches Some(c)
            && c@ == stem@ + ".png"@),
        !makes_card(mode) ==> files.raw@ == stem@ + ".png"@ && files.card is None,
        files.metadata@ == stem@ + ".json"@,
        files.text@ == stem@ + ".txt"@,
{
    let card = match mode {
        PresentationMode::Raw => false,
        _ => true,
    };
    if card {
        CaptureFiles {
            raw: stem_with(stem, ".raw.png"),
            card: Some(stem_with(stem, ".png")),
            metadata: stem_with(stem, ".json"),
            text: stem_with(stem, ".txt"),
        }
    } else {
        CaptureFiles {
            raw: stem_with(stem, ".png"),
            card: None,
            metadata: stem_with(stem, ".json"),
            text: stem_with(stem, ".txt"),
        }
    }
}

/// The image a capture puts on the clipboard: the card when one was made,
/// else the raw shot.
pub fn clipboard_image(card: Option<&ImageInfo>, raw: Option<&ImageInfo>) -> (r: Option<String>)
    ensures
        match r {
            Some(p) => match card {
                Some(c) => p@ == c.path@,
                None => raw matches Some(i) && p@ == i.path@,
            },
            None => card is None && raw is None,
        },
{
    match card {
        Some(c) => Some(c.path.clone()),
        None => match raw {
            Some(i) => Some(i.path.clone()),
            None => None,
        },
    }
}

// ---------------------------------------------------------------------------
// After a capture

/// One step after a screenshot is taken.
#[derive(Debug, Clone, Copy, PartialEq, Eq, Structural)]
pub enum PostStep {
    /// Put the PNG on the clipboard; a failure only warns.
    CopyPng,
    /// Warn that there was no image to copy.
    WarnNoImage,
    /// Extract the accessible text next to the image (best effort).
    ExtractText,
}

/// The steps after a capture, in order: the clipboard is published before
/// the slower, best-effort text extraction, and nothing is extracted without
/// an image.
pub open spec fn post_steps(clipboard: bool, has_image: bool) -> Seq<PostStep> {
    (if clipboard {
        if has_image {
            seq![PostStep::CopyPng]
        } else {
            seq![PostStep::WarnNoImage]
        }
    } else {
        Seq::empty()
    }) + (if has_image {
        seq![PostStep::ExtractText]
    } else {
        Seq::empty()
    })
}

/// Plan the work after a capture.
pub fn postprocess_capture(clipboard: bool, has_image: bool) -> (steps: Vec<PostStep>)
    ensures
        steps@ == post_steps(clipboard, has_image),
{
    let mut steps: Vec<PostStep> = Vec::new();
    if clipboard {
        if has_image {
            steps.push(PostStep::CopyPng);
        } else {
            steps.push(PostStep::WarnNoImage);
        }
    }
    if has_image {
        steps.push(PostStep::ExtractText);
    }
    assert(steps@ =~= post_steps(clipboard, has_image));
    steps
}

/// Where a capture's card step ends: the card's description, or the warning
/// a failed card leaves. A card that cannot be made never fails the capture.
pub fn card_outcome(card: Result<ImageInfo, String>) -> (r: Result<ImageInfo, String>)
    ensures
        match card {
            Ok(info) => r == Ok::<ImageInfo, String>(info),
            Err(err) => r matches Err(m) && m@ == "Codex-style presentation image could not be created: "@
                + err@,
        },
{
    match card {
        Ok(info) => Ok(info),
        Err(err) => {
            let mut m = String::from_str("Codex-style presentation image could not be created: ");
            m.append(err.as_str());
            Err(m)
        },
    }
}

/// Whether a capture succeeded: its raw image was written and no error
/// arose. Card, clipboard and text failures are warnings and do not count.
pub fn capture_ok(image_written: bool, errors: &Vec<String>) -> (r: bool)
    ensures
        r == (image_written && errors@.len() == 0),
{
    image_written && errors.len() == 0
}

/// The warning a clipboard step leaves, if any.
pub fn clipboard_warning(step: PostStep, copied: Result<(), String>) -> (r: Option<String>)
    ensures
        step == PostStep::WarnNoImage ==> (r matches Some(m) && m@
            == "Clipboard copy skipped: no image was captured."@),
        step == PostStep::CopyPng ==> match copied {
            Ok(()) => r is None,
            Err(err) => (r matches Some(m) && m@ == "Clipboard copy failed: "@ + err@),
        },
        step == PostStep::ExtractText ==> r is None,
{
    match step {
        PostStep::WarnNoImage => Some(String::from_str("Clipboard copy skipped: no image was captured.")),
        PostStep::CopyPng => match copied {
            Ok(()) => None,
            Err(err) => {
                let mut m = String::from_str("Clipboard copy failed: ");
                m.append(err.as_str());
                Some(m)
            },
        },
        PostStep::ExtractText => None,
    }
}

// ---------------------------------------------------------------------------
// Reels

/// Which renderer draws a reel.
#[derive(Debug, Clone, Copy, PartialEq, Eq, Structural)]
pub enum ReelRenderEngine {
    Remotion,
    Hyperframes,
}

impl ReelRenderEngine {
    /// The engine's name in results and file names.
    pub open spec fn spec_name(self) -> Seq<char> {
        match self {
            ReelRenderEngine::Remotion => "remotion"@,
            ReelRenderEngine::Hyperframes => "hyperframes"@,
        }
    }

    /// The engine's name in results and file names.
    pub fn name(self) -> (r: &'static str)
        ensures
            r@ == self.spec_name(),
    {
        match self {
            ReelRenderEngine::Remotion => "remotion",
            ReelRenderEngine::Hyperframes => "hyperframes",
        }
    }
}

/// The style a reel wears, resolved the way `capture` and `polish` pick a
/// card style so that a reel can be pinned to the palette of a still card:
/// the seed given (or a fresh random one), the palette named when it exists,
/// else the seed's pick from the space palettes.
pub fn resolve_reel_style(seed: Option<u64>, palette: Option<&str>) -> (style: PresentationStyle)
    ensures
        seed matches Some(s) ==> style.seed == s,
        exists|i: int| wears_palette(style, i),
        match palette {
            Some(name) => if table_names().contains(name@) {
                style.palette_name@ == name@
            } else {
                pick(style.seed, names_of_kind(BackdropKind::Space, 38)) == Some(
                    style.palette_name@,
                )
            },
            None => pick(style.seed, names_of_kind(BackdropKind::Space, 38)) == Some(
                style.palette_name@,
            ),
        },
        style.scene is None && style.motif is None && style.sky is None && style.terrain is None,
{
    match (seed, palette) {
        (Some(seed), Some(name)) => match polish::style_with_palette(seed, name) {
            Some(style) => style,
            None => polish::style_from_seed(seed),
        },
        (Some(seed), None) => polish::style_from_seed(seed),
        (None, Some(name)) => match polish::style_with_palette(polish::random_seed(), name) {
            Some(style) => style,
            None => polish::style_from_seed(polish::random_seed()),
        },
        (None, None) => polish::style_from_seed(polish::random_seed()),
    }
}

/// The shortest reel, in milliseconds.
pub const MIN_REEL_MS: u64 = 6000;

/// The largest of `values` and `floor`.
pub open spec fn max_of(values: Seq<u64>, floor: u64) -> u64
    decreases values.len(),
{
    if values.len() == 0 {
        floor
    } else {
        let rest = max_of(values.drop_last(), floor);
        if values.last() > rest {
            values.last()
        } else {
            rest
        }
    }
}

/// When each item of a cue array ends (`endMs`, 0 when missing), in order.
pub open spec fn end_times(items: Seq<Json>) -> Seq<u64>
    decreases items.len(),
{
    if items.len() == 0 {
        Seq::empty()
    } else {
        end_times(items.drop_last()) + seq![
            match as_u64(get(items.last(), "endMs"@)) {
                Some(n) => n,
                None => 0,
            },
        ]
    }
}

/// The end times of the cue array `key`.
pub open spec fn array_ends(cues: Json, key: Seq<char>) -> Seq<u64> {
    match as_items(get(cues, key)) {
        Some(items) => end_times(items),
        None => Seq::empty(),
    }
}

/// The length of the card `key`, when set.
pub open spec fn card_times(cues: Json, key: Seq<char>) -> Seq<u64> {
    match as_u64(get_in(get(cues, key), "ms"@)) {
        Some(ms) => seq![ms],
        None => Seq::empty(),
    }
}

/// Every timing a cue file sets: caption and zoom ends, then the title and
/// outro card lengths.
pub open spec fn cue_times(cues: Json) -> Seq<u64> {
    array_ends(cues, "captions"@) + array_ends(cues, "zooms"@) + card_times(cues, "titleCard"@)
        + card_times(cues, "outroCard"@)
}

fn collect_ends(cues: &JsonValue, key: &str, times: &mut Vec<u64>)
    ensures
        final(times)@ == old(times)@ + array_ends(jview(*cues), key@),
{
    let items = match value_items(get_member(cues, key)) {
        Some(items) => items,
        None => {
            assert(times@ =~= old(times)@ + Seq::<u64>::empty());
            return ;
        },
    };
    proof {
        lemma_items_view(items@);
    }
    let ghost views = items_view(items@);
    let n = items.len();
    let mut i: usize = 0;
    proof {
        assert(views.take(0) =~= Seq::<Json>::empty());
        assert(times@ =~= old(times)@ + end_times(views.take(0)));
    }
    while i < n
        invariant
            n == items@.len(),
            views == items_view(items@),
            views.len() == n,
            forall|j: int| 0 <= j < n ==> #[trigger] views[j] == jview(items@[j]),
            i <= n,
            times@ == old(times)@ + end_times(views.take(i as int)),
        decreases n - i,
    {
        proof {
            assert(views.take(i + 1).drop_last() =~= views.take(i as int));
            assert(views.take(i + 1).last() == jview(items@[i as int]));
        }
        let end = match value_u64(get_member(&items[i], "endMs")) {
            Some(n) => n,
            None => 0,
        };
        times.push(end);
        proof {
            assert(times@ =~= old(times)@ + end_times(views.take(i + 1)));
        }
        i = i + 1;
    }
    proof {
        assert(views.take(n as int) =~= views);
    }
}

fn max_with(values: &Vec<u64>, floor: u64) -> (r: u64)
    ensures
        r == max_of(values@, floor),
{
    let mut best = floor;
    let mut i: usize = 0;
    while i < values.len()
        invariant
            i <= values@.len(),
            best == max_of(values@.take(i as int), floor),
        decreases values@.len() - i,
    {
        proof {
            assert(values@.take(i + 1).drop_last() =~= values@.take(i as int));
        }
        if values[i] > best {
            best = values[i];
        }
        i = i + 1;
    }
    proof {
        assert(values@.take(values@.len() as int) =~= values@);
    }
    best
}

/// How long a reel runs when its length is not given: until the last cue
/// ends, and never shorter than `MIN_REEL_MS`.
pub fn inferred_reel_duration_ms(cues: Option<&JsonValue>) -> (r: u64)
    ensures
        match cues {
            Some(c) => r == max_of(cue_times(jview(*c)), MIN_REEL_MS),
            None => r == MIN_REEL_MS,
        },
{
    match cues {
        None => MIN_REEL_MS,
        Some(c) => {
            let mut times: Vec<u64> = Vec::new();
            collect_ends(c, "captions", &mut times);
            collect_ends(c, "zooms", &mut times);
            if let Some(ms) = value_u64(get_in_value(get_member(c, "titleCard"), "ms")) {
                times.push(ms);
            }
            if let Some(ms) = value_u64(get_in_value(get_member(c, "outroCard"), "ms")) {
                times.push(ms);
            }
            proof {
                assert(times@ =~= cue_times(jview(*c)));
            }
            max_with(&times, MIN_REEL_MS)
        },
    }
}

} // verus!

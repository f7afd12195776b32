//! Self-contained HTML gallery export.
//!
//! Renders a batch of captures into a single shareable HTML page with images
//! embedded as base64 `data:` URIs, so the output has no external
//! dependencies. Reading the image files is the caller's job: each item
//! arrives with its bytes already loaded (or the reason they are absent).

use vstd::prelude::*;

use crate::contract::ImageInfo;
use crate::contract::WindowInfo;
use crate::strings::decimal;
use crate::strings::digit_char;
use crate::strings::has_sub;
use crate::strings::occurs_at;
use crate::strings::push_char;
use crate::strings::push_decimal;

verus! {

/// What the gallery knows about a capture's image.
pub enum GalleryImage {
    /// The capture recorded no image at all.
    Missing,
    /// The capture names an image file that could not be read.
    Unreadable,
    /// The PNG bytes of the image.
    Png(Vec<u8>),
}

/// A single capture as the gallery view needs it.
pub struct GalleryItem {
    pub title: String,
    pub app: Option<String>,
    pub target: String,
    pub width: Option<u32>,
    pub height: Option<u32>,
    pub created_at: String,
    pub output_dir: String,
    pub image: GalleryImage,
}

/// The image a gallery shows for a capture: its presentation card, else its
/// raw image.
pub fn gallery_source<'a>(card: Option<&'a ImageInfo>, raw: Option<&'a ImageInfo>) -> (r: Option<
    &'a ImageInfo,
>)
    ensures
        r == (if card is Some { card } else { raw }),
{
    match card {
        Some(info) => Some(info),
        None => raw,
    }
}

/// The heading of a capture in the gallery: the window's title, else its
/// application's name, else "Untitled capture".
pub open spec fn gallery_title(window: Option<&WindowInfo>) -> Seq<char> {
    match window {
        Some(w) => match w.title {
            Some(t) => t@,
            None => match w.app_name {
                Some(a) => a@,
                None => "Untitled capture"@,
            },
        },
        None => "Untitled capture"@,
    }
}

/// A copy of an optional string.
fn copy_opt(s: &Option<String>) -> (r: Option<String>)
    ensures
        match s {
            Some(v) => r matches Some(c) && c@ == v@,
            None => r is None,
        },
{
    match s {
        Some(v) => Some(v.clone()),
        None => None,
    }
}

/// The gallery entry of one capture: heading and application from its
/// window, size from the image `shown` (see `gallery_source`), and `image`,
/// what could be read of that image.
pub fn gallery_item(
    window: Option<&WindowInfo>,
    target: String,
    shown: Option<&ImageInfo>,
    created_at: String,
    output_dir: String,
    image: GalleryImage,
) -> (item: GalleryItem)
    ensures
        item.title@ == gallery_title(window),
        match window {
            Some(w) => match w.app_name {
                Some(a) => item.app matches Some(x) && x@ == a@,
                None => item.app is None,
            },
            None => item.app is None,
        },
        item.target == target,
        item.width == (match shown {
            Some(i) => i.width,
            None => None,
        }),
        item.height == (match shown {
            Some(i) => i.height,
            None => None,
        }),
        item.created_at == created_at,
        item.output_dir == output_dir,
        item.image == image,
{
    let untitled = "Untitled capture";
    let (title, app) = match window {
        Some(w) => {
            let title = match &w.title {
                Some(t) => t.clone(),
                None => match &w.app_name {
                    Some(a) => a.clone(),
                    None => untitled.to_string(),
                },
            };
            (title, copy_opt(&w.app_name))
        },
        None => (untitled.to_string(), None),
    };
    let (width, height) = match shown {
        Some(i) => (i.width, i.height),
        None => (None, None),
    };
    GalleryItem { title, app, target, width, height, created_at, output_dir, image }
}

// ---------------------------------------------------------------------------
// base64

/// The RFC 4648 alphabet: `A-Z`, `a-z`, `0-9`, `+`, `/`.
pub open spec fn b64_char(v: int) -> char {
    if v < 26 {
        (65 + v) as char
    } else if v < 52 {
        (97 + (v - 26)) as char
    } else if v < 62 {
        (48 + (v - 52)) as char
    } else if v == 62 {
        '+'
    } else {
        '/'
    }
}

/// Encoding of one final group of one, two or three bytes (missing bytes read
/// as zero; positions past the input become `=`).
pub open spec fn b64_group(s: Seq<u8>) -> Seq<char> {
    let b0 = s[0] as int;
    let b1 = if s.len() > 1 { s[1] as int } else { 0 };
    let b2 = if s.len() > 2 { s[2] as int } else { 0 };
    seq![
        b64_char(b0 / 4),
        b64_char((b0 % 4) * 16 + b1 / 16),
        if s.len() > 1 { b64_char((b1 % 16) * 4 + b2 / 64) } else { '=' },
        if s.len() > 2 { b64_char(b2 % 64) } else { '=' },
    ]
}

/// Standard base64 (RFC 4648) with padding, three input bytes at a time.
pub open spec fn base64(s: Seq<u8>) -> Seq<char>
    decreases s.len(),
{
    if s.len() == 0 {
        Seq::empty()
    } else if s.len() <= 3 {
        b64_group(s)
    } else {
        b64_group(s.take(3)) + base64(s.skip(3))
    }
}

/// The length of an encoding: four characters for every started group of
/// three bytes.
pub proof fn lemma_base64_len(s: Seq<u8>)
    ensures
        base64(s).len() == 4 * ((s.len() + 2) / 3),
    decreases s.len(),
{
    if s.len() > 3 {
        lemma_base64_len(s.skip(3));
    }
}

/// The value of an alphabet character (the inverse of `b64_char`).
pub open spec fn b64_value(c: char) -> int {
    let n = c as int;
    if 65 <= n <= 90 {
        n - 65
    } else if 97 <= n <= 122 {
        n - 97 + 26
    } else if 48 <= n <= 57 {
        n - 48 + 52
    } else if c == '+' {
        62
    } else {
        63
    }
}

/// One group of four characters back to its one, two or three bytes.
pub open spec fn decode_group(q: Seq<char>) -> Seq<u8> {
    let v0 = b64_value(q[0]);
    let v1 = b64_value(q[1]);
    let v2 = if q[2] == '=' { 0 } else { b64_value(q[2]) };
    let v3 = if q[3] == '=' { 0 } else { b64_value(q[3]) };
    let x0 = (v0 * 4 + v1 / 16) as u8;
    let x1 = ((v1 % 16) * 16 + v2 / 4) as u8;
    let x2 = ((v2 % 4) * 64 + v3) as u8;
    if q[2] == '=' {
        seq![x0]
    } else if q[3] == '=' {
        seq![x0, x1]
    } else {
        seq![x0, x1, x2]
    }
}

/// RFC 4648 decoding of padded base64 text, four characters at a time.
pub open spec fn base64_decode(t: Seq<char>) -> Seq<u8>
    decreases t.len(),
{
    if t.len() < 4 {
        Seq::empty()
    } else {
        decode_group(t.take(4)) + base64_decode(t.skip(4))
    }
}

/// A character of the standard alphabet.
pub open spec fn in_alphabet(c: char) -> bool {
    let n = c as int;
    (65 <= n <= 90) || (97 <= n <= 122) || (48 <= n <= 57) || c == '+' || c == '/'
}

proof fn lemma_b64_char(v: int)
    requires
        0 <= v < 64,
    ensures
        in_alphabet(b64_char(v)),
        b64_char(v) != '=',
        b64_value(b64_char(v)) == v,
{
}

proof fn lemma_group_round_trip(g: Seq<u8>)
    requires
        1 <= g.len() <= 3,
    ensures
        decode_group(b64_group(g)) == g,
        forall|i: int| 0 <= i < 4 ==> in_alphabet(#[trigger] b64_group(g)[i]) || b64_group(g)[i] == '=',
{
    let b0 = g[0] as int;
    let b1 = if g.len() > 1 { g[1] as int } else { 0 };
    let b2 = if g.len() > 2 { g[2] as int } else { 0 };
    let v0 = b0 / 4;
    let v1 = (b0 % 4) * 16 + b1 / 16;
    let v2 = (b1 % 16) * 4 + b2 / 64;
    let v3 = b2 % 64;
    assert(0 <= v0 < 64 && 0 <= v1 < 64 && 0 <= v2 < 64 && 0 <= v3 < 64) by (nonlinear_arith)
        requires
            0 <= b0 < 256,
            0 <= b1 < 256,
            0 <= b2 < 256,
            v0 == b0 / 4,
            v1 == (b0 % 4) * 16 + b1 / 16,
            v2 == (b1 % 16) * 4 + b2 / 64,
            v3 == b2 % 64,
    ;
    lemma_b64_char(v0);
    lemma_b64_char(v1);
    lemma_b64_char(v2);
    lemma_b64_char(v3);
    assert(v0 * 4 + v1 / 16 == b0) by (nonlinear_arith)
        requires
            0 <= b0 < 256,
            0 <= b1 < 256,
            v0 == b0 / 4,
            v1 == (b0 % 4) * 16 + b1 / 16,
    ;
    assert((v1 % 16) * 16 + v2 / 4 == b1) by (nonlinear_arith)
        requires
            0 <= b1 < 256,
            0 <= b2 < 256,
            0 <= b0 < 256,
            v1 == (b0 % 4) * 16 + b1 / 16,
            v2 == (b1 % 16) * 4 + b2 / 64,
    ;
    assert((v2 % 4) * 64 + v3 == b2) by (nonlinear_arith)
        requires
            0 <= b1 < 256,
            0 <= b2 < 256,
            v2 == (b1 % 16) * 4 + b2 / 64,
            v3 == b2 % 64,
    ;
    let q = b64_group(g);
    assert(q[0] == b64_char(v0) && q[1] == b64_char(v1));
    if g.len() == 1 {
        assert(decode_group(q) =~= g);
    } else if g.len() == 2 {
        assert(q[2] == b64_char(v2));
        assert(decode_group(q) =~= g);
    } else {
        assert(q[2] == b64_char(v2) && q[3] == b64_char(v3));
        assert(decode_group(q) =~= g);
    }
}

/// The number of `=` characters that pad the encoding of `n` bytes.
pub open spec fn padding(n: int) -> int {
    (3 - n % 3) % 3
}

/// An encoding ends in exactly `padding(len)` `=` characters, and every
/// character before them is of the standard alphabet.
pub proof fn lemma_base64_padding(s: Seq<u8>)
    ensures
        forall|i: int|
            0 <= i < base64(s).len() - padding(s.len() as int) ==> in_alphabet(#[trigger] base64(s)[i]),
        forall|i: int|
            base64(s).len() - padding(s.len() as int) <= i < base64(s).len() ==> #[trigger] base64(s)[i]
                == '=',
    decreases s.len(),
{
    lemma_base64_len(s);
    if s.len() == 0 {
    } else if s.len() <= 3 {
        lemma_group_shape(s);
    } else {
        let g = s.take(3);
        let rest = s.skip(3);
        lemma_group_shape(g);
        lemma_base64_padding(rest);
        lemma_base64_len(rest);
        let q = b64_group(g);
        let t = base64(s);
        assert(t == q + base64(rest));
        assert(padding(s.len() as int) == padding(rest.len() as int));
        assert forall|i: int| 0 <= i < t.len() - padding(s.len() as int) implies in_alphabet(#[trigger] t[i]) by {
            if i < 4 {
                assert(t[i] == q[i]);
            } else {
                assert(t[i] == base64(rest)[i - 4]);
            }
        }
        assert forall|i: int| t.len() - padding(s.len() as int) <= i < t.len() implies #[trigger] t[i] == '=' by {
            assert(t[i] == base64(rest)[i - 4]);
        }
    }
}

proof fn lemma_group_shape(g: Seq<u8>)
    requires
        1 <= g.len() <= 3,
    ensures
        forall|i: int| 0 <= i < 4 - padding(g.len() as int) ==> in_alphabet(#[trigger] b64_group(g)[i]),
        forall|i: int| 4 - padding(g.len() as int) <= i < 4 ==> #[trigger] b64_group(g)[i] == '=',
{
    let b0 = g[0] as int;
    let b1 = if g.len() > 1 { g[1] as int } else { 0 };
    let b2 = if g.len() > 2 { g[2] as int } else { 0 };
    let v0 = b0 / 4;
    let v1 = (b0 % 4) * 16 + b1 / 16;
    let v2 = (b1 % 16) * 4 + b2 / 64;
    let v3 = b2 % 64;
    assert(0 <= v0 < 64 && 0 <= v1 < 64 && 0 <= v2 < 64 && 0 <= v3 < 64) by (nonlinear_arith)
        requires
            0 <= b0 < 256,
            0 <= b1 < 256,
            0 <= b2 < 256,
            v0 == b0 / 4,
            v1 == (b0 % 4) * 16 + b1 / 16,
            v2 == (b1 % 16) * 4 + b2 / 64,
            v3 == b2 % 64,
    ;
    lemma_b64_char(v0);
    lemma_b64_char(v1);
    lemma_b64_char(v2);
    lemma_b64_char(v3);
    let q = b64_group(g);
    assert(q[0] == b64_char(v0) && q[1] == b64_char(v1));
    if g.len() > 1 {
        assert(q[2] == b64_char(v2));
    }
    if g.len() > 2 {
        assert(q[3] == b64_char(v3));
    }
}

/// Decoding gives back the encoded bytes, and an encoding uses only the
/// standard alphabet and `=` padding.
pub proof fn lemma_base64_round_trip(s: Seq<u8>)
    ensures
        base64_decode(base64(s)) == s,
        forall|i: int| 0 <= i < base64(s).len() ==> in_alphabet(#[trigger] base64(s)[i]) || base64(s)[i] == '=',
    decreases s.len(),
{
    if s.len() == 0 {
        assert(base64_decode(base64(s)) =~= s);
    } else if s.len() <= 3 {
        lemma_group_round_trip(s);
        let q = b64_group(s);
        assert(q.take(4) =~= q);
        assert(q.len() == 4);
        assert(q.skip(4).len() == 0);
        assert(base64_decode(q.skip(4)) == Seq::<u8>::empty());
        assert(base64_decode(q) == decode_group(q.take(4)) + base64_decode(q.skip(4)));
        assert(base64_decode(q) =~= decode_group(q));
    } else {
        let g = s.take(3);
        let rest = s.skip(3);
        lemma_group_round_trip(g);
        lemma_base64_round_trip(rest);
        let q = b64_group(g);
        let t = base64(s);
        assert(t == q + base64(rest));
        assert(t.take(4) =~= q);
        assert(t.skip(4) =~= base64(rest));
        assert(g + rest =~= s);
        assert forall|i: int| 0 <= i < t.len() implies in_alphabet(#[trigger] t[i]) || t[i] == '=' by {
            if i < 4 {
                assert(t[i] == q[i]);
            } else {
                assert(t[i] == base64(rest)[i - 4]);
            }
        }
    }
}

fn b64_exec(v: u32) -> (c: char)
    requires
        v < 64,
    ensures
        c == b64_char(v as int),
{
    if v < 26 {
        ((65u32 + v) as u8) as char
    } else if v < 52 {
        ((97u32 + (v - 26)) as u8) as char
    } else if v < 62 {
        ((48u32 + (v - 52)) as u8) as char
    } else if v == 62 {
        '+'
    } else {
        '/'
    }
}

/// Standard base64 (RFC 4648) with padding.
pub fn base64_encode(input: &[u8]) -> (out: String)
    ensures
        out@ == base64(input@),
        out@.len() == 4 * ((input@.len() + 2) / 3),
        forall|i: int| 0 <= i < out@.len() - padding(input@.len() as int) ==> in_alphabet(#[trigger] out@[i]),
        forall|i: int| out@.len() - padding(input@.len() as int) <= i < out@.len() ==> #[trigger] out@[i] == '=',
        base64_decode(out@) == input@,
{
    let n = input.len();
    let mut out = String::new();
    let mut i: usize = 0;
    proof {
        assert(input@.skip(0) =~= input@);
    }
    while i < n
        invariant
            n == input@.len(),
            i <= n,
            out@ + base64(input@.skip(i as int)) == base64(input@),
        decreases n - i,
    {
        let rest = n - i;
        let b0 = input[i] as u32;
        let b1: u32 = if rest > 1 { input[i + 1] as u32 } else { 0 };
        let b2: u32 = if rest > 2 { input[i + 2] as u32 } else { 0 };
        let ghost old_out = out@;
        let ghost tail = input@.skip(i as int);
        let ghost group = if rest <= 3 { tail } else { tail.take(3) };
        push_char(&mut out, b64_exec(b0 / 4));
        push_char(&mut out, b64_exec((b0 % 4) * 16 + b1 / 16));
        if rest > 1 {
            push_char(&mut out, b64_exec((b1 % 16) * 4 + b2 / 64));
        } else {
            push_char(&mut out, '=');
        }
        if rest > 2 {
            push_char(&mut out, b64_exec(b2 % 64));
        } else {
            push_char(&mut out, '=');
        }
        proof {
            assert(out@ =~= old_out + b64_group(group));
            if rest > 3 {
                assert(tail.skip(3) =~= input@.skip(i + 3));
            } else {
                assert(input@.skip(n as int) =~= Seq::<u8>::empty());
            }
        }
        if rest > 3 {
            i = i + 3;
        } else {
            i = n;
        }
    }
    proof {
        assert(input@.skip(n as int) =~= Seq::<u8>::empty());
        assert(out@ =~= base64(input@));
        lemma_base64_len(input@);
        lemma_base64_padding(input@);
        lemma_base64_round_trip(input@);
    }
    out
}

// ---------------------------------------------------------------------------
// escaping

/// The escaped form of one character.
pub open spec fn escape_char(c: char) -> Seq<char> {
    if c == '&' {
        seq!['&', 'a', 'm', 'p', ';']
    } else if c == '<' {
        seq!['&', 'l', 't', ';']
    } else if c == '>' {
        seq!['&', 'g', 't', ';']
    } else if c == '"' {
        seq!['&', 'q', 'u', 'o', 't', ';']
    } else if c == '\'' {
        seq!['&', '#', '3', '9', ';']
    } else {
        seq![c]
    }
}

/// Text escaped for HTML element content and attribute values.
pub open spec fn escape(s: Seq<char>) -> Seq<char>
    decreases s.len(),
{
    if s.len() == 0 {
        Seq::empty()
    } else {
        escape(s.drop_last()) + escape_char(s.last())
    }
}

/// True when no character of `s` is one of `<`, `>`, `"` or `'`.
pub open spec fn free_of_markup(s: Seq<char>) -> bool {
    forall|i: int| 0 <= i < s.len() ==> s[i] != '<' && s[i] != '>' && s[i] != '"' && s[i] != '\''
}

/// Escaped text never carries a raw markup metacharacter.
pub proof fn lemma_escape_free_of_markup(s: Seq<char>)
    ensures
        free_of_markup(escape(s)),
    decreases s.len(),
{
    if s.len() > 0 {
        lemma_escape_free_of_markup(s.drop_last());
        let a = escape(s.drop_last());
        let b = escape_char(s.last());
        assert(escape(s) == a + b);
        assert forall|i: int| 0 <= i < (a + b).len() implies (a + b)[i] != '<' && (a + b)[i]
            != '>' && (a + b)[i] != '"' && (a + b)[i] != '\'' by {
            if i >= a.len() {
                assert((a + b)[i] == b[i - a.len()]);
            }
        }
    }
}

/// Appends `escape(text)`.
pub fn push_escaped(out: &mut String, text: &str)
    ensures
        final(out)@ == old(out)@ + escape(text@),
{
    let chars = crate::strings::chars_of(text);
    let n = chars.len();
    let mut i: usize = 0;
    let ghost start = out@;
    while i < n
        invariant
            n == chars@.len(),
            chars@ == text@,
            i <= n,
            out@ == start + escape(text@.take(i as int)),
        decreases n - i,
    {
        let c = chars[i];
        let ghost before = out@;
        if c == '&' {
            out.append("&amp;");
        } else if c == '<' {
            out.append("&lt;");
        } else if c == '>' {
            out.append("&gt;");
        } else if c == '"' {
            out.append("&quot;");
        } else if c == '\'' {
            out.append("&#39;");
        } else {
            push_char(out, c);
        }
        proof {
            reveal_strlit("&amp;");
            reveal_strlit("&lt;");
            reveal_strlit("&gt;");
            reveal_strlit("&quot;");
            reveal_strlit("&#39;");
            assert(out@ =~= before + escape_char(c));
            assert(text@.take(i + 1).drop_last() =~= text@.take(i as int));
            assert(text@.take(i + 1).last() == c);
        }
        i = i + 1;
    }
    proof {
        assert(text@.take(n as int) =~= text@);
    }
}

/// Escape text for safe inclusion in HTML element content and attributes.
pub fn escape_html(input: &str) -> (out: String)
    ensures
        out@ == escape(input@),
        free_of_markup(out@),
{
    let mut out = String::new();
    push_escaped(&mut out, input);
    proof {
        assert(out@ =~= escape(input@));
        lemma_escape_free_of_markup(input@);
    }
    out
}


// ---------------------------------------------------------------------------
// the page

pub const PAGE_HEAD: &'static str = "<!doctype html>\n<html lang=\"en\">\n<head>\n<meta charset=\"utf-8\">\n<meta name=\"viewport\" content=\"width=device-width, initial-scale=1\">\n<title>";
pub const PAGE_STYLE_OPEN: &'static str = "</title>\n<style>";
pub const PAGE_BODY_OPEN: &'static str = "</style>\n</head>\n<body>\n<header><h1>";
pub const PAGE_COUNT_OPEN: &'static str = "</h1><p class=\"count\">";
pub const PAGE_COUNT_WORD: &'static str = " capture";
pub const PAGE_PLURAL: &'static str = "s";
pub const PAGE_GRID_OPEN: &'static str = "</p></header>\n<main class=\"grid\">\n";
pub const PAGE_TAIL: &'static str = "</main>\n</body>\n</html>\n";
pub const PAGE_EMPTY: &'static str = "<p class=\"empty\">No captures found.</p>";

pub const CARD_OPEN: &'static str = "<figure class=\"card\">\n";
pub const CARD_CAPTION_OPEN: &'static str = "\n<figcaption>\n<span class=\"card-title\">";
pub const CARD_META_OPEN: &'static str = "</span>\n<span class=\"meta\">";
pub const CARD_SEPARATOR: &'static str = " &middot; ";
pub const CARD_PATH_OPEN: &'static str = "</span>\n<span class=\"path\">";
pub const CARD_CLOSE: &'static str = "</span>\n</figcaption>\n</figure>\n";
pub const IMG_OPEN: &'static str = "<img src=\"data:image/png;base64,";
pub const IMG_ALT: &'static str = "\" alt=\"";
pub const IMG_CLOSE: &'static str = "\" loading=\"lazy\">";
pub const IMG_UNREADABLE: &'static str = "<div class=\"missing\">image unavailable</div>";
pub const IMG_MISSING: &'static str = "<div class=\"missing\">no image</div>";
pub const UNKNOWN_APP: &'static str = "unknown app";
pub const UNKNOWN_SIZE: &'static str = "unknown size";
pub const SIZE_SEPARATOR: &'static str = "x";

pub const CSS: &'static str = ":root{color-scheme:dark}*{box-sizing:border-box}body{margin:0;background:#0e1116;color:#e6edf3;font:15px/1.5 system-ui,-apple-system,Segoe UI,sans-serif}header{padding:32px 32px 8px}h1{margin:0;font-size:22px}.count{margin:4px 0 0;color:#8b949e}.grid{display:grid;gap:20px;grid-template-columns:repeat(auto-fill,minmax(320px,1fr));padding:24px 32px 48px}.card{margin:0;background:#161b22;border:1px solid #30363d;border-radius:12px;overflow:hidden;display:flex;flex-direction:column}.card img{width:100%;height:auto;display:block;background:#0e1116}.missing{padding:48px;text-align:center;color:#8b949e;background:#0e1116}figcaption{padding:12px 14px;display:flex;flex-direction:column;gap:2px}.card-title{font-weight:600;word-break:break-word}.meta{color:#8b949e;font-size:13px}.path{color:#6e7681;font-size:12px;font-family:ui-monospace,SFMono-Regular,Menlo,monospace;word-break:break-all}.empty{padding:32px;color:#8b949e}";

/// The image slot of a card.
pub open spec fn card_image(item: GalleryItem) -> Seq<char> {
    match item.image {
        GalleryImage::Png(bytes) => IMG_OPEN@ + base64(bytes@) + IMG_ALT@ + escape(item.title@)
            + IMG_CLOSE@,
        GalleryImage::Unreadable => IMG_UNREADABLE@,
        GalleryImage::Missing => IMG_MISSING@,
    }
}

/// `WxH` when both dimensions are known.
pub open spec fn card_dimensions(item: GalleryItem) -> Seq<char> {
    match (item.width, item.height) {
        (Some(w), Some(h)) => decimal(w as nat) + SIZE_SEPARATOR@ + decimal(h as nat),
        _ => UNKNOWN_SIZE@,
    }
}

/// The app name, or a placeholder.
pub open spec fn card_app(item: GalleryItem) -> Seq<char> {
    match item.app {
        Some(app) => app@,
        None => UNKNOWN_APP@,
    }
}

/// The caption block of a card: title, app, target, size, time and folder.
pub open spec fn card_caption(item: GalleryItem) -> Seq<char> {
    CARD_CAPTION_OPEN@ + escape(item.title@) + CARD_META_OPEN@ + escape(card_app(item))
        + CARD_SEPARATOR@ + escape(item.target@) + CARD_SEPARATOR@ + card_dimensions(item)
        + CARD_META_OPEN@ + escape(item.created_at@) + CARD_PATH_OPEN@ + escape(item.output_dir@)
        + CARD_CLOSE@
}

/// One `<figure>` card of the gallery.
pub open spec fn card(item: GalleryItem) -> Seq<char> {
    CARD_OPEN@ + card_image(item) + card_caption(item)
}

/// Every card, in order.
pub open spec fn cards(items: Seq<GalleryItem>) -> Seq<char>
    decreases items.len(),
{
    if items.len() == 0 {
        Seq::empty()
    } else {
        cards(items.drop_last()) + card(items.last())
    }
}

/// The grid contents: the cards, or the empty-gallery notice.
pub open spec fn grid(items: Seq<GalleryItem>) -> Seq<char> {
    if items.len() == 0 {
        PAGE_EMPTY@
    } else {
        cards(items)
    }
}

/// The whole gallery page.
pub open spec fn gallery_page(title: Seq<char>, items: Seq<GalleryItem>) -> Seq<char> {
    PAGE_HEAD@ + escape(title) + PAGE_STYLE_OPEN@ + CSS@ + PAGE_BODY_OPEN@ + escape(title)
        + PAGE_COUNT_OPEN@ + decimal(items.len()) + PAGE_COUNT_WORD@ + (if items.len() == 1 {
        Seq::empty()
    } else {
        PAGE_PLURAL@
    }) + PAGE_GRID_OPEN@ + grid(items) + PAGE_TAIL@
}

// ---------------------------------------------------------------------------
// Where the page's markup comes from

/// A character that opens or closes a tag or an attribute value.
pub open spec fn is_markup(c: char) -> bool {
    c == '<' || c == '>' || c == '"' || c == '\''
}

/// The markup characters of `s`, in order.
pub open spec fn markup(s: Seq<char>) -> Seq<char>
    decreases s.len(),
{
    if s.len() == 0 {
        Seq::empty()
    } else {
        markup(s.drop_last()) + (if is_markup(s.last()) {
            seq![s.last()]
        } else {
            Seq::empty()
        })
    }
}

proof fn lemma_markup_add(a: Seq<char>, b: Seq<char>)
    ensures
        markup(a + b) == markup(a) + markup(b),
    decreases b.len(),
{
    if b.len() == 0 {
        assert(a + b =~= a);
        assert(markup(a) + markup(b) =~= markup(a));
    } else {
        lemma_markup_add(a, b.drop_last());
        assert((a + b).drop_last() =~= a + b.drop_last());
        assert((a + b).last() == b.last());
        assert(markup(a + b) =~= markup(a) + markup(b));
    }
}

proof fn lemma_markup_free(s: Seq<char>)
    requires
        free_of_markup(s),
    ensures
        markup(s) == Seq::<char>::empty(),
    decreases s.len(),
{
    if s.len() > 0 {
        lemma_markup_free(s.drop_last());
    }
}

proof fn lemma_decimal_free(n: nat)
    ensures
        free_of_markup(decimal(n)),
    decreases n,
{
    if n >= 10 {
        lemma_decimal_free(n / 10);
        let d = decimal(n / 10).push(digit_char((n % 10) as nat));
        assert forall|i: int| 0 <= i < d.len() implies !is_markup(d[i]) by {
            if i == d.len() - 1 {
                assert(d[i] == digit_char((n % 10) as nat));
                assert(((48 + (n % 10)) as u8) as char as int == 48 + (n % 10));
            } else {
                assert(d[i] == decimal(n / 10)[i]);
            }
        }
    } else {
        assert(((48 + n) as u8) as char as int == 48 + n);
    }
}

proof fn lemma_base64_free(b: Seq<u8>)
    ensures
        free_of_markup(base64(b)),
{
    lemma_base64_round_trip(b);
    assert forall|i: int| 0 <= i < base64(b).len() implies !is_markup(base64(b)[i]) by {
        assert(in_alphabet(base64(b)[i]) || base64(b)[i] == '=');
    }
}

/// Two gallery items whose images are of the same kind (an image, an
/// unreadable file, or none).
pub open spec fn same_shape(x: GalleryItem, y: GalleryItem) -> bool {
    &&& (x.image is Png) == (y.image is Png)
    &&& (x.image is Unreadable) == (y.image is Unreadable)
}

proof fn lemma_card_markup(x: GalleryItem, y: GalleryItem)
    requires
        same_shape(x, y),
    ensures
        markup(card(x)) == markup(card(y)),
{
    assert forall|a: Seq<char>, b: Seq<char>| #[trigger] markup(a + b) == markup(a) + markup(b) by {
        lemma_markup_add(a, b);
    }
    assert forall|t: Seq<char>| #[trigger] markup(escape(t)) == Seq::<char>::empty() by {
        lemma_escape_free_of_markup(t);
        lemma_markup_free(escape(t));
    }
    lemma_dimensions_free(x);
    lemma_dimensions_free(y);
    lemma_markup_free(card_dimensions(x));
    lemma_markup_free(card_dimensions(y));
    match (x.image, y.image) {
        (GalleryImage::Png(bx), GalleryImage::Png(b2)) => {
            lemma_base64_free(bx@);
            lemma_base64_free(b2@);
            lemma_markup_free(base64(bx@));
            lemma_markup_free(base64(b2@));
        },
        _ => {},
    }
    assert(markup(card_image(x)) == markup(card_image(y)));
    assert(markup(card_caption(x)) == markup(card_caption(y)));
}

proof fn lemma_dimensions_free(x: GalleryItem)
    ensures
        free_of_markup(card_dimensions(x)),
{
    match (x.width, x.height) {
        (Some(w), Some(h)) => {
            lemma_decimal_free(w as nat);
            lemma_decimal_free(h as nat);
            reveal_strlit("x");
            let d = decimal(w as nat) + SIZE_SEPARATOR@ + decimal(h as nat);
            assert forall|i: int| 0 <= i < d.len() implies !is_markup(d[i]) by {
                let a = decimal(w as nat);
                if i < a.len() {
                    assert(d[i] == a[i]);
                } else if i == a.len() {
                    assert(d[i] == 'x');
                } else {
                    assert(d[i] == decimal(h as nat)[i - a.len() - 1]);
                }
            }
        },
        _ => {
            reveal_strlit("unknown size");
        },
    }
}

proof fn lemma_cards_markup(xs: Seq<GalleryItem>, ys: Seq<GalleryItem>)
    requires
        xs.len() == ys.len(),
        forall|i: int| 0 <= i < xs.len() ==> #[trigger] same_shape(xs[i], ys[i]),
    ensures
        markup(cards(xs)) == markup(cards(ys)),
    decreases xs.len(),
{
    if xs.len() > 0 {
        assert(same_shape(xs[xs.len() - 1], ys[ys.len() - 1]));
        lemma_cards_markup(xs.drop_last(), ys.drop_last());
        lemma_card_markup(xs.last(), ys.last());
        lemma_markup_add(cards(xs.drop_last()), card(xs.last()));
        lemma_markup_add(cards(ys.drop_last()), card(ys.last()));
    }
}

/// Caller text reaches the page only escaped: two galleries of the same
/// length whose images are of the same kinds have exactly the same markup
/// characters (`<`, `>`, `"`, `'`) in the same order, whatever their titles,
/// app names, targets, times and folders, so no text can open a tag or leave
/// an attribute.
pub proof fn lemma_page_markup_is_fixed(
    t1: Seq<char>,
    xs: Seq<GalleryItem>,
    t2: Seq<char>,
    ys: Seq<GalleryItem>,
)
    requires
        xs.len() == ys.len(),
        forall|i: int| 0 <= i < xs.len() ==> #[trigger] same_shape(xs[i], ys[i]),
    ensures
        markup(gallery_page(t1, xs)) == markup(gallery_page(t2, ys)),
{
    assert forall|a: Seq<char>, b: Seq<char>| #[trigger] markup(a + b) == markup(a) + markup(b) by {
        lemma_markup_add(a, b);
    }
    assert forall|t: Seq<char>| #[trigger] markup(escape(t)) == Seq::<char>::empty() by {
        lemma_escape_free_of_markup(t);
        lemma_markup_free(escape(t));
    }
    lemma_cards_markup(xs, ys);
    assert(markup(grid(xs)) == markup(grid(ys)));
}

/// The cards of a gallery split around the card of item `i`.
proof fn lemma_cards_split(items: Seq<GalleryItem>, i: int) -> (pq: (Seq<char>, Seq<char>))
    requires
        0 <= i < items.len(),
    ensures
        cards(items) == pq.0 + card(items[i]) + pq.1,
    decreases items.len(),
{
    let last = items.len() - 1;
    if i == last {
        assert(items.last() == items[i]);
        assert(cards(items) =~= cards(items.drop_last()) + card(items[i]) + Seq::<char>::empty());
        (cards(items.drop_last()), Seq::<char>::empty())
    } else {
        let (p, q) = lemma_cards_split(items.drop_last(), i);
        assert(items.drop_last()[i] == items[i]);
        assert(cards(items) =~= p + card(items[i]) + (q + card(items.last())));
        (p, q + card(items.last()))
    }
}

/// Every capture of the gallery gets a caption that shows, each in its own
/// slot and escaped: its title; its app (or "unknown app"); its target; its
/// size as `WxH` (or "unknown size"); its capture time; its folder.
pub proof fn lemma_page_captions_each_capture(title: Seq<char>, items: Seq<GalleryItem>, i: int)
    requires
        0 <= i < items.len(),
    ensures
        has_sub(
            gallery_page(title, items),
            CARD_CAPTION_OPEN@ + escape(items[i].title@) + CARD_META_OPEN@ + escape(
                match items[i].app {
                    Some(a) => a@,
                    None => UNKNOWN_APP@,
                },
            ) + CARD_SEPARATOR@ + escape(items[i].target@) + CARD_SEPARATOR@ + (match (
                items[i].width,
                items[i].height,
            ) {
                (Some(w), Some(h)) => decimal(w as nat) + SIZE_SEPARATOR@ + decimal(h as nat),
                _ => UNKNOWN_SIZE@,
            }) + CARD_META_OPEN@ + escape(items[i].created_at@) + CARD_PATH_OPEN@ + escape(
                items[i].output_dir@,
            ) + CARD_CLOSE@,
        ),
{
    let x = items[i];
    let f = CARD_CAPTION_OPEN@ + escape(x.title@) + CARD_META_OPEN@ + escape(
        match x.app {
            Some(a) => a@,
            None => UNKNOWN_APP@,
        },
    ) + CARD_SEPARATOR@ + escape(x.target@) + CARD_SEPARATOR@ + (match (x.width, x.height) {
        (Some(w), Some(h)) => decimal(w as nat) + SIZE_SEPARATOR@ + decimal(h as nat),
        _ => UNKNOWN_SIZE@,
    }) + CARD_META_OPEN@ + escape(x.created_at@) + CARD_PATH_OPEN@ + escape(x.output_dir@)
        + CARD_CLOSE@;
    assert(f == card_caption(x));
    let (p, q) = lemma_cards_split(items, i);
    let page = gallery_page(title, items);
    let head = PAGE_HEAD@ + escape(title) + PAGE_STYLE_OPEN@ + CSS@ + PAGE_BODY_OPEN@ + escape(title)
        + PAGE_COUNT_OPEN@ + decimal(items.len()) + PAGE_COUNT_WORD@ + (if items.len() == 1 {
        Seq::empty()
    } else {
        PAGE_PLURAL@
    }) + PAGE_GRID_OPEN@;
    let before = head + p + CARD_OPEN@ + card_image(x);
    let after = q + PAGE_TAIL@;
    assert(grid(items) == cards(items));
    assert(page == head + cards(items) + PAGE_TAIL@);
    assert(page =~= before + f + after);
    assert(page.subrange(before.len() as int, (before.len() + f.len()) as int) =~= f);
    assert(occurs_at(page, f, before.len() as int));
}

/// Every capture with image bytes has them embedded in the page as base64,
/// with its escaped title as the image's alternative text.
pub proof fn lemma_page_embeds_each_image(title: Seq<char>, items: Seq<GalleryItem>, i: int, bytes: Vec<u8>)
    requires
        0 <= i < items.len(),
        items[i].image == GalleryImage::Png(bytes),
    ensures
        has_sub(
            gallery_page(title, items),
            IMG_OPEN@ + base64(bytes@) + IMG_ALT@ + escape(items[i].title@) + IMG_CLOSE@,
        ),
{
    let x = items[i];
    let f = IMG_OPEN@ + base64(bytes@) + IMG_ALT@ + escape(x.title@) + IMG_CLOSE@;
    assert(f == card_image(x));
    let (p, q) = lemma_cards_split(items, i);
    let page = gallery_page(title, items);
    let head = PAGE_HEAD@ + escape(title) + PAGE_STYLE_OPEN@ + CSS@ + PAGE_BODY_OPEN@ + escape(title)
        + PAGE_COUNT_OPEN@ + decimal(items.len()) + PAGE_COUNT_WORD@ + (if items.len() == 1 {
        Seq::empty()
    } else {
        PAGE_PLURAL@
    }) + PAGE_GRID_OPEN@;
    let before = head + p + CARD_OPEN@;
    let after = card_caption(x) + q + PAGE_TAIL@;
    assert(grid(items) == cards(items));
    assert(page == head + cards(items) + PAGE_TAIL@);
    assert(page =~= before + f + after);
    assert(page.subrange(before.len() as int, (before.len() + f.len()) as int) =~= f);
    assert(occurs_at(page, f, before.len() as int));
}

/// The page is titled with the escaped gallery title, heads its body with
/// it and the number of captures ("1 capture", "2 captures"), and says so
/// when there are none.
pub proof fn lemma_page_heading(title: Seq<char>, items: Seq<GalleryItem>)
    ensures
        gallery_page(title, items).take((PAGE_HEAD@ + escape(title) + PAGE_STYLE_OPEN@).len() as int)
            == PAGE_HEAD@ + escape(title) + PAGE_STYLE_OPEN@,
        has_sub(
            gallery_page(title, items),
            PAGE_BODY_OPEN@ + escape(title) + PAGE_COUNT_OPEN@ + decimal(items.len()) + PAGE_COUNT_WORD@
                + (if items.len() == 1 {
                Seq::empty()
            } else {
                PAGE_PLURAL@
            }) + PAGE_GRID_OPEN@,
        ),
        items.len() == 0 ==> has_sub(gallery_page(title, items), PAGE_EMPTY@),
{
    let page = gallery_page(title, items);
    let first = PAGE_HEAD@ + escape(title) + PAGE_STYLE_OPEN@;
    let styled = first + CSS@;
    let f = PAGE_BODY_OPEN@ + escape(title) + PAGE_COUNT_OPEN@ + decimal(items.len()) + PAGE_COUNT_WORD@
        + (if items.len() == 1 {
        Seq::empty()
    } else {
        PAGE_PLURAL@
    }) + PAGE_GRID_OPEN@;
    let rest = grid(items) + PAGE_TAIL@;
    assert(page =~= styled + f + rest);
    assert(page.take(first.len() as int) =~= first);
    assert(page.subrange(styled.len() as int, (styled.len() + f.len()) as int) =~= f);
    assert(occurs_at(page, f, styled.len() as int));
    if items.len() == 0 {
        let before = styled + f;
        assert(page =~= before + PAGE_EMPTY@ + PAGE_TAIL@);
        assert(page.subrange(before.len() as int, (before.len() + PAGE_EMPTY@.len()) as int)
            =~= PAGE_EMPTY@);
        assert(occurs_at(page, PAGE_EMPTY@, before.len() as int));
    }
}

fn card_image_text(item: &GalleryItem) -> (s: String)
    ensures
        s@ == card_image(*item),
{
    let mut s = String::new();
    match &item.image {
        GalleryImage::Png(bytes) => {
            s.append(IMG_OPEN);
            let encoded = base64_encode(bytes.as_slice());
            s.append(encoded.as_str());
            s.append(IMG_ALT);
            push_escaped(&mut s, item.title.as_str());
            s.append(IMG_CLOSE);
            assert(s@ =~= card_image(*item));
        },
        GalleryImage::Unreadable => {
            s.append(IMG_UNREADABLE);
            assert(s@ =~= card_image(*item));
        },
        GalleryImage::Missing => {
            s.append(IMG_MISSING);
            assert(s@ =~= card_image(*item));
        },
    }
    s
}

fn card_dimensions_text(item: &GalleryItem) -> (s: String)
    ensures
        s@ == card_dimensions(*item),
{
    let mut s = String::new();
    match (item.width, item.height) {
        (Some(w), Some(h)) => {
            push_decimal(&mut s, w as u64);
            s.append(SIZE_SEPARATOR);
            push_decimal(&mut s, h as u64);
        },
        _ => {
            s.append(UNKNOWN_SIZE);
        },
    }
    assert(s@ =~= card_dimensions(*item));
    s
}

fn card_caption_text(item: &GalleryItem) -> (s: String)
    ensures
        s@ == card_caption(*item),
{
    let mut s = String::new();
    s.append(CARD_CAPTION_OPEN);
    push_escaped(&mut s, item.title.as_str());
    s.append(CARD_META_OPEN);
    match &item.app {
        Some(app) => push_escaped(&mut s, app.as_str()),
        None => push_escaped(&mut s, UNKNOWN_APP),
    }
    s.append(CARD_SEPARATOR);
    push_escaped(&mut s, item.target.as_str());
    s.append(CARD_SEPARATOR);
    let dims = card_dimensions_text(item);
    s.append(dims.as_str());
    s.append(CARD_META_OPEN);
    push_escaped(&mut s, item.created_at.as_str());
    s.append(CARD_PATH_OPEN);
    push_escaped(&mut s, item.output_dir.as_str());
    s.append(CARD_CLOSE);
    assert(s@ =~= card_caption(*item));
    s
}

fn push_card(out: &mut String, item: &GalleryItem)
    ensures
        final(out)@ == old(out)@ + card(*item),
{
    let ghost start = out@;
    out.append(CARD_OPEN);
    let image = card_image_text(item);
    out.append(image.as_str());
    let caption = card_caption_text(item);
    out.append(caption.as_str());
    proof {
        assert(out@ =~= start + card(*item));
    }
}

/// Render the gallery page: a header with the escaped title and the capture
/// count, then one card per item (each image inlined as base64).
pub fn render(title: &str, items: &[GalleryItem]) -> (page: String)
    ensures
        page@ == gallery_page(title@, items@),
{
    let mut cards_text = String::new();
    let n = items.len();
    let mut i: usize = 0;
    while i < n
        invariant
            n == items@.len(),
            i <= n,
            cards_text@ == cards(items@.take(i as int)),
        decreases n - i,
    {
        push_card(&mut cards_text, &items[i]);
        proof {
            assert(items@.take(i + 1).drop_last() =~= items@.take(i as int));
        }
        i = i + 1;
    }
    proof {
        assert(items@.take(n as int) =~= items@);
    }
    if n == 0 {
        cards_text.append(PAGE_EMPTY);
    }
    let mut page = String::new();
    page.append(PAGE_HEAD);
    push_escaped(&mut page, title);
    page.append(PAGE_STYLE_OPEN);
    page.append(CSS);
    page.append(PAGE_BODY_OPEN);
    push_escaped(&mut page, title);
    page.append(PAGE_COUNT_OPEN);
    push_decimal(&mut page, n as u64);
    page.append(PAGE_COUNT_WORD);
    if n != 1 {
        page.append(PAGE_PLURAL);
    }
    page.append(PAGE_GRID_OPEN);
    page.append(cards_text.as_str());
    page.append(PAGE_TAIL);
    proof {
        assert(cards(Seq::<GalleryItem>::empty()) =~= Seq::<char>::empty());
        assert(page@ =~= gallery_page(title@, items@));
    }
    page
}

} // verus!

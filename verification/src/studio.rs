//! `cloche studio`: the decisions behind the local page for choosing
//! backdrops without flags.
//!
//! The page is a front end over the same config `capture` and `polish` read.
//! The HTTP handling is small and hand-rolled: this module parses request
//! lines, headers and query strings, routes a request to its endpoint, turns a
//! query into a backdrop style and checks posted preferences; the application
//! owns the socket, the JSON and the rendering.

use vstd::prelude::*;
use vstd::utf8::decode_utf8;
use vstd::utf8::encode_utf8;
use vstd::utf8::valid_utf8;

use crate::config::known_contains;
use crate::config::PolishPrefs;
use crate::contract::PaletteOption;
use crate::contract::StyleOptions;
use crate::pattern::MotifKind;
use crate::polish;
use crate::polish::BackdropKind;
use crate::polish::PresentationStyle;
use crate::polish::strings;
use crate::polish::table_names;
use crate::polish::wears_palette;
use crate::polish::names_of_kind;
use crate::rendezvous::pick;
use crate::sky::SkyKind;
use crate::space::SceneKind;
use crate::strings::eq_ignore_ascii_case;
use crate::strings::eq_ignore_ascii_case_str;
use crate::strings::next_word;
use crate::strings::next_word_str;
use crate::strings::owned;
use crate::strings::parse_unsigned;
use crate::strings::parse_unsigned_str;
use crate::strings::split_on;
use crate::strings::split_once;
use crate::strings::split_once_str;
use crate::strings::split_str;
use crate::strings::str_eq;
use crate::strings::trim;
use crate::strings::trim_str;
use crate::strings::views;
use crate::terrain::TerrainKind;

verus! {

/// Smallest swatch side a query may ask for.
pub const MIN_SIZE: u32 = 8;

/// Largest swatch side a query may ask for: the dimensions arrive on a query
/// string, and a procedural scene is painted per pixel.
pub const MAX_SIZE: u32 = 2048;

/// Most header bytes one request may send.
pub const MAX_HEADER_BYTES: usize = 16384;

/// Largest request body accepted.
pub const MAX_BODY_BYTES: usize = 262144;

// ---------------------------------------------------------------------------
// Request line and headers

/// The method, path and query of a request line: its first two
/// whitespace-separated words, the second split at its first `?`.
pub open spec fn request_line(line: Seq<char>) -> Option<(Seq<char>, Seq<char>, Seq<char>)> {
    let (method, rest) = next_word(line);
    let target = next_word(rest).0;
    if method.len() == 0 || target.len() == 0 {
        None
    } else {
        match split_once(target, '?') {
            Some((path, query)) => Some((method, path, query)),
            None => Some((method, target, Seq::empty())),
        }
    }
}

/// `GET /api/backdrop?w=10 HTTP/1.1` gives `("GET", "/api/backdrop", "w=10")`;
/// a line with fewer than two words gives `None`.
pub fn parse_request_line(line: &str) -> (r: Option<(String, String, String)>)
    ensures
        match r {
            Some((method, path, query)) => request_line(line@) == Some((method@, path@, query@)),
            None => request_line(line@) is None,
        },
{
    let (method, rest) = next_word_str(line);
    let (target, _) = next_word_str(rest);
    if method.unicode_len() == 0 || target.unicode_len() == 0 {
        return None;
    }
    match split_once_str(target, '?') {
        Some((path, query)) => Some((owned(method), owned(path), owned(query))),
        None => Some((owned(method), owned(target), String::new())),
    }
}

/// The value of a `Name: value` header line when its name is `name`, ignoring
/// ASCII case; name and value are trimmed of whitespace at both ends.
pub open spec fn header_lookup(header: Seq<char>, name: Seq<char>) -> Option<Seq<char>> {
    match split_once(header, ':') {
        Some((key, value)) => if eq_ignore_ascii_case(trim(key), name) {
            Some(trim(value))
        } else {
            None
        },
        None => None,
    }
}

/// `Content-Length: 42\r\n` looked up as `content-length` gives `42`.
pub fn header_value<'a>(header: &'a str, name: &str) -> (r: Option<&'a str>)
    ensures
        match r {
            Some(value) => header_lookup(header@, name@) == Some(value@),
            None => header_lookup(header@, name@) is None,
        },
{
    let (key, value) = split_once_str(header, ':')?;
    if eq_ignore_ascii_case_str(trim_str(key), name) {
        Some(trim_str(value))
    } else {
        None
    }
}

// ---------------------------------------------------------------------------
// Query strings

/// The value of an ASCII hex digit.
pub open spec fn hex_digit(b: u8) -> Option<int> {
    if 48 <= b <= 57 {
        Some(b - 48)
    } else if 97 <= b <= 102 {
        Some(b - 87)
    } else if 65 <= b <= 70 {
        Some(b - 55)
    } else {
        None
    }
}

/// The byte that the two bytes after a `%` spell when `u8::from_str_radix`
/// reads them in base 16: two hex digits, or a `+` sign and one hex digit.
pub open spec fn escaped_byte(a: u8, b: u8) -> Option<u8> {
    match (hex_digit(a), hex_digit(b)) {
        (Some(x), Some(y)) => Some((x * 16 + y) as u8),
        (None, Some(y)) => if a == 43 {
            Some(y as u8)
        } else {
            None
        },
        _ => None,
    }
}

/// Form decoding of a byte string: `+` is a space, `%` and two readable hex
/// bytes is the byte they spell, anything else stands for itself.
pub open spec fn percent_decoded(b: Seq<u8>) -> Seq<u8>
    decreases b.len(),
{
    if b.len() == 0 {
        Seq::empty()
    } else if b[0] == 43 {
        seq![32u8] + percent_decoded(b.drop_first())
    } else if b[0] == 37 && b.len() > 2 && escaped_byte(b[1], b[2]) is Some {
        seq![escaped_byte(b[1], b[2])->0] + percent_decoded(b.skip(3))
    } else {
        seq![b[0]] + percent_decoded(b.drop_first())
    }
}

/// What `String::from_utf8_lossy` makes of a byte string: the text it
/// encodes, with U+FFFD standing for each invalid sequence.
pub uninterp spec fn utf8_lossy(bytes: Seq<u8>) -> Seq<char>;

/// `String::from_utf8_lossy(bytes).into_owned()`. Valid UTF-8 comes back as
/// the text it encodes, as its documentation states.
#[verifier::external_body]
fn from_utf8_lossy(bytes: &[u8]) -> (r: String)
    ensures
        r@ == utf8_lossy(bytes@),
        valid_utf8(bytes@) ==> r@ == decode_utf8(bytes@),
{
    String::from_utf8_lossy(bytes).into_owned()
}

fn hex_digit_exec(b: u8) -> (r: Option<u8>)
    ensures
        match r {
            Some(v) => hex_digit(b) == Some(v as int),
            None => hex_digit(b) is None,
        },
{
    if 48 <= b && b <= 57 {
        Some(b - 48)
    } else if 97 <= b && b <= 102 {
        Some(b - 87)
    } else if 65 <= b && b <= 70 {
        Some(b - 55)
    } else {
        None
    }
}

fn escaped_byte_exec(a: u8, b: u8) -> (r: Option<u8>)
    ensures
        r == escaped_byte(a, b),
{
    match (hex_digit_exec(a), hex_digit_exec(b)) {
        (Some(x), Some(y)) => Some(x * 16 + y),
        (None, Some(y)) => if a == 43 {
            Some(y)
        } else {
            None
        },
        _ => None,
    }
}

/// The decoded text of a query value: the text its decoded bytes encode
/// when they are valid UTF-8, else what `from_utf8_lossy` makes of them.
#[verifier::opaque]
pub open spec fn decoded(value: Seq<char>) -> Seq<char> {
    let bytes = percent_decoded(encode_utf8(value));
    if valid_utf8(bytes) {
        decode_utf8(bytes)
    } else {
        utf8_lossy(bytes)
    }
}

/// Form-decode a query value: `deep%2Dfield` reads `deep-field`, `a+b` reads
/// `a b`. Bytes that do not make UTF-8 read as U+FFFD.
pub fn percent_decode(value: &str) -> (r: String)
    ensures
        r@ == decoded(value@),
{
    let bytes = value.as_bytes();
    let n = bytes.len();
    let mut out: Vec<u8> = Vec::new();
    let mut i: usize = 0;
    proof {
        assert(bytes@.skip(0) =~= bytes@);
        assert(out@ + percent_decoded(bytes@.skip(0)) =~= percent_decoded(bytes@));
    }
    while i < n
        invariant
            n == bytes@.len(),
            bytes@ == encode_utf8(value@),
            i <= n,
            percent_decoded(bytes@) == out@ + percent_decoded(bytes@.skip(i as int)),
        decreases n - i,
    {
        let ghost rest = bytes@.skip(i as int);
        let b = bytes[i];
        proof {
            assert(rest[0] == b);
            assert(rest.drop_first() =~= bytes@.skip(i + 1));
        }
        if b == 43 {
            out.push(32);
            proof {
                assert(percent_decoded(rest) == seq![32u8] + percent_decoded(rest.drop_first()));
            }
            i = i + 1;
        } else if b == 37 && n - i > 2 {
            match escaped_byte_exec(bytes[i + 1], bytes[i + 2]) {
                Some(byte) => {
                    out.push(byte);
                    proof {
                        assert(rest[1] == bytes@[i + 1]);
                        assert(rest[2] == bytes@[i + 2]);
                        assert(rest.skip(3) =~= bytes@.skip(i + 3));
                        assert(percent_decoded(rest) == seq![byte] + percent_decoded(rest.skip(3)));
                    }
                    i = i + 3;
                },
                None => {
                    out.push(b);
                    proof {
                        assert(rest[1] == bytes@[i + 1]);
                        assert(rest[2] == bytes@[i + 2]);
                        assert(percent_decoded(rest) == seq![b] + percent_decoded(rest.drop_first()));
                    }
                    i = i + 1;
                },
            }
        } else {
            out.push(b);
            proof {
                assert(percent_decoded(rest) == seq![b] + percent_decoded(rest.drop_first()));
            }
            i = i + 1;
        }
        proof {
            assert(percent_decoded(bytes@) =~= out@ + percent_decoded(bytes@.skip(i as int)));
        }
    }
    proof {
        assert(bytes@.skip(n as int) =~= Seq::<u8>::empty());
        assert(out@ =~= percent_decoded(bytes@));
    }
    proof {
        reveal(decoded);
    }
    from_utf8_lossy(out.as_slice())
}

/// The raw value of the first `name=value` pair named `key`; pieces without
/// `=` are skipped.
pub open spec fn first_value(pairs: Seq<Seq<char>>, key: Seq<char>) -> Option<Seq<char>>
    decreases pairs.len(),
{
    if pairs.len() == 0 {
        None
    } else {
        match split_once(pairs[0], '=') {
            Some((name, value)) => if name == key {
                Some(value)
            } else {
                first_value(pairs.drop_first(), key)
            },
            None => first_value(pairs.drop_first(), key),
        }
    }
}

/// The decoded value of `key` in an `&`-separated query, `None` when the key
/// is absent or its value decodes to nothing.
#[verifier::opaque]
pub open spec fn query_lookup(query: Seq<char>, key: Seq<char>) -> Option<Seq<char>> {
    match first_value(split_on(query, '&'), key) {
        Some(value) => if decoded(value).len() > 0 {
            Some(decoded(value))
        } else {
            None
        },
        None => None,
    }
}

/// Percent-decoded value for `key`, or `None` when absent or empty.
#[verifier::rlimit(60)]
pub fn query_get(query: &str, key: &str) -> (r: Option<String>)
    ensures
        match r {
            Some(value) => query_lookup(query@, key@) == Some(value@),
            None => query_lookup(query@, key@) is None,
        },
{
    proof {
        reveal(query_lookup);
    }
    let pairs = split_str(query, '&');
    let ghost all = views(pairs@);
    proof {
        assert(all.skip(0) =~= all);
    }
    let n = pairs.len();
    let mut j: usize = 0;
    while j < n
        invariant
            n == pairs@.len(),
            all == views(pairs@),
            all == split_on(query@, '&'),
            j <= n,
            first_value(all, key@) == first_value(all.skip(j as int), key@),
        decreases n - j,
    {
        let pair = pairs[j];
        proof {
            assert(all.skip(j as int)[0] == pair@);
            assert(all.skip(j as int).drop_first() =~= all.skip(j + 1));
        }
        if let Some((name, value)) = split_once_str(pair, '=') {
            if str_eq(name, key) {
                let text = percent_decode(value);
                proof {
                    reveal(query_lookup);
                }
                if text.as_str().unicode_len() == 0 {
                    return None;
                }
                return Some(text);
            }
        }
        j = j + 1;
    }
    proof {
        assert(all.skip(n as int) =~= Seq::<Seq<char>>::empty());
    }
    None
}

/// A requested size kept within `MIN_SIZE..=MAX_SIZE`.
pub open spec fn clamp_size(v: int) -> int {
    if v < MIN_SIZE {
        MIN_SIZE as int
    } else if v > MAX_SIZE {
        MAX_SIZE as int
    } else {
        v
    }
}

/// The size a query asks for under `key`: its value as a `u32`, or
/// `fallback` when it is absent or not a number, clamped to the allowed
/// range.
pub open spec fn size_value(query: Seq<char>, key: Seq<char>, fallback: u32) -> int {
    let asked = match query_lookup(query, key) {
        Some(text) => match parse_unsigned(text, u32::MAX as int) {
            Some(v) => v,
            None => fallback as int,
        },
        None => fallback as int,
    };
    clamp_size(asked)
}

/// The swatch side a query asks for, so that a query string cannot ask for a
/// huge render.
pub fn size_param(query: &str, key: &str, fallback: u32) -> (r: u32)
    ensures
        r == size_value(query@, key@, fallback),
        MIN_SIZE <= r <= MAX_SIZE,
{
    let asked = match query_get(query, key) {
        Some(text) => match parse_unsigned_str(text.as_str(), 0xffff_ffff) {
            Some(v) => v,
            None => fallback as u64,
        },
        None => fallback as u64,
    };
    if asked < MIN_SIZE as u64 {
        MIN_SIZE
    } else if asked > MAX_SIZE as u64 {
        MAX_SIZE
    } else {
        asked as u32
    }
}

// ---------------------------------------------------------------------------
// Styles from a query

/// The seed a query asks for: `seed` as a `u64`, else 0.
pub open spec fn query_seed(query: Seq<char>) -> u64 {
    match query_lookup(query, "seed"@) {
        Some(text) => match parse_unsigned(text, u64::MAX as int) {
            Some(v) => v as u64,
            None => 0,
        },
        None => 0,
    }
}

/// The option a query sets for one second axis: the kind it names, only when
/// the style's family is the one the axis belongs to.
pub open spec fn axis_choice<K>(applies: bool, named: Option<K>) -> Option<K> {
    if applies {
        named
    } else {
        None
    }
}

/// The named kind of a query value, through a family's name table.
pub open spec fn named_scene(query: Seq<char>) -> Option<SceneKind> {
    match query_lookup(query, "scene"@) {
        Some(name) => SceneKind::spec_from_name(name),
        None => None,
    }
}

/// The motif a query names.
pub open spec fn named_motif(query: Seq<char>) -> Option<MotifKind> {
    match query_lookup(query, "motif"@) {
        Some(name) => MotifKind::spec_from_name(name),
        None => None,
    }
}

/// The sky a query names.
pub open spec fn named_sky(query: Seq<char>) -> Option<SkyKind> {
    match query_lookup(query, "sky"@) {
        Some(name) => SkyKind::spec_from_name(name),
        None => None,
    }
}

/// The terrain a query names.
pub open spec fn named_terrain(query: Seq<char>) -> Option<TerrainKind> {
    match query_lookup(query, "terrain"@) {
        Some(name) => TerrainKind::spec_from_name(name),
        None => None,
    }
}

/// The style a swatch query describes: the `palette` it names when that
/// palette exists, else the seed's pick from the space palettes; then each
/// named second axis, kept only on its own family.
pub open spec fn query_style_fits(query: Seq<char>, style: PresentationStyle) -> bool {
    let seed = query_seed(query);
    &&& style.seed == seed
    &&& exists|i: int| wears_palette(style, i)
    &&& match query_lookup(query, "palette"@) {
        Some(name) => if table_names().contains(name) {
            style.palette_name@ == name
        } else {
            pick(seed, names_of_kind(BackdropKind::Space, 38)) == Some(style.palette_name@)
        },
        None => pick(seed, names_of_kind(BackdropKind::Space, 38)) == Some(style.palette_name@),
    }
    &&& style.scene == axis_choice(style.backdrop == BackdropKind::Space, named_scene(query))
    &&& style.motif == axis_choice(style.backdrop == BackdropKind::Pattern, named_motif(query))
    &&& style.sky == axis_choice(style.backdrop == BackdropKind::Sky, named_sky(query))
    &&& style.terrain == axis_choice(style.backdrop == BackdropKind::Terrain, named_terrain(query))
}

/// A swatch request is drawn as it asks: its `seed` value (0 when absent or
/// not a number), the palette its `palette` value names when that palette
/// exists, and the scene, motif, sky or terrain its values name, each only on
/// a palette of its own family and never on another.
#[verifier::spinoff_prover]
pub proof fn lemma_query_pins_what_it_names(query: Seq<char>, style: PresentationStyle)
    requires
        query_style_fits(query, style),
    ensures
        query_lookup(query, "seed"@) matches Some(t) ==> (parse_unsigned(t, u64::MAX as int) matches Some(
            v,
        ) ==> style.seed == v as u64),
        query_lookup(query, "seed"@) is None ==> style.seed == 0,
        query_lookup(query, "palette"@) matches Some(n) ==> (table_names().contains(n)
            ==> style.palette_name@ == n),
        query_lookup(query, "scene"@) matches Some(n) ==> (SceneKind::spec_from_name(n) is Some
            && style.backdrop == BackdropKind::Space ==> style.scene == SceneKind::spec_from_name(n)),
        query_lookup(query, "motif"@) matches Some(n) ==> (MotifKind::spec_from_name(n) is Some
            && style.backdrop == BackdropKind::Pattern ==> style.motif == MotifKind::spec_from_name(n)),
        query_lookup(query, "sky"@) matches Some(n) ==> (SkyKind::spec_from_name(n) is Some
            && style.backdrop == BackdropKind::Sky ==> style.sky == SkyKind::spec_from_name(n)),
        query_lookup(query, "terrain"@) matches Some(n) ==> (TerrainKind::spec_from_name(n) is Some
            && style.backdrop == BackdropKind::Terrain ==> style.terrain == TerrainKind::spec_from_name(
            n,
        )),
        style.backdrop != BackdropKind::Space ==> style.scene is None,
        style.backdrop != BackdropKind::Pattern ==> style.motif is None,
        style.backdrop != BackdropKind::Sky ==> style.sky is None,
        style.backdrop != BackdropKind::Terrain ==> style.terrain is None,
{
}

fn query_seed_exec(query: &str) -> (seed: u64)
    ensures
        seed == query_seed(query@),
{
    match query_get(query, "seed") {
        Some(text) => match parse_unsigned_str(text.as_str(), 0xffff_ffff_ffff_ffff) {
            Some(v) => v,
            None => 0,
        },
        None => 0,
    }
}

/// The backdrop style a swatch request asks for.
#[verifier::spinoff_prover]
pub fn style_from_query(query: &str) -> (style: PresentationStyle)
    ensures
        query_style_fits(query@, style),
{
    let seed = query_seed_exec(query);
    let mut style = match query_get(query, "palette") {
        Some(name) => match polish::style_with_palette(seed, name.as_str()) {
            Some(style) => style,
            None => polish::style_from_seed(seed),
        },
        None => polish::style_from_seed(seed),
    };
    let ghost base = style;
    let ghost k = choose|i: int| wears_palette(base, i);
    proof {
        assert(wears_palette(base, k));
    }
    if style.is_space() {
        if let Some(name) = query_get(query, "scene") {
            if let Some(scene) = polish::scene_from_name(name.as_str()) {
                style.scene = Some(scene);
            }
        }
    }
    if style.is_pattern() {
        if let Some(name) = query_get(query, "motif") {
            if let Some(motif) = polish::motif_from_name(name.as_str()) {
                style.motif = Some(motif);
            }
        }
    }
    if style.is_sky() {
        if let Some(name) = query_get(query, "sky") {
            if let Some(sky) = polish::sky_from_name(name.as_str()) {
                style.sky = Some(sky);
            }
        }
    }
    if style.is_terrain() {
        if let Some(name) = query_get(query, "terrain") {
            if let Some(terrain) = polish::terrain_from_name(name.as_str()) {
                style.terrain = Some(terrain);
            }
        }
    }
    proof {
        assert(style.seed == base.seed && style.palette_name == base.palette_name);
        assert(style.backdrop == base.backdrop);
        assert(wears_palette(style, k));
    }
    style
}

// ---------------------------------------------------------------------------
// Routing

/// What serves a request.
#[derive(Debug, Clone, Copy, PartialEq, Eq, Structural)]
pub enum Endpoint {
    /// `GET /`: the page itself.
    Page,
    /// `GET /api/state`: config, options and warnings as JSON.
    State,
    /// `POST /api/config`: store posted preferences, then answer the state.
    SaveConfig,
    /// `GET /api/backdrop`: one backdrop swatch as PNG.
    Backdrop,
    /// `GET /api/card`: the newest capture composed on a backdrop, as PNG.
    Card,
    /// Any other `GET`.
    NotFound,
    /// Any other method.
    MethodNotAllowed,
}

/// The endpoint that serves `method` on `path`.
pub open spec fn endpoint_of(method: Seq<char>, path: Seq<char>) -> Endpoint {
    if method == "GET"@ {
        if path == "/"@ {
            Endpoint::Page
        } else if path == "/api/state"@ {
            Endpoint::State
        } else if path == "/api/backdrop"@ {
            Endpoint::Backdrop
        } else if path == "/api/card"@ {
            Endpoint::Card
        } else {
            Endpoint::NotFound
        }
    } else if method == "POST"@ && path == "/api/config"@ {
        Endpoint::SaveConfig
    } else {
        Endpoint::MethodNotAllowed
    }
}

/// The status an endpoint answers with when its work succeeds.
pub open spec fn success_status(endpoint: Endpoint) -> u16 {
    match endpoint {
        Endpoint::NotFound => 404,
        Endpoint::MethodNotAllowed => 405,
        _ => 200,
    }
}

/// How a request is answered: by which endpoint, with which status and
/// content type when that endpoint's work succeeds.
#[derive(Debug, Clone, Copy)]
pub struct Route {
    pub endpoint: Endpoint,
    pub status: u16,
    pub content_type: &'static str,
}

/// Content type of the page.
pub const HTML_TYPE: &'static str = "text/html; charset=utf-8";

/// Content type of JSON answers, errors included.
pub const JSON_TYPE: &'static str = "application/json; charset=utf-8";

/// Content type of swatches and cards.
pub const PNG_TYPE: &'static str = "image/png";

/// The content type an endpoint answers with when its work succeeds.
pub open spec fn success_type(endpoint: Endpoint) -> Seq<char> {
    match endpoint {
        Endpoint::Page => HTML_TYPE@,
        Endpoint::Backdrop | Endpoint::Card => PNG_TYPE@,
        _ => JSON_TYPE@,
    }
}

/// The studio serves exactly five requests, each by its own endpoint with a
/// 200: `GET /` (the page, as HTML), `GET /api/state` (JSON), `GET
/// /api/backdrop` and `GET /api/card` (PNG images) and `POST /api/config`
/// (JSON). Any other `GET` is a 404 and any other method a 405.
#[verifier::spinoff_prover]
pub proof fn lemma_studio_serves_its_requests(method: Seq<char>, path: Seq<char>)
    ensures
        (endpoint_of(method, path) == Endpoint::Page) <==> (method == "GET"@ && path == "/"@),
        (endpoint_of(method, path) == Endpoint::State) <==> (method == "GET"@ && path == "/api/state"@),
        (endpoint_of(method, path) == Endpoint::Backdrop) <==> (method == "GET"@ && path
            == "/api/backdrop"@),
        (endpoint_of(method, path) == Endpoint::Card) <==> (method == "GET"@ && path == "/api/card"@),
        (endpoint_of(method, path) == Endpoint::SaveConfig) <==> (method == "POST"@ && path
            == "/api/config"@),
        (endpoint_of(method, path) == Endpoint::NotFound) <==> (method == "GET"@ && path != "/"@
            && path != "/api/state"@ && path != "/api/backdrop"@ && path != "/api/card"@),
        (success_status(endpoint_of(method, path)) == 200) <==> ((method == "GET"@ && (path == "/"@
            || path == "/api/state"@ || path == "/api/backdrop"@ || path == "/api/card"@)) || (method
            == "POST"@ && path == "/api/config"@)),
        method == "GET"@ && path == "/"@ ==> success_type(endpoint_of(method, path))
            == "text/html; charset=utf-8"@,
        method == "GET"@ && (path == "/api/backdrop"@ || path == "/api/card"@) ==> success_type(
            endpoint_of(method, path),
        ) == "image/png"@,
        (method == "GET"@ && path == "/api/state"@) || (method == "POST"@ && path == "/api/config"@)
            ==> success_type(endpoint_of(method, path)) == "application/json; charset=utf-8"@,
{
    reveal_strlit("GET");
    reveal_strlit("POST");
    reveal_strlit("/");
    reveal_strlit("/api/state");
    reveal_strlit("/api/backdrop");
    reveal_strlit("/api/card");
    reveal_strlit("/api/config");
    assert("GET"@.len() != "POST"@.len());
    assert("/"@.len() != "/api/state"@.len());
    assert("/"@.len() != "/api/backdrop"@.len());
    assert("/"@.len() != "/api/card"@.len());
    assert("/api/state"@.len() != "/api/backdrop"@.len());
    assert("/api/state"@.len() != "/api/card"@.len());
    assert("/api/backdrop"@.len() != "/api/card"@.len());
}

/// Route a request: the page at the root, four API endpoints, 404 for any
/// other `GET` and 405 for any other method.
#[verifier::spinoff_prover]
pub fn route(method: &str, path: &str) -> (r: Route)
    ensures
        r.endpoint == endpoint_of(method@, path@),
        r.status == success_status(r.endpoint),
        r.content_type@ == success_type(r.endpoint),
{
    let endpoint = if str_eq(method, "GET") {
        if str_eq(path, "/") {
            Endpoint::Page
        } else if str_eq(path, "/api/state") {
            Endpoint::State
        } else if str_eq(path, "/api/backdrop") {
            Endpoint::Backdrop
        } else if str_eq(path, "/api/card") {
            Endpoint::Card
        } else {
            Endpoint::NotFound
        }
    } else if str_eq(method, "POST") && str_eq(path, "/api/config") {
        Endpoint::SaveConfig
    } else {
        Endpoint::MethodNotAllowed
    };
    match endpoint {
        Endpoint::Page => Route { endpoint, status: 200, content_type: HTML_TYPE },
        Endpoint::Backdrop | Endpoint::Card => Route { endpoint, status: 200, content_type: PNG_TYPE },
        Endpoint::NotFound => Route { endpoint, status: 404, content_type: JSON_TYPE },
        Endpoint::MethodNotAllowed => Route { endpoint, status: 405, content_type: JSON_TYPE },
        _ => Route { endpoint, status: 200, content_type: JSON_TYPE },
    }
}

/// The status of an endpoint whose work failed: refused preferences and
/// unrenderable swatches are the client's fault (400), a card with no capture
/// to show is missing (404). Endpoints that cannot fail keep their status.
pub fn failure_status(endpoint: Endpoint) -> (status: u16)
    ensures
        status == match endpoint {
            Endpoint::SaveConfig | Endpoint::Backdrop => 400u16,
            Endpoint::Card => 404u16,
            _ => success_status(endpoint),
        },
{
    match endpoint {
        Endpoint::SaveConfig | Endpoint::Backdrop => 400,
        Endpoint::Card => 404,
        Endpoint::NotFound => 404,
        Endpoint::MethodNotAllowed => 405,
        _ => 200,
    }
}

/// The reason phrase of a status line.
pub open spec fn reason_phrase(status: u16) -> Seq<char> {
    if status == 200 {
        "OK"@
    } else if status == 400 {
        "Bad Request"@
    } else if status == 404 {
        "Not Found"@
    } else if status == 405 {
        "Method Not Allowed"@
    } else if status == 413 {
        "Payload Too Large"@
    } else if status == 431 {
        "Request Header Fields Too Large"@
    } else {
        "Error"@
    }
}

/// The reason phrase written after a status code.
pub fn reason(status: u16) -> (r: &'static str)
    ensures
        r@ == reason_phrase(status),
{
    if status == 200 {
        "OK"
    } else if status == 400 {
        "Bad Request"
    } else if status == 404 {
        "Not Found"
    } else if status == 405 {
        "Method Not Allowed"
    } else if status == 413 {
        "Payload Too Large"
    } else if status == 431 {
        "Request Header Fields Too Large"
    } else {
        "Error"
    }
}

// ---------------------------------------------------------------------------
// Posted preferences

/// The first of `values` that `known` does not list.
pub open spec fn first_unknown(values: Seq<Seq<char>>, known: Seq<Seq<char>>) -> Option<Seq<char>>
    decreases values.len(),
{
    if values.len() == 0 {
        None
    } else if !known.contains(values[0]) {
        Some(values[0])
    } else {
        first_unknown(values.drop_first(), known)
    }
}

/// A pool followed by its pin, as the names to check.
pub open spec fn pool_and_pin(pool: Seq<String>, pin: Option<String>) -> Seq<Seq<char>> {
    strings(pool) + match pin {
        Some(name) => seq![name@],
        None => Seq::empty(),
    }
}

/// Why one family of posted names is refused: `unknown <label>: <name>` for
/// its first unknown name.
pub open spec fn family_refusal(names: Seq<Seq<char>>, known: Seq<Seq<char>>, label: Seq<char>) -> Option<
    Seq<char>,
> {
    match first_unknown(names, known) {
        Some(name) => Some("unknown "@ + label + ": "@ + name),
        None => None,
    }
}

/// Why posted preferences are refused, if they are: palettes (pool, then
/// pin) first, then scenes, motifs, skies and terrains.
pub open spec fn prefs_refusal(prefs: PolishPrefs) -> Option<Seq<char>> {
    let palette = family_refusal(pool_and_pin(prefs.palettes@, prefs.palette), table_names(), "palette"@);
    let scene = family_refusal(pool_and_pin(prefs.scenes@, prefs.scene), views(SceneKind::NAMES@), "scene"@);
    let motif = family_refusal(pool_and_pin(prefs.motifs@, prefs.motif), views(MotifKind::NAMES@), "motif"@);
    let sky = family_refusal(pool_and_pin(prefs.skies@, prefs.sky), views(SkyKind::NAMES@), "sky"@);
    let terrain = family_refusal(pool_and_pin(prefs.terrains@, prefs.terrain), views(TerrainKind::NAMES@), "terrain"@);
    if palette is Some {
        palette
    } else if scene is Some {
        scene
    } else if motif is Some {
        motif
    } else if sky is Some {
        sky
    } else {
        terrain
    }
}

fn refusal_message(label: &str, name: &str) -> (m: String)
    ensures
        m@ == "unknown "@ + label@ + ": "@ + name@,
{
    let mut m = String::from_str("unknown ");
    m.append(label);
    m.append(": ");
    m.append(name);
    m
}

#[verifier::spinoff_prover]
fn check_family(pool: &Vec<String>, pin: &Option<String>, known: &[&'static str], label: &str) -> (r:
    Option<String>)
    ensures
        match r {
            Some(m) => family_refusal(pool_and_pin(pool@, *pin), views(known@), label@) == Some(m@),
            None => family_refusal(pool_and_pin(pool@, *pin), views(known@), label@) is None,
        },
{
    let ghost names = pool_and_pin(pool@, *pin);
    let ghost k = views(known@);
    let n = pool.len();
    let mut i: usize = 0;
    proof {
        assert(names.skip(0) =~= names);
    }
    while i < n
        invariant
            n == pool@.len(),
            names == pool_and_pin(pool@, *pin),
            k == views(known@),
            i <= n,
            first_unknown(names, k) == first_unknown(names.skip(i as int), k),
        decreases n - i,
    {
        let name = pool[i].as_str();
        proof {
            assert(names.skip(i as int)[0] == name@);
            assert(names.skip(i as int).drop_first() =~= names.skip(i + 1));
        }
        if !known_contains(known, name) {
            return Some(refusal_message(label, name));
        }
        i = i + 1;
    }
    match pin {
        Some(name) => {
            proof {
                assert(names.skip(n as int) =~= seq![name@]);
                assert(seq![name@].drop_first() =~= Seq::<Seq<char>>::empty());
                assert(first_unknown(Seq::<Seq<char>>::empty(), k) is None);
                assert(seq![name@][0] == name@);
            }
            if !known_contains(known, name.as_str()) {
                return Some(refusal_message(label, name.as_str()));
            }
            None
        },
        None => {
            proof {
                assert(names.skip(n as int) =~= Seq::<Seq<char>>::empty());
            }
            None
        },
    }
}

/// Check posted preferences against the catalogs before they reach the
/// config: the page never sends an unknown name, but anything that can reach
/// the server can post, and the file is read on every capture.
#[verifier::spinoff_prover]
pub fn check_prefs(prefs: &PolishPrefs) -> (r: Result<(), String>)
    ensures
        match r {
            Ok(()) => prefs_refusal(*prefs) is None,
            Err(m) => prefs_refusal(*prefs) == Some(m@),
        },
{
    let palettes = polish::palette_names();
    proof {
        assert(views(palettes@) =~= table_names());
    }
    if let Some(m) = check_family(&prefs.palettes, &prefs.palette, palettes.as_slice(), "palette") {
        return Err(m);
    }
    let scenes = polish::scene_names();
    proof {
        assert(views(scenes@) =~= views(SceneKind::NAMES@));
    }
    if let Some(m) = check_family(&prefs.scenes, &prefs.scene, scenes.as_slice(), "scene") {
        return Err(m);
    }
    let motifs = polish::motif_names();
    proof {
        assert(views(motifs@) =~= views(MotifKind::NAMES@));
    }
    if let Some(m) = check_family(&prefs.motifs, &prefs.motif, motifs.as_slice(), "motif") {
        return Err(m);
    }
    let skies = polish::sky_names();
    proof {
        assert(views(skies@) =~= views(SkyKind::NAMES@));
    }
    if let Some(m) = check_family(&prefs.skies, &prefs.sky, skies.as_slice(), "sky") {
        return Err(m);
    }
    let terrains = polish::terrain_names();
    proof {
        assert(views(terrains@) =~= views(TerrainKind::NAMES@));
    }
    if let Some(m) = check_family(&prefs.terrains, &prefs.terrain, terrains.as_slice(), "terrain") {
        return Err(m);
    }
    Ok(())
}

// ---------------------------------------------------------------------------
// Menus

#[verifier::spinoff_prover]
fn owned_names(names: &Vec<&'static str>) -> (r: Vec<String>)
    ensures
        strings(r@) == views(names@),
{
    let mut r: Vec<String> = Vec::new();
    let n = names.len();
    let mut i: usize = 0;
    while i < n
        invariant
            n == names@.len(),
            i <= n,
            r@.len() == i,
            forall|j: int| 0 <= j < i ==> #[trigger] r@[j]@ == names@[j]@,
        decreases n - i,
    {
        r.push(owned(names[i]));
        i = i + 1;
    }
    proof {
        assert(strings(r@) =~= views(names@));
    }
    r
}

/// The menu entry of palette `i`: its name and its family label.
pub open spec fn lists_palette(option: PaletteOption, i: int) -> bool {
    option.name@ == polish::palette_name(i) && option.kind@ == polish::kind_label(
        polish::palette_kind(i),
    )
}

/// Every backdrop choice the page offers: each palette with its family label,
/// then the scene, motif, sky and terrain menus.
#[verifier::spinoff_prover]
pub fn style_options() -> (options: StyleOptions)
    ensures
        options.palettes@.len() == 38,
        forall|i: int| 0 <= i < 38 ==> #[trigger] lists_palette(options.palettes@[i], i),
        strings(options.scenes@) == views(SceneKind::NAMES@),
        strings(options.motifs@) == views(MotifKind::NAMES@),
        strings(options.skies@) == views(SkyKind::NAMES@),
        strings(options.terrains@) == views(TerrainKind::NAMES@),
{
    let catalog = polish::palette_catalog();
    let mut palettes: Vec<PaletteOption> = Vec::new();
    let mut i: usize = 0;
    while i < catalog.len()
        invariant
            catalog@.len() == 38,
            forall|j: int| 0 <= j < 38 ==> #[trigger] catalog@[j].0@ == polish::palette_name(j),
            forall|j: int|
                0 <= j < 38 ==> #[trigger] catalog@[j].1@ == polish::kind_label(
                    polish::palette_kind(j),
                ),
            i <= 38,
            palettes@.len() == i,
            forall|j: int| 0 <= j < i ==> #[trigger] lists_palette(palettes@[j], j),
        decreases 38 - i,
    {
        let (name, kind) = catalog[i];
        proof {
            assert(catalog@[i as int].0@ == polish::palette_name(i as int));
            assert(catalog@[i as int].1@ == polish::kind_label(polish::palette_kind(i as int)));
        }
        let ghost before = palettes@;
        palettes.push(PaletteOption { name: owned(name), kind: owned(kind) });
        proof {
            assert forall|j: int| 0 <= j < i + 1 implies #[trigger] lists_palette(palettes@[j], j) by {
                if j < i {
                    assert(palettes@[j] == before[j]);
                }
            }
        }
        i = i + 1;
    }
    let scene_menu = polish::scene_names();
    let motif_menu = polish::motif_names();
    let sky_menu = polish::sky_names();
    let terrain_menu = polish::terrain_names();
    proof {
        assert(views(scene_menu@) =~= views(SceneKind::NAMES@));
        assert(views(motif_menu@) =~= views(MotifKind::NAMES@));
        assert(views(sky_menu@) =~= views(SkyKind::NAMES@));
        assert(views(terrain_menu@) =~= views(TerrainKind::NAMES@));
    }
    StyleOptions {
        palettes,
        scenes: owned_names(&scene_menu),
        motifs: owned_names(&motif_menu),
        skies: owned_names(&sky_menu),
        terrains: owned_names(&terrain_menu),
    }
}

} // verus!

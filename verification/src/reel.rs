//! Reel cue files: the captions and cards a reel composition shows, read from
//! AppReels-shaped cue JSON (`{ captions: [{startMs, endMs, text, position}],
//! titleCard: {text, ms}, outroCard: {text, ms} }`). Unknown keys are ignored.

use vstd::prelude::*;

use crate::cli::array_ends;
use crate::cli::card_times;
use crate::cli::cue_times;
use crate::cli::end_times;
use crate::cli::inferred_reel_duration_ms;
use crate::cli::max_of;
use crate::cli::MIN_REEL_MS;
use crate::json::as_items;
use crate::json::parse_json;
use crate::json::parsed_json;
use crate::json::as_text;
use crate::json::as_u64;
use crate::json::get;
use crate::json::get_in;
use crate::json::get_in_value;
use crate::json::get_member;
use crate::json::items_view;
use crate::json::jview;
use crate::json::lemma_items_view;
use crate::json::value_items;
use crate::json::value_text;
use crate::json::value_u64;
use crate::json::Json;
use crate::json::JsonValue;
use crate::polish::strings;
use crate::strings::owned;
use crate::strings::starts_with;
use crate::strings::str_eq;

verus! {

/// A single on-screen caption.
#[derive(Debug, Clone)]
pub struct Caption {
    pub start_ms: u64,
    pub end_ms: u64,
    pub text: String,
    pub top: bool,
}

/// The caption one cue item describes: start (0 when missing), end (the start
/// when missing), text and whether it sits at the top; nothing for an item
/// without text or without a positive length.
pub open spec fn caption_of(item: Json) -> Option<(u64, u64, Seq<char>, bool)> {
    let start = match as_u64(get(item, "startMs"@)) {
        Some(n) => n,
        None => 0,
    };
    let end = match as_u64(get(item, "endMs"@)) {
        Some(n) => n,
        None => start,
    };
    let text = match as_text(get(item, "text"@)) {
        Some(t) => t,
        None => Seq::empty(),
    };
    if text.len() == 0 || end <= start {
        None
    } else {
        Some((start, end, text, as_text(get(item, "position"@)) == Some("top"@)))
    }
}

/// The captions of a list of cue items, in order.
pub open spec fn captions_of(items: Seq<Json>) -> Seq<(u64, u64, Seq<char>, bool)>
    decreases items.len(),
{
    if items.len() == 0 {
        Seq::empty()
    } else {
        captions_of(items.drop_last()) + match caption_of(items.last()) {
            Some(c) => seq![c],
            None => Seq::empty(),
        }
    }
}

/// The captions of a cue file.
pub open spec fn cue_captions(cues: Json) -> Seq<(u64, u64, Seq<char>, bool)> {
    match as_items(get(cues, "captions"@)) {
        Some(items) => captions_of(items),
        None => Seq::empty(),
    }
}

/// The views of captions.
pub open spec fn caption_views(captions: Seq<Caption>) -> Seq<(u64, u64, Seq<char>, bool)> {
    Seq::new(captions.len(), |i: int| (captions[i].start_ms, captions[i].end_ms, captions[i].text@, captions[i].top))
}

fn caption_from(item: &JsonValue) -> (r: Option<Caption>)
    ensures
        match r {
            Some(c) => caption_of(jview(*item)) == Some((c.start_ms, c.end_ms, c.text@, c.top)),
            None => caption_of(jview(*item)) is None,
        },
{
    let start_ms = match value_u64(get_member(item, "startMs")) {
        Some(n) => n,
        None => 0,
    };
    let end_ms = match value_u64(get_member(item, "endMs")) {
        Some(n) => n,
        None => start_ms,
    };
    let text = match value_text(get_member(item, "text")) {
        Some(t) => t,
        None => "",
    };
    proof {
        reveal_strlit("");
    }
    if text.unicode_len() == 0 || end_ms <= start_ms {
        return None;
    }
    let top = match value_text(get_member(item, "position")) {
        Some(p) => str_eq(p, "top"),
        None => false,
    };
    Some(Caption { start_ms, end_ms, text: owned(text), top })
}

/// Parse the captions of a cue file.
pub fn captions_from_cues(cues: &JsonValue) -> (r: Vec<Caption>)
    ensures
        caption_views(r@) == cue_captions(jview(*cues)),
{
    let mut out: Vec<Caption> = Vec::new();
    let items = match value_items(get_member(cues, "captions")) {
        Some(items) => items,
        None => {
            assert(caption_views(out@) =~= Seq::<(u64, u64, Seq<char>, bool)>::empty());
            return out;
        },
    };
    proof {
        lemma_items_view(items@);
    }
    let ghost views = items_view(items@);
    let n = items.len();
    let mut i: usize = 0;
    proof {
        assert(views.take(0) =~= Seq::<Json>::empty());
        assert(caption_views(out@) =~= captions_of(views.take(0)));
    }
    while i < n
        invariant
            n == items@.len(),
            views == items_view(items@),
            views.len() == n,
            forall|j: int| 0 <= j < n ==> #[trigger] views[j] == jview(items@[j]),
            i <= n,
            caption_views(out@) == captions_of(views.take(i as int)),
        decreases n - i,
    {
        let ghost before = out@;
        proof {
            assert(views.take(i + 1).drop_last() =~= views.take(i as int));
            assert(views.take(i + 1).last() == jview(items@[i as int]));
        }
        match caption_from(&items[i]) {
            Some(c) => {
                out.push(c);
                proof {
                    assert(caption_views(out@) =~= caption_views(before) + seq![
                        (c.start_ms, c.end_ms, c.text@, c.top),
                    ]);
                }
            },
            None => {
                proof {
                    assert(caption_views(out@) =~= caption_views(before) + Seq::<
                        (u64, u64, Seq<char>, bool),
                    >::empty());
                }
            },
        }
        i = i + 1;
    }
    proof {
        assert(views.take(n as int) =~= views);
    }
    out
}

/// The text of a card (`titleCard` or `outroCard`), when the cue file sets one.
pub fn card_text(cues: &JsonValue, key: &str) -> (r: Option<String>)
    ensures
        match r {
            Some(t) => as_text(get_in(get(jview(*cues), key@), "text"@)) == Some(t@),
            None => as_text(get_in(get(jview(*cues), key@), "text"@)) is None,
        },
{
    match value_text(get_in_value(get_member(cues, key), "text")) {
        Some(t) => Some(owned(t)),
        None => None,
    }
}

/// How long a card runs: its `ms`, or `default`.
pub fn card_ms(cues: &JsonValue, key: &str, default: u64) -> (r: u64)
    ensures
        r == match as_u64(get_in(get(jview(*cues), key@), "ms"@)) {
            Some(n) => n,
            None => default,
        },
{
    match value_u64(get_in_value(get_member(cues, key), "ms")) {
        Some(n) => n,
        None => default,
    }
}


// ---------------------------------------------------------------------------
// Rendering a reel

/// What `reels render` has checked before any engine runs: the errors so far,
/// the cue document the engine gets (`{}` when there is none), and the reel's
/// length.
pub struct ReelInputs {
    pub errors: Vec<String>,
    pub cues: JsonValue,
    pub duration_ms: u64,
}

/// The cue document, if a cue file was named, read and parsed.
pub open spec fn parsed_cues(cue_file: Option<Result<Seq<char>, Seq<char>>>) -> Option<Json> {
    match cue_file {
        Some(Ok(text)) => parsed_json(text),
        _ => None,
    }
}

/// The reel's length: the `--duration-ms` flag, else the end of the last cue
/// with a floor of six seconds.
pub open spec fn reel_duration(flag: Option<u64>, cues: Option<Json>) -> u64 {
    match flag {
        Some(d) => d,
        None => match cues {
            Some(c) => max_of(cue_times(c), MIN_REEL_MS),
            None => MIN_REEL_MS,
        },
    }
}

/// The errors found before the cue file: a missing input video, then the
/// failure to create the output's directory.
pub open spec fn early_errors(input: Seq<char>, input_exists: bool, out_dir_error: Option<Seq<char>>) -> Seq<
    Seq<char>,
> {
    (if input_exists {
        Seq::empty()
    } else {
        seq!["input video does not exist: "@ + input]
    }) + match out_dir_error {
        Some(e) => seq![e],
        None => Seq::empty(),
    }
}

/// The view of a cue file as it was read.
pub open spec fn cue_file_view(cue_file: Option<Result<String, String>>) -> Option<Result<Seq<char>, Seq<char>>> {
    match cue_file {
        Some(Ok(t)) => Some(Ok(t@)),
        Some(Err(e)) => Some(Err(e@)),
        None => None,
    }
}

fn joined(head: &str, tail: &str) -> (r: String)
    ensures
        r@ == head@ + tail@,
{
    let mut r = String::from_str(head);
    r.append(tail);
    r
}

/// Check the inputs of `reels render`: `input` is the input video (and
/// whether it exists), `out_dir_error` the failure to create the output's
/// directory, `cue_file` the cue file's text or why it could not be read
/// (`None` when no cue file was named), and `duration_ms` the flag.
pub fn reel_inputs(
    input: &str,
    input_exists: bool,
    out_dir_error: Option<String>,
    cue_file: Option<Result<String, String>>,
    duration_ms: Option<u64>,
) -> (r: ReelInputs)
    ensures
        ({
            let early = early_errors(input@, input_exists, crate::config::opt_string(out_dir_error));
            let cues = parsed_cues(cue_file_view(cue_file));
            &&& r.duration_ms == reel_duration(duration_ms, cues)
            &&& match cues {
                Some(doc) => jview(r.cues) == doc,
                None => jview(r.cues) == Json::Object(Seq::empty()),
            }
            &&& match cue_file {
                Some(Err(e)) => strings(r.errors@) == early.push("cue file could not be read: "@ + e@),
                Some(Ok(t)) => match parsed_json(t@) {
                    Some(_) => strings(r.errors@) == early,
                    None => strings(r.errors@).len() == early.len() + 1
                        && strings(r.errors@).take(early.len() as int) == early
                        && starts_with(strings(r.errors@).last(), "cue file is not valid JSON: "@),
                },
                None => strings(r.errors@) == early,
            }
        }),
{
    let ghost early = early_errors(input@, input_exists, crate::config::opt_string(out_dir_error));
    let mut errors: Vec<String> = Vec::new();
    if !input_exists {
        errors.push(joined("input video does not exist: ", input));
    }
    match out_dir_error {
        Some(e) => errors.push(e),
        None => {},
    }
    assert(strings(errors@) =~= early);
    let cues: Option<JsonValue> = match cue_file {
        None => None,
        Some(Err(e)) => {
            errors.push(joined("cue file could not be read: ", e.as_str()));
            None
        },
        Some(Ok(text)) => match parse_json(text.as_str()) {
            Ok(doc) => Some(doc),
            Err(err) => {
                let message = joined("cue file is not valid JSON: ", err.as_str());
                errors.push(message);
                proof {
                    assert(strings(errors@).take(early.len() as int) =~= early);
                    assert(strings(errors@).last().subrange(0, "cue file is not valid JSON: "@.len() as int)
                        =~= "cue file is not valid JSON: "@);
                }
                None
            },
        },
    };
    let duration = match duration_ms {
        Some(d) => d,
        None => match &cues {
            Some(c) => inferred_reel_duration_ms(Some(c)),
            None => inferred_reel_duration_ms(None),
        },
    };
    let doc = match cues {
        Some(c) => c,
        None => {
            let empty = JsonValue::Object(Vec::new());
            assert(crate::json::fields_view(Seq::<(String, JsonValue)>::empty()) =~= Seq::empty());
            empty
        },
    };
    ReelInputs { errors, cues: doc, duration_ms: duration }
}

/// How a reel render ended: a warning when the engine left its props file
/// but no video, and success only when a video came out with no error.
pub fn reel_outcome(has_output: bool, has_props: bool, no_errors: bool) -> (r: (Vec<String>, bool))
    ensures
        strings(r.0@) == (if !has_output && has_props {
            seq!["render props were written for debugging"@]
        } else {
            Seq::empty()
        }),
        r.1 == (has_output && no_errors),
{
    let mut warnings: Vec<String> = Vec::new();
    if !has_output && has_props {
        warnings.push(String::from_str("render props were written for debugging"));
    }
    assert(strings(warnings@) =~= (if !has_output && has_props {
        seq!["render props were written for debugging"@]
    } else {
        Seq::empty()
    }));
    (warnings, has_output && no_errors)
}


// ---------------------------------------------------------------------------
// How long a reel runs

proof fn lemma_max_of(values: Seq<u64>, floor: u64)
    ensures
        max_of(values, floor) >= floor,
        forall|i: int| 0 <= i < values.len() ==> max_of(values, floor) >= #[trigger] values[i],
        max_of(values, floor) == floor || values.contains(max_of(values, floor)),
    decreases values.len(),
{
    if values.len() > 0 {
        let rest = values.drop_last();
        lemma_max_of(rest, floor);
        assert forall|i: int| 0 <= i < values.len() implies max_of(values, floor) >= #[trigger] values[i] by {
            if i < rest.len() {
                assert(values[i] == rest[i]);
            }
        }
        if max_of(values, floor) != floor {
            if values.last() > max_of(rest, floor) {
                assert(values[values.len() - 1] == values.last());
            } else {
                let k = choose|k: int| 0 <= k < rest.len() && rest[k] == max_of(rest, floor);
                assert(values[k] == rest[k]);
            }
        }
    }
}

proof fn lemma_end_times_len(items: Seq<Json>)
    ensures
        end_times(items).len() == items.len(),
    decreases items.len(),
{
    if items.len() > 0 {
        lemma_end_times_len(items.drop_last());
    }
}

proof fn lemma_end_times(items: Seq<Json>, j: int)
    requires
        0 <= j < items.len(),
    ensures
        end_times(items).len() == items.len(),
        end_times(items)[j] == match as_u64(get(items[j], "endMs"@)) {
            Some(n) => n,
            None => 0u64,
        },
    decreases items.len(),
{
    lemma_end_times_len(items);
    lemma_end_times_len(items.drop_last());
    if j < items.len() - 1 {
        lemma_end_times(items.drop_last(), j);
        assert(items.drop_last()[j] == items[j]);
    }
}

/// An inferred reel is long enough for every timing its cue document sets:
/// at least six seconds, at least the end (`endMs`) of every caption and
/// zoom, and at least the length (`ms`) of the title and outro cards. It is
/// no longer than it must be: it is six seconds or one of those timings.
#[verifier::spinoff_prover]
pub proof fn lemma_reel_covers_every_cue(cues: Json)
    ensures
        max_of(cue_times(cues), MIN_REEL_MS) >= 6000,
        get(cues, "captions"@) matches Some(Json::Array(items)) ==> forall|j: int|
            #![trigger items[j]]
            0 <= j < items.len() ==> (get(items[j], "endMs"@) matches Some(Json::PosInt(n)) ==> max_of(
                cue_times(cues),
                MIN_REEL_MS,
            ) >= n),
        get(cues, "zooms"@) matches Some(Json::Array(items)) ==> forall|j: int|
            #![trigger items[j]]
            0 <= j < items.len() ==> (get(items[j], "endMs"@) matches Some(Json::PosInt(n)) ==> max_of(
                cue_times(cues),
                MIN_REEL_MS,
            ) >= n),
        get_in(get(cues, "titleCard"@), "ms"@) matches Some(Json::PosInt(n)) ==> max_of(
            cue_times(cues),
            MIN_REEL_MS,
        ) >= n,
        get_in(get(cues, "outroCard"@), "ms"@) matches Some(Json::PosInt(n)) ==> max_of(
            cue_times(cues),
            MIN_REEL_MS,
        ) >= n,
        max_of(cue_times(cues), MIN_REEL_MS) == 6000 || cue_times(cues).contains(
            max_of(cue_times(cues), MIN_REEL_MS),
        ),
{
    let times = cue_times(cues);
    let r = max_of(times, MIN_REEL_MS);
    lemma_max_of(times, MIN_REEL_MS);
    let a = array_ends(cues, "captions"@);
    let z = array_ends(cues, "zooms"@);
    let t = card_times(cues, "titleCard"@);
    let o = card_times(cues, "outroCard"@);
    assert(times == a + z + t + o);
    if let Some(Json::Array(items)) = get(cues, "captions"@) {
        assert forall|j: int| #![trigger items[j]] 0 <= j < items.len() implies (get(items[j], "endMs"@) matches Some(
            Json::PosInt(n),
        ) ==> r >= n) by {
            lemma_end_times(items, j);
            assert(a == end_times(items));
            assert(times[j] == a[j]);
        }
    }
    if let Some(Json::Array(items)) = get(cues, "zooms"@) {
        assert forall|j: int| #![trigger items[j]] 0 <= j < items.len() implies (get(items[j], "endMs"@) matches Some(
            Json::PosInt(n),
        ) ==> r >= n) by {
            lemma_end_times(items, j);
            assert(z == end_times(items));
            assert(times[a.len() + j] == z[j]);
        }
    }
    if let Some(Json::PosInt(n)) = get_in(get(cues, "titleCard"@), "ms"@) {
        assert(t == seq![n]);
        assert(times[(a.len() + z.len()) as int] == n);
    }
    if let Some(Json::PosInt(n)) = get_in(get(cues, "outroCard"@), "ms"@) {
        assert(o == seq![n]);
        assert(times[(a.len() + z.len() + t.len()) as int] == n);
    }
}


// ---------------------------------------------------------------------------
// Which cues become captions

/// Every caption shows text for a positive length of time, and every cue item
/// that gives text, a start and a later end becomes a caption with exactly
/// those values (at the top when its position is "top").
pub proof fn lemma_captions_keep_the_timed_cues(items: Seq<Json>)
    ensures
        captions_of(items).len() <= items.len(),
        forall|k: int| #![trigger captions_of(items)[k]]
            0 <= k < captions_of(items).len() ==> captions_of(items)[k].2.len() > 0
                && captions_of(items)[k].0 < captions_of(items)[k].1,
        forall|j: int|
            #![trigger items[j]]
            0 <= j < items.len() ==> (get(items[j], "startMs"@) matches Some(Json::PosInt(s)) ==> (get(
                items[j],
                "endMs"@,
            ) matches Some(Json::PosInt(e)) ==> (get(items[j], "text"@) matches Some(Json::Str(t))
                ==> (t.len() > 0 && s < e ==> captions_of(items).contains(
                (s, e, t, get(items[j], "position"@) == Some(Json::Str("top"@))),
            ))))),
    decreases items.len(),
{
    if items.len() > 0 {
        let rest = items.drop_last();
        lemma_captions_keep_the_timed_cues(rest);
        let caps = captions_of(items);
        let prev = captions_of(rest);
        assert forall|k: int| #![trigger caps[k]] 0 <= k < caps.len() implies caps[k].2.len() > 0
            && caps[k].0 < caps[k].1 by {
            if k < prev.len() {
                assert(caps[k] == prev[k]);
            }
        }
        assert forall|j: int|
            #![trigger items[j]]
            0 <= j < items.len() implies (get(items[j], "startMs"@) matches Some(Json::PosInt(s)) ==> (get(
                items[j],
                "endMs"@,
            ) matches Some(Json::PosInt(e)) ==> (get(items[j], "text"@) matches Some(Json::Str(t))
                ==> (t.len() > 0 && s < e ==> caps.contains(
                (s, e, t, get(items[j], "position"@) == Some(Json::Str("top"@))),
            ))))) by {
            if let (Some(Json::PosInt(s)), Some(Json::PosInt(e)), Some(Json::Str(t))) = (
                get(items[j], "startMs"@),
                get(items[j], "endMs"@),
                get(items[j], "text"@),
            ) {
                if t.len() > 0 && s < e {
            let c = (s, e, t, get(items[j], "position"@) == Some(Json::Str("top"@)));
            if j < rest.len() {
                assert(rest[j] == items[j]);
                assert(prev.contains(c));
                let k = choose|k: int| 0 <= k < prev.len() && prev[k] == c;
                assert(caps[k] == prev[k]);
            } else {
                assert(items.last() == items[j]);
                assert(caption_of(items[j]) == Some(c));
                assert(caps[prev.len() as int] == c);
            }
                }
            }
        }
    }
}
} // verus!

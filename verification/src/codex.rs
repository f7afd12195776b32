//! `cloche codex-payload`: the Codex `turn/start` request that attaches a
//! capture to a thread.

use vstd::prelude::*;

use crate::contract::ImageDetail;
use crate::contract::ImageInfo;
use crate::json::field;
use crate::json::get;
use crate::json::get_in;
use crate::json::items_view;
use crate::json::jview;
use crate::json::lemma_fields_view_ext;
use crate::json::lemma_items_view;
use crate::json::Json;
use crate::json::JsonValue;
use crate::strings::owned;
use crate::strings::trim;
use crate::strings::trim_str;

verus! {

/// A text input item of a Codex turn.
pub open spec fn text_item(text: Seq<char>) -> Json {
    Json::Object(
        seq![
            ("text"@, Json::Str(text)),
            ("textElements"@, Json::Array(Seq::empty())),
            ("type"@, Json::Str("text"@)),
        ],
    )
}

/// The image input item of a Codex turn.
pub open spec fn image_item(path: Seq<char>, detail: ImageDetail) -> Json {
    Json::Object(
        seq![
            ("detail"@, Json::Str(detail.spec_label())),
            ("path"@, Json::Str(path)),
            ("type"@, Json::Str("localImage"@)),
        ],
    )
}

/// The inputs of the turn: the message, the capture's text when it has any
/// (trimmed, under a heading), then the image.
pub open spec fn turn_inputs(
    message: Seq<char>,
    app_text: Option<Seq<char>>,
    image_path: Seq<char>,
    detail: ImageDetail,
) -> Seq<Json> {
    seq![text_item(message)] + (match app_text {
        Some(t) => if trim(t).len() > 0 {
            seq![text_item("Available app text:\n"@ + trim(t))]
        } else {
            Seq::empty()
        },
        None => Seq::empty(),
    }) + seq![image_item(image_path, detail)]
}

/// The whole request.
pub open spec fn turn_request(
    thread_id: Seq<char>,
    message: Seq<char>,
    app_text: Option<Seq<char>>,
    image_path: Seq<char>,
    detail: ImageDetail,
) -> Json {
    Json::Object(
        seq![
            ("method"@, Json::Str("turn/start"@)),
            (
                "params"@,
                Json::Object(
                    seq![
                        ("input"@, Json::Array(turn_inputs(message, app_text, image_path, detail))),
                        ("threadId"@, Json::Str(thread_id)),
                    ],
                ),
            ),
        ],
    )
}

/// A Codex request starts a turn on the given thread. Its input is the
/// message as a text item, then (when the capture's text is not blank after
/// trimming) that text under the heading "Available app text:", then the
/// image as a `localImage` item with the requested detail.
pub proof fn lemma_turn_request_carries_the_capture(
    thread_id: Seq<char>,
    message: Seq<char>,
    app_text: Option<Seq<char>>,
    image_path: Seq<char>,
    detail: ImageDetail,
)
    ensures
        get(turn_request(thread_id, message, app_text, image_path, detail), "method"@) == Some(
            Json::Str("turn/start"@),
        ),
        get_in(get(turn_request(thread_id, message, app_text, image_path, detail), "params"@), "threadId"@)
            == Some(Json::Str(thread_id)),
        get_in(get(turn_request(thread_id, message, app_text, image_path, detail), "params"@), "input"@)
            matches Some(Json::Array(items)) && {
            let with_text = app_text matches Some(t) && trim(t).len() > 0;
            &&& items.len() == if with_text { 3int } else { 2int }
            &&& get(items[0], "type"@) == Some(Json::Str("text"@))
            &&& get(items[0], "text"@) == Some(Json::Str(message))
            &&& with_text ==> get(items[1], "type"@) == Some(Json::Str("text"@))
            &&& with_text ==> get(items[1], "text"@) == Some(
                Json::Str("Available app text:\n"@ + trim(app_text->0)),
            )
            &&& get(items.last(), "type"@) == Some(Json::Str("localImage"@))
            &&& get(items.last(), "path"@) == Some(Json::Str(image_path))
            &&& get(items.last(), "detail"@) == Some(Json::Str(detail.spec_label()))
        },
{
    reveal_strlit("method");
    reveal_strlit("params");
    reveal_strlit("input");
    reveal_strlit("threadId");
    reveal_strlit("text");
    reveal_strlit("textElements");
    reveal_strlit("type");
    reveal_strlit("detail");
    reveal_strlit("path");
    assert("method"@[0] != "params"@[0]);
    assert("input"@.len() != "threadId"@.len());
    assert("text"@[1] != "type"@[1]);
    assert("text"@.len() != "textElements"@.len());
    assert("type"@.len() != "textElements"@.len());
    assert("detail"@.len() != "path"@.len());
    assert("detail"@.len() != "type"@.len());
    assert("path"@[0] != "type"@[0]);
    reveal_with_fuel(field, 4);
    let items = turn_inputs(message, app_text, image_path, detail);
    let with_text = app_text matches Some(t) && trim(t).len() > 0;
    if with_text {
        assert(items == seq![
            text_item(message),
            text_item("Available app text:\n"@ + trim(app_text->0)),
            image_item(image_path, detail),
        ]);
    } else {
        assert(items == seq![text_item(message), image_item(image_path, detail)]);
    }
}

fn text_value(s: &str) -> (r: JsonValue)
    ensures
        jview(r) == Json::Str(s@),
{
    JsonValue::Str(owned(s))
}

fn object3(k0: &str, v0: JsonValue, k1: &str, v1: JsonValue, k2: &str, v2: JsonValue) -> (r: JsonValue)
    ensures
        jview(r) == Json::Object(seq![(k0@, jview(v0)), (k1@, jview(v1)), (k2@, jview(v2))]),
{
    let ghost want = seq![(k0@, jview(v0)), (k1@, jview(v1)), (k2@, jview(v2))];
    let mut fields: Vec<(String, JsonValue)> = Vec::new();
    fields.push((owned(k0), v0));
    fields.push((owned(k1), v1));
    fields.push((owned(k2), v2));
    proof {
        lemma_fields_view_ext(fields@, want);
    }
    JsonValue::Object(fields)
}

fn object2(k0: &str, v0: JsonValue, k1: &str, v1: JsonValue) -> (r: JsonValue)
    ensures
        jview(r) == Json::Object(seq![(k0@, jview(v0)), (k1@, jview(v1))]),
{
    let ghost want = seq![(k0@, jview(v0)), (k1@, jview(v1))];
    let mut fields: Vec<(String, JsonValue)> = Vec::new();
    fields.push((owned(k0), v0));
    fields.push((owned(k1), v1));
    proof {
        lemma_fields_view_ext(fields@, want);
    }
    JsonValue::Object(fields)
}

fn text_input(text: &str) -> (r: JsonValue)
    ensures
        jview(r) == text_item(text@),
{
    let empty: Vec<JsonValue> = Vec::new();
    proof {
        lemma_items_view(empty@);
        assert(items_view(empty@) =~= Seq::<Json>::empty());
    }
    object3("text", text_value(text), "textElements", JsonValue::Array(empty), "type", text_value("text"))
}

/// Build the `turn/start` request attaching the image at `image_path` (with
/// the capture's text, when there is any) to the thread.
pub fn turn_payload(
    thread_id: &str,
    message: &str,
    app_text: Option<&str>,
    image_path: &str,
    detail: ImageDetail,
) -> (r: JsonValue)
    ensures
        jview(r) == turn_request(
            thread_id@,
            message@,
            match app_text {
                Some(t) => Some(t@),
                None => None,
            },
            image_path@,
            detail,
        ),
{
    let ghost want = turn_inputs(
        message@,
        match app_text {
            Some(t) => Some(t@),
            None => None,
        },
        image_path@,
        detail,
    );
    let mut input: Vec<JsonValue> = Vec::new();
    input.push(text_input(message));
    if let Some(t) = app_text {
        let trimmed = trim_str(t);
        if trimmed.unicode_len() > 0 {
            let mut text = String::from_str("Available app text:\n");
            text.append(trimmed);
            input.push(text_input(text.as_str()));
        }
    }
    input.push(
        object3(
            "detail",
            text_value(detail.label()),
            "path",
            text_value(image_path),
            "type",
            text_value("localImage"),
        ),
    );
    proof {
        lemma_items_view(input@);
        assert(items_view(input@) =~= want);
    }
    let params = object2("input", JsonValue::Array(input), "threadId", text_value(thread_id));
    object2("method", text_value("turn/start"), "params", params)
}

/// The image a payload attaches: the raw frame, or the presentation card
/// when `card` is asked for. A capture that did not succeed, or that lacks
/// the image asked for, gets no payload.
pub fn payload_image(
    ok: bool,
    card: bool,
    image: Option<&ImageInfo>,
    presentation: Option<&ImageInfo>,
) -> (r: Result<String, String>)
    ensures
        !ok ==> (r matches Err(m) && m@
            == "capture metadata is not successful; refusing to emit a Codex image payload"@),
        ok && !card ==> match image {
            Some(i) => r matches Ok(p) && p@ == i.path@,
            None => r matches Err(m) && m@ == "capture metadata does not include an image"@,
        },
        ok && card ==> match presentation {
            Some(i) => r matches Ok(p) && p@ == i.path@,
            None => r matches Err(m) && m@ == "capture metadata does not include a presentation image"@,
        },
{
    if !ok {
        return Err(
            String::from_str(
                "capture metadata is not successful; refusing to emit a Codex image payload",
            ),
        );
    }
    if card {
        match presentation {
            Some(i) => Ok(i.path.clone()),
            None => Err(String::from_str("capture metadata does not include a presentation image")),
        }
    } else {
        match image {
            Some(i) => Ok(i.path.clone()),
            None => Err(String::from_str("capture metadata does not include an image")),
        }
    }
}

} // verus!

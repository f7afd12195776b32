//! Accessible-text capture: turning helper output into the contract's text
//! record and into concise warnings. Running the helpers and writing the
//! text file happen in the application.

use vstd::prelude::*;

use crate::contract::TextInfo;
use crate::polish::strings;
use crate::strings::chars_of;
use crate::strings::contains_str;
use crate::strings::has_sub;
use crate::strings::push_char;
use crate::strings::split_on;
use crate::strings::trim;
use crate::strings::trim_str;

verus! {

/// The last line of `lines` that is not blank, trimmed.
pub open spec fn last_text_line(lines: Seq<Seq<char>>) -> Option<Seq<char>>
    decreases lines.len(),
{
    if lines.len() == 0 {
        None
    } else if trim(lines.last()).len() > 0 {
        Some(trim(lines.last()))
    } else {
        last_text_line(lines.drop_last())
    }
}

/// The warning for a missing AT-SPI / GI installation.
pub const GI_MISSING: &'static str = "Text extraction skipped: AT-SPI / Python GI bindings are not installed.";

/// The concise warning for an AT-SPI helper's stderr.
pub open spec fn atspi_summary(stderr: Seq<char>) -> Option<Seq<char>> {
    let t = trim(stderr);
    if t.len() == 0 {
        None
    } else if has_sub(t, "Namespace Atspi not available"@) || has_sub(t, "No module named 'gi'"@)
        || has_sub(t, "Namespace Gdk"@) {
        Some(GI_MISSING@)
    } else {
        Some(
            "AT-SPI text extraction failed: "@ + match last_text_line(split_on(t, '\n')) {
                Some(line) => line,
                None => t,
            },
        )
    }
}

fn last_line_of(text: &str) -> (r: Option<String>)
    ensures
        r matches Some(line) ==> last_text_line(split_on(text@, '\n')) == Some(line@),
        r is None ==> last_text_line(split_on(text@, '\n')) is None,
{
    let chars = chars_of(text);
    let n = chars.len();
    let mut line = String::new();
    let mut last: Option<String> = None;
    let ghost mut done: Seq<Seq<char>> = Seq::empty();
    let mut i: usize = 0;
    proof {
        assert(text@.take(0) =~= Seq::<char>::empty());
        assert(split_on(text@.take(0), '\n') =~= done.push(line@));
    }
    while i < n
        invariant
            n == chars@.len(),
            chars@ == text@,
            i <= n,
            split_on(text@.take(i as int), '\n') == done.push(line@),
            last matches Some(l) ==> last_text_line(done) == Some(l@),
            last is None ==> last_text_line(done) is None,
        decreases n - i,
    {
        let c = chars[i];
        proof {
            assert(text@.take(i + 1).drop_last() =~= text@.take(i as int));
            assert(text@.take(i + 1).last() == c);
        }
        if c == '\n' {
            let t = trim_str(line.as_str());
            proof {
                assert(done.push(line@).drop_last() =~= done);
                assert(done.push(line@).last() == line@);
            }
            if t.unicode_len() > 0 {
                last = Some(String::from_str(t));
            }
            proof {
                done = done.push(line@);
            }
            line = String::new();
            proof {
                assert(split_on(text@.take(i + 1), '\n') =~= done.push(line@));
            }
        } else {
            push_char(&mut line, c);
            proof {
                assert(split_on(text@.take(i + 1), '\n') =~= done.push(line@));
            }
        }
        i = i + 1;
    }
    proof {
        assert(text@.take(n as int) =~= text@);
        assert(done.push(line@).drop_last() =~= done);
        assert(done.push(line@).last() == line@);
    }
    let t = trim_str(line.as_str());
    if t.unicode_len() > 0 {
        Some(String::from_str(t))
    } else {
        last
    }
}

/// Turn an AT-SPI helper's stderr into one concise warning line. Returns
/// `None` when stderr is blank (treated as "no text exposed"). A missing GI
/// installation gets a plain message; anything else collapses to the last
/// meaningful line instead of a raw multi-line traceback.
pub fn summarize_atspi_error(stderr: &str) -> (r: Option<String>)
    ensures
        r matches Some(msg) ==> atspi_summary(stderr@) == Some(msg@),
        r is None ==> atspi_summary(stderr@) is None,
{
    let trimmed = trim_str(stderr);
    if trimmed.unicode_len() == 0 {
        return None;
    }
    if contains_str(trimmed, "Namespace Atspi not available") || contains_str(
        trimmed,
        "No module named 'gi'",
    ) || contains_str(trimmed, "Namespace Gdk") {
        return Some(String::from_str(GI_MISSING));
    }
    let mut msg = String::from_str("AT-SPI text extraction failed: ");
    match last_line_of(trimmed) {
        Some(line) => msg.append(line.as_str()),
        None => msg.append(trimmed),
    }
    Some(msg)
}

/// The text worth storing: `raw` trimmed, or nothing (with `empty_warning`
/// recorded) when it is blank.
pub fn text_to_store(raw: &str, empty_warning: &str, warnings: &mut Vec<String>) -> (r: Option<
    String,
>)
    ensures
        trim(raw@).len() == 0 ==> r is None && strings(final(warnings)@) == strings(
            old(warnings)@,
        ).push(empty_warning@),
        trim(raw@).len() > 0 ==> (r matches Some(text) && text@ == trim(raw@)) && final(warnings)@
            == old(warnings)@,
{
    let text = trim_str(raw);
    if text.unicode_len() == 0 {
        let ghost before = warnings@;
        warnings.push(String::from_str(empty_warning));
        assert(strings(warnings@) =~= strings(before).push(empty_warning@));
        return None;
    }
    Some(String::from_str(text))
}

/// The text record after the write of `text` to its file: the written path
/// on success, or the failure recorded as a warning and no text.
pub fn stored_text_info(
    text: &str,
    written: Result<String, String>,
    source: &str,
    warnings: &mut Vec<String>,
) -> (info: TextInfo)
    ensures
        written matches Ok(path) ==> info.available && info.path == Some(path) && info.bytes
            == vstd::utf8::encode_utf8(text@).len() && (info.source matches Some(s) && s@ == source@)
            && final(warnings)@ == old(warnings)@,
        written matches Err(err) ==> !info.available && info.path is None && info.bytes == 0
            && info.source is None && strings(final(warnings)@) == strings(old(warnings)@).push(
            "Captured text could not be written: "@ + err@,
        ),
{
    match written {
        Ok(path) => TextInfo {
            available: true,
            path: Some(path),
            bytes: text.as_bytes().len() as u64,
            source: Some(String::from_str(source)),
        },
        Err(err) => {
            let ghost before = warnings@;
            let mut msg = String::from_str("Captured text could not be written: ");
            msg.append(err.as_str());
            warnings.push(msg);
            assert(strings(warnings@) =~= strings(before).push(
                "Captured text could not be written: "@ + err@,
            ));
            TextInfo::default()
        },
    }
}

} // verus!

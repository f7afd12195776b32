//! File paths as text: the few `std::path` operations the library names,
//! each behind a wrapper whose result is named rather than restated.

use vstd::prelude::*;

verus! {

/// What `Path::file_stem` gives for a path: its final component without the
/// last extension, or nothing for a path with no file name.
pub uninterp spec fn file_stem_of(path: Seq<char>) -> Option<Seq<char>>;

/// What `Path::extension` gives for a path: the text after the last dot of
/// its final component, or nothing.
pub uninterp spec fn extension_of(path: Seq<char>) -> Option<Seq<char>>;

/// What `Path::with_file_name` gives: the path with its final component
/// replaced by `name` (or `name` pushed when there is none).
pub uninterp spec fn with_file_name_of(path: Seq<char>, name: Seq<char>) -> Seq<char>;

/// What `Path::with_extension` gives: the path with its extension replaced by
/// `ext` (or added when there is none).
pub uninterp spec fn with_extension_of(path: Seq<char>, ext: Seq<char>) -> Seq<char>;

/// `Path::new(path).file_stem()`, as text. A stem taken from a `&str` path is
/// itself valid text, so the conversion loses nothing.
#[verifier::external_body]
pub(crate) fn path_file_stem(path: &str) -> (r: Option<String>)
    ensures
        match r {
            Some(stem) => file_stem_of(path@) == Some(stem@),
            None => file_stem_of(path@) is None,
        },
{
    std::path::Path::new(path).file_stem().map(|stem| stem.to_string_lossy().into_owned())
}

/// `Path::new(path).extension()`, as text.
#[verifier::external_body]
pub(crate) fn path_extension(path: &str) -> (r: Option<String>)
    ensures
        match r {
            Some(ext) => extension_of(path@) == Some(ext@),
            None => extension_of(path@) is None,
        },
{
    std::path::Path::new(path).extension().map(|ext| ext.to_string_lossy().into_owned())
}

/// `Path::new(path).with_file_name(name)`, as text.
#[verifier::external_body]
pub(crate) fn path_with_file_name(path: &str, name: &str) -> (r: String)
    ensures
        r@ == with_file_name_of(path@, name@),
{
    std::path::Path::new(path).with_file_name(name).to_string_lossy().into_owned()
}

/// `ext` holds neither `/` nor `\`, the characters `std::path` treats as
/// separators (`/` everywhere, `\` too on Windows).
pub open spec fn separator_free(ext: Seq<char>) -> bool {
    forall|i: int| 0 <= i < ext.len() ==> ext[i] != '/' && ext[i] != '\\'
}

/// Whether `ext` holds neither `/` nor `\`.
pub fn is_separator_free(ext: &str) -> (r: bool)
    ensures
        r == separator_free(ext@),
{
    let chars = crate::strings::chars_of(ext);
    let mut i: usize = 0;
    while i < chars.len()
        invariant
            chars@ == ext@,
            i <= chars@.len(),
            forall|j: int| 0 <= j < i ==> chars@[j] != '/' && chars@[j] != '\\',
        decreases chars@.len() - i,
    {
        if chars[i] == '/' || chars[i] == '\\' {
            return false;
        }
        i = i + 1;
    }
    true
}

/// `Path::new(path).with_extension(ext)`, as text. `with_extension` panics
/// when the extension holds a path separator, so `ext` must hold neither `/`
/// nor `\`.
#[verifier::external_body]
pub(crate) fn path_with_extension(path: &str, ext: &str) -> (r: String)
    requires
        separator_free(ext@),
    ensures
        r@ == with_extension_of(path@, ext@),
{
    std::path::Path::new(path).with_extension(ext).to_string_lossy().into_owned()
}

} // verus!

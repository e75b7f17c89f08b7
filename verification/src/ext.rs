//! Trusted bindings to the outside world. Every item here is believed, not
//! verified: each doc comment names the outside function relied on.

use vstd::prelude::*;

verus! {

/// Relies on `str::chars` collected into a vector: the characters of the
/// string, in order.
#[verifier::external_body]
pub(crate) fn str_chars(s: &str) -> (r: Vec<char>)
    ensures
        r@ == s@,
{
    s.chars().collect()
}

/// Relies on `Iterator::collect` for `String` from characters: the string
/// holding exactly the given characters, in order.
#[verifier::external_body]
pub(crate) fn chars_string(v: &Vec<char>) -> (r: String)
    ensures
        r@ == v@,
{
    v.iter().collect()
}

/// Relies on `dirs::data_dir`: the platform data directory, if the platform
/// defines one. The answer depends on the machine and the environment, so
/// nothing is promised of it.
#[verifier::external_body]
pub(crate) fn data_dir_string() -> (r: Option<String>)
{
    dirs::data_dir().map(|p| p.to_string_lossy().to_string())
}

/// Relies on `std::path::Path::exists`. The answer depends on the disk, so
/// nothing is promised of it.
#[verifier::external_body]
pub(crate) fn path_exists(p: &String) -> (r: bool)
{
    std::path::Path::new(p).exists()
}

/// Relies on `chrono::Utc::now` and `DateTime::to_rfc3339`. The answer
/// depends on the clock, so nothing is promised of it.
#[verifier::external_body]
pub(crate) fn now_rfc3339() -> (r: String)
{
    chrono::Utc::now().to_rfc3339()
}

/// Relies on `str`'s `PartialEq` implementation: string slices are equal
/// exactly when their characters are.
#[verifier::external_body]
pub(crate) fn str_eq(a: &str, b: &str) -> (r: bool)
    ensures
        r == (a@ == b@),
{
    a == b
}

/// What `urlencoding::encode` returns for a given string: every byte except
/// ASCII alphanumerics and `-`, `_`, `.`, `~` percent-encoded. The result
/// depends on the input characters alone.
pub uninterp spec fn url_encoded(s: Seq<char>) -> Seq<char>;

/// Relies on `urlencoding::encode`: percent-encodes every byte except ASCII
/// alphanumerics and `-`, `_`, `.`, `~`.
#[verifier::external_body]
pub(crate) fn url_encode(s: &String) -> (r: String)
    ensures
        r@ == url_encoded(s@),
{
    urlencoding::encode(s.as_str()).into_owned()
}

/// What `mime_guess::from_path` returns for a given path: the first MIME
/// type registered for the path's extension, if any. The lookup is a static
/// table, so the result depends on the path alone.
pub uninterp spec fn mime_guess_of(path: Seq<char>) -> Option<Seq<char>>;

/// Relies on `mime_guess::from_path`: looks the path's extension up in a
/// static table of MIME types.
#[verifier::external_body]
pub(crate) fn guess_mime(path: &String) -> (r: Option<String>)
    ensures
        match r {
            Some(m) => mime_guess_of(path@) == Some(m@),
            None => mime_guess_of(path@) is None,
        },
{
    mime_guess::from_path(std::path::Path::new(path.as_str()))
        .first()
        .map(|m| m.to_string())
}

} // verus!

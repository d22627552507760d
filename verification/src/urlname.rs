//! Source filename resolution: the basename of a source is the final
//! segment of its URL's path.

use vstd::prelude::*;
use crate::errors::BuildError;
use crate::strutil;
use crate::strutil::final_segment;

verus! {

/// The path component of a URL as the `url` crate parses it, or `None`
/// where the text does not parse as a URL.
pub uninterp spec fn url_path_of(url: Seq<char>) -> Option<Seq<char>>;

/// Relies on `url::Url::parse` and `url::Url::path`: parsing depends on the
/// URL text alone, and `path` returns the URL's path component.
#[verifier::external_body]
fn parse_url_path(url: &str) -> (r: Option<String>)
    ensures
        r is Some <==> url_path_of(url@) is Some,
        r matches Some(p) ==> url_path_of(url@) == Some(p@),
{
    match url::Url::parse(url) {
        Ok(u) => Some(u.path().to_string()),
        Err(_) => None,
    }
}

/// The basename a URL yields: the final nonempty segment of its parsed
/// path, or `None` where the URL does not parse or the segment is empty.
pub open spec fn spec_url_basename(url: Seq<char>) -> Option<Seq<char>> {
    match url_path_of(url) {
        Some(p) => final_segment(p),
        None => None,
    }
}

/// Derives the download filename from a URL's final path segment; a URL
/// that does not parse or whose path has no final segment is a `NameError`.
pub fn get_url_basename(url: &str) -> (r: Result<String, BuildError>)
    ensures
        r matches Ok(name) ==> spec_url_basename(url@) == Some(name@) && name@.len() > 0,
        r is Err ==> spec_url_basename(url@) is None,
        r matches Err(e) ==> e matches BuildError::NameError { url: u } && u@ == url@,
{
    match parse_url_path(url) {
        Some(path) => {
            match strutil::final_segment_of(path.as_str()) {
                Some(name) => {
                    proof {
                        let seg = strutil::after_last_slash(path@);
                        assert(final_segment(path@) == Some(seg));
                        assert(name@ == seg);
                        assert(seg.len() > 0);
                    }
                    Ok(name)
                },
                None => Err(BuildError::NameError { url: String::from_str(url) }),
            }
        },
        None => Err(BuildError::NameError { url: String::from_str(url) }),
    }
}

/// A download is performed only where no file of the target name exists or
/// an overwrite was requested; an existing file is otherwise kept as is.
pub fn should_download(present: bool, overwrite: bool) -> (r: bool)
    ensures
        r == (!present || overwrite),
{
    !present || overwrite
}

} // verus!

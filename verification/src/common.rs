//! Helpers shared by the LLM backends: normalising an OpenAI-compatible
//! endpoint URL into the base-URL form the genai client expects.

use vstd::prelude::*;
use crate::text::{chars_of, push_str, str_eq, string_of};
use crate::utf8_len::utf8_len;

verus! {

#[verifier::external_type_specification]
#[verifier::external_body]
pub struct ExUrl(url::Url);

/// Whether `url::Url::parse` accepts `s` as an absolute URL.
pub uninterp spec fn url_parses(s: Seq<char>) -> bool;

/// The message (`Display` of `url::ParseError`) of parsing `s` when it is
/// no absolute URL.
pub uninterp spec fn url_parse_error_text(s: Seq<char>) -> Seq<char>;

/// The serialization a `url::Url` holds (`Url::as_str`).
pub uninterp spec fn url_text(u: url::Url) -> Seq<char>;

/// The serialization of the URL `url::Url::parse` reads from `s`.
pub uninterp spec fn url_parse_text(s: Seq<char>) -> Seq<char>;

/// The path (`Url::path`) of the URL serialized as `t`.
pub uninterp spec fn url_path_text(t: Seq<char>) -> Seq<char>;

/// The serialization of the URL serialized as `t` after `Url::set_path(p)`.
pub uninterp spec fn url_set_path_text(t: Seq<char>, p: Seq<char>) -> Seq<char>;

/// `url::Url::parse`: fails exactly on the strings that are no absolute URL,
/// with the parse error's message; the URL it reads is the serialization
/// `url_parse_text(s)`.
#[verifier::external_body]
fn parse_url(s: &str) -> (r: Result<url::Url, String>)
    ensures
        r is Ok <==> url_parses(s@),
        r matches Ok(u) ==> url_text(u) == url_parse_text(s@),
        r matches Err(m) ==> m@ == url_parse_error_text(s@),
{
    match url::Url::parse(s) {
        Ok(u) => Ok(u),
        Err(e) => Err(e.to_string()),
    }
}

/// `url::Url::path`: the path of the URL's serialization.
#[verifier::external_body]
fn url_path(u: &url::Url) -> (r: String)
    ensures
        r@ == url_path_text(url_text(*u)),
{
    u.path().to_string()
}

/// `url::Url::set_path`: the URL becomes its serialization with `path` set.
/// It converts serialization offsets to `u32` and unwraps them, so the
/// serialization must stay within `u32::MAX` bytes: the new path takes at
/// most three bytes per byte of `path` (percent-encoding) plus a leading
/// `/` or `/.` it may add, and the rest of the serialization is kept.
#[verifier::external_body]
fn url_set_path(u: &mut url::Url, path: &str)
    requires
        utf8_len(url_text(*old(u))) + 3 * utf8_len(path@) + 3 <= u32::MAX,
    ensures
        url_text(*final(u)) == url_set_path_text(url_text(*old(u)), path@),
{
    u.set_path(path)
}

/// The serialization of a URL (`Display` for `url::Url` writes `as_str`).
#[verifier::external_body]
fn url_to_string(u: &url::Url) -> (r: String)
    ensures
        r@ == url_text(*u),
{
    u.to_string()
}

/// An endpoint URL that could not be parsed.
#[derive(Debug)]
pub struct EndpointUrlError {
    pub message: String,
}

/// The path a base URL is given: a bare host gets `/v1/`, any other path
/// gets a trailing slash; `None` when the path already ends with one.
pub open spec fn normalized_path(path: Seq<char>) -> Option<Seq<char>> {
    if path.len() == 0 || path == seq!['/'] {
        Some(seq!['/', 'v', '1', '/'])
    } else if path.last() != '/' {
        Some(path.push('/'))
    } else {
        None
    }
}

/// The path to set on an endpoint URL whose current path is `path`, if it
/// must change.
pub fn normalized_endpoint_path(path: &str) -> (r: Option<String>)
    ensures
        match r {
            Some(p) => normalized_path(path@) == Some(p@),
            None => normalized_path(path@) is None,
        },
{
    let chars = chars_of(path);
    proof {
        reveal_strlit("/v1/");
        reveal_strlit("/");
        assert("/"@ =~= seq!['/']);
    }
    if chars.len() == 0 || str_eq(path, "/") {
        let p = string_of("/v1/");
        assert(p@ =~= seq!['/', 'v', '1', '/']);
        Some(p)
    } else if chars[chars.len() - 1] != '/' {
        assert(path@.last() == chars@[chars@.len() - 1]);
        let mut p = string_of(path);
        push_str(&mut p, "/");
        assert(p@ =~= path@.push('/'));
        Some(p)
    } else {
        None
    }
}

/// The normalised endpoint of `url`: its parsed serialization, with the
/// path replaced by the normalised one where that changes it.
pub open spec fn normalized_url(url: Seq<char>) -> Seq<char> {
    let t = url_parse_text(url);
    match normalized_path(url_path_text(t)) {
        Some(p) => url_set_path_text(t, p),
        None => t,
    }
}

/// The path change of a parsed URL fits the `url` crate's `u32` offsets.
pub open spec fn path_change_fits(url: Seq<char>) -> bool {
    let t = url_parse_text(url);
    match normalized_path(url_path_text(t)) {
        Some(p) => utf8_len(t) + 3 * utf8_len(p) + 3 <= u32::MAX,
        None => true,
    }
}

/// Normalise an OpenAI-compatible endpoint URL into a base URL: a bare host
/// gets `/v1/`, any other path a trailing slash. Fails when the URL does not
/// parse, or when it is too long for the `url` crate to set its path.
pub fn normalize_genai_endpoint_url(url: &str) -> (r: Result<String, EndpointUrlError>)
    ensures
        r is Ok <==> url_parses(url@) && path_change_fits(url@),
        r matches Ok(s) ==> s@ == normalized_url(url@),
        url_parses(url@) && !path_change_fits(url@) ==> (r matches Err(e) && e.message@
            == "endpoint URL is too long"@),
        !url_parses(url@) ==> (r matches Err(e) && e.message@ == url_parse_error_text(url@)),
{
    let mut u = match parse_url(url) {
        Ok(u) => u,
        Err(e) => {
            return Err(EndpointUrlError { message: e });
        },
    };
    let path = url_path(&u);
    match normalized_endpoint_path(path.as_str()) {
        Some(p) => {
            let current = url_to_string(&u);
            let current_len: usize = current.as_str().as_bytes().len();
            let path_len: usize = p.as_str().as_bytes().len();
            assert(utf8_len(current@) == current_len);
            assert(utf8_len(p@) == path_len);
            if current_len as u128 + 3 * (path_len as u128) + 3 > 0xFFFF_FFFF {
                return Err(EndpointUrlError { message: string_of("endpoint URL is too long") });
            }
            url_set_path(&mut u, p.as_str());
        },
        None => {},
    }
    Ok(url_to_string(&u))
}

/// The endpoint a genai client is pointed at: none when no (or an empty)
/// URL is configured, else the normalised URL. Fails exactly when a
/// configured URL does not parse, or is too long to normalise.
pub fn resolve_endpoint(endpoint_url: Option<&str>) -> (r: Result<Option<String>, EndpointUrlError>)
    ensures
        match endpoint_url {
            None => r matches Ok(None),
            Some(u) => if u@.len() == 0 {
                r matches Ok(None)
            } else {
                (r is Ok <==> url_parses(u@) && path_change_fits(u@)) && (r matches Ok(o) ==> o matches Some(n) && n@
                    == normalized_url(u@)) && (!url_parses(u@) ==> (r matches Err(e) && e.message@
                    == url_parse_error_text(u@))) && (url_parses(u@) && !path_change_fits(u@) ==> (r matches Err(e)
                    && e.message@ == "endpoint URL is too long"@))
            },
        },
{
    match endpoint_url {
        None => Ok(None),
        Some(u) => {
            if u.is_empty() {
                Ok(None)
            } else {
                match normalize_genai_endpoint_url(u) {
                    Ok(n) => Ok(Some(n)),
                    Err(e) => Err(e),
                }
            }
        },
    }
}

} // verus!

use vstd::prelude::*;

verus! {

#[verifier::external_type_specification]
#[verifier::external_body]
pub struct ExParseError(url::ParseError);

/// What the URL `s` holds before its path and what its path is, if `s` is a
/// URL at all.
pub uninterp spec fn url_split(s: Seq<char>) -> Option<(Seq<char>, Seq<char>)>;

/// The URL that `rel` names relative to the URL `base`, if both are well formed.
pub uninterp spec fn url_joined(base: Seq<char>, rel: Seq<char>) -> Option<Seq<char>>;

/// `s` with its `%XX` escapes undone, if the bytes so named are UTF-8.
pub uninterp spec fn percent_decoded(s: Seq<char>) -> Option<Seq<char>>;

/// Relies on `url::Url::parse` to read `s`, and on the parsed URL's
/// serialization before its path (`url::Position::BeforePath`) and its path
/// (`url::Url::path`): both depend on `s` alone.
#[verifier::external_body]
pub(crate) fn split_url(s: &str) -> (r: Result<(String, String), url::ParseError>)
    ensures
        match r {
            Ok((base, path)) => url_split(s@) == Some((base@, path@)),
            Err(_) => url_split(s@) is None,
        },
{
    let u = url::Url::parse(s)?;
    Ok((u[..url::Position::BeforePath].to_string(), u.path().to_string()))
}

/// Relies on `url::Url::parse` to read `base` and on `url::Url::join` to
/// resolve `rel` against it (standard URL-join semantics); the serialized
/// result depends on the two arguments alone.
#[verifier::external_body]
pub(crate) fn join_url(base: &str, rel: &str) -> (r: Result<String, url::ParseError>)
    ensures
        match r {
            Ok(u) => url_joined(base@, rel@) == Some(u@),
            Err(_) => url_joined(base@, rel@) is None,
        },
{
    Ok(url::Url::parse(base)?.join(rel)?.to_string())
}

/// Relies on `urlencoding::decode`: it undoes `%XX` escapes and fails only
/// where the decoded bytes are not UTF-8.
#[verifier::external_body]
pub(crate) fn percent_decode(s: &str) -> (r: Option<String>)
    ensures
        match r {
            Some(d) => percent_decoded(s@) == Some(d@),
            None => percent_decoded(s@) is None,
        },
{
    match urlencoding::decode(s) {
        Ok(d) => Some(d.into_owned()),
        Err(_) => None,
    }
}

} // verus!

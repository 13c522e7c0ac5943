//! The calls into outside crates that the library relies on, with the
//! contracts it assumes of them.
use vstd::prelude::*;

verus! {

#[verifier::external_type_specification]
#[verifier::external_body]
pub struct ExVersion(semver::Version);

/// Relies on the derived `Clone` of semver's `Version`.
pub assume_specification[ <semver::Version as Clone>::clone ](v: &semver::Version) -> semver::Version;

/// Whether semver accepts `s` as a version.
pub uninterp spec fn semver_accepts(s: Seq<char>) -> bool;

/// Relies on semver::Version::parse: succeeds exactly on the texts it
/// accepts, whatever they are; the error is turned into its message.
#[verifier::external_body]
pub(crate) fn parse_version(s: &str) -> (r: Result<semver::Version, String>)
    ensures
        r is Ok <==> semver_accepts(s@),
{
    match semver::Version::parse(s) {
        Ok(v) => Ok(v),
        Err(e) => Err(e.to_string()),
    }
}

/// The serialization of the URL that url's parser reads from `s`, or `None`
/// when it rejects `s`.
pub uninterp spec fn parsed_url(s: Seq<char>) -> Option<Seq<char>>;

/// Relies on url::Url::parse, and on Url::as_str for the serialization of
/// an accepted URL; the error is turned into its message.
#[verifier::external_body]
pub(crate) fn parse_url(s: &str) -> (r: Result<String, String>)
    ensures
        match r {
            Ok(u) => parsed_url(s@) == Some(u@),
            Err(_) => parsed_url(s@) is None,
        },
{
    match url::Url::parse(s) {
        Ok(u) => Ok(u.as_str().to_string()),
        Err(e) => Err(e.to_string()),
    }
}

} // verus!

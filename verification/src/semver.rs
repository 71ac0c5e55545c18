//! The boundary to `deno_semver`: the parsed version-requirement type and the
//! npm requirement grammar. The requirement value itself is opaque here; the
//! grammar's outcome on a given text is only given a name.

use vstd::prelude::*;
use deno_semver::VersionReq;
use deno_semver::npm::NpmVersionReqParseError;

verus! {

#[verifier::external_type_specification]
#[verifier::external_body]
pub struct ExVersionReq(VersionReq);

#[verifier::external_type_specification]
#[verifier::external_body]
pub struct ExNpmVersionReqParseError(NpmVersionReqParseError);

/// Relies on deno_semver's derived `Clone` for `VersionReq`: a field-wise
/// copy, equal to the original.
pub assume_specification[ <deno_semver::VersionReq as Clone>::clone ](
    v: &deno_semver::VersionReq,
) -> (r: deno_semver::VersionReq)
    ensures
        r == *v,
;

/// Relies on deno_semver's derived `Clone` for `NpmVersionReqParseError`: a
/// field-wise copy, equal to the original.
pub assume_specification[ <deno_semver::npm::NpmVersionReqParseError as Clone>::clone ](
    e: &deno_semver::npm::NpmVersionReqParseError,
) -> (r: deno_semver::npm::NpmVersionReqParseError)
    ensures
        r == *e,
;

/// What the npm version-requirement grammar makes of a text: the parsed
/// requirement, or the parse failure it reports.
pub uninterp spec fn npm_version_req_of(s: Seq<char>) -> Result<
    VersionReq,
    NpmVersionReqParseError,
>;

/// Relies on deno_semver's `VersionReq::parse_from_npm`: the outcome depends
/// on the argument text alone.
#[verifier::external_body]
pub(crate) fn parse_npm_version_req(text: &str) -> (r: Result<
    VersionReq,
    NpmVersionReqParseError,
>)
    ensures
        r == npm_version_req_of(text@),
{
    VersionReq::parse_from_npm(text)
}

} // verus!

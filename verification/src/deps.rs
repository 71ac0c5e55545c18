//! Classification of raw dependency strings into semantic requirement values:
//! workspace constraints, npm-aliased or plain version requirements, and the
//! URL-like schemes that are refused.

use vstd::prelude::*;
use deno_semver::VersionReq;
use deno_semver::npm::NpmVersionReqParseError;
use crate::semver::npm_version_req_of;
use crate::semver::parse_npm_version_req;
use crate::strs::seq_starts_with;
use crate::strs::str_starts_with;
use crate::strs::str_strip_prefix;
use crate::strs::str_eq;
use crate::strs::str_find;
use crate::strs::first_index_of;
use crate::strs::last_index_of;
use crate::strs::str_rfind;
use vstd::string::StrSliceExecFns;

verus! {

/// Why one dependency entry could not be classified; scoped to that entry.
#[derive(Debug, Clone, PartialEq, Eq)]
pub enum PackageJsonDepValueParseError {
    /// The version-requirement text did not parse; carries the grammar's error.
    VersionReq(NpmVersionReqParseError),
    /// A URL-like scheme this resolver does not support; carries the scheme
    /// token found before the colon.
    Unsupported { scheme: String },
}

/// The three forms a `workspace:` constraint takes.
#[derive(Debug, Clone, PartialEq, Eq, Hash)]
pub enum PackageJsonDepWorkspaceReq {
    /// `workspace:~`
    Tilde,
    /// `workspace:^`
    Caret,
    /// `workspace:` followed by an explicit requirement text.
    VersionReq(VersionReq),
}

/// A dependency's effective package name with its parsed version constraint.
#[derive(Debug, Clone, PartialEq, Eq, Hash)]
pub struct PackageReq {
    pub name: String,
    pub version_req: VersionReq,
}

/// One successfully classified dependency entry.
#[derive(Debug, Clone, PartialEq, Eq, Hash)]
pub enum PackageJsonDepValue {
    Req(PackageReq),
    Workspace(PackageJsonDepWorkspaceReq),
}

/// The effective package name and raw requirement text of an entry, honouring
/// `npm:` aliasing: the alias maps to a package named after the last `@` split
/// of the aliased text, a scoped name without a version defaulting to `*`.
pub open spec fn dep_name_and_version(key: Seq<char>, value: Seq<char>) -> (Seq<char>, Seq<char>) {
    if seq_starts_with(value, "npm:"@) {
        let rest = value.skip("npm:"@.len() as int);
        match last_index_of(rest, '@') {
            Some(i) => if i == 0 {
                (rest, "*"@)
            } else {
                (rest.subrange(0, i), rest.skip(i + 1))
            },
            None => (rest, "*"@),
        }
    } else {
        (key, value)
    }
}

/// The text before the first colon, the scheme token of a URL-like value.
pub open spec fn scheme_of(value: Seq<char>) -> Seq<char> {
    match first_index_of(value, ':') {
        Some(i) => value.subrange(0, i),
        None => value,
    }
}

/// The value names a URL-like scheme that dependency resolution refuses.
pub open spec fn has_unsupported_scheme(value: Seq<char>) -> bool {
    seq_starts_with(value, "file:"@) || seq_starts_with(value, "git:"@) || seq_starts_with(
        value,
        "http:"@,
    ) || seq_starts_with(value, "https:"@)
}

/// How one raw `(alias, value)` dependency entry classifies. `workspace:`
/// constraints come first, then the refused URL-like schemes, then npm
/// aliasing and the plain version-requirement reading.
pub open spec fn dep_result_matches(
    key: Seq<char>,
    value: Seq<char>,
    r: Result<PackageJsonDepValue, PackageJsonDepValueParseError>,
) -> bool {
    if seq_starts_with(value, "workspace:"@) {
        let rest = value.skip("workspace:"@.len() as int);
        if rest == "~"@ {
            r == Ok::<PackageJsonDepValue, PackageJsonDepValueParseError>(
                PackageJsonDepValue::Workspace(PackageJsonDepWorkspaceReq::Tilde),
            )
        } else if rest == "^"@ {
            r == Ok::<PackageJsonDepValue, PackageJsonDepValueParseError>(
                PackageJsonDepValue::Workspace(PackageJsonDepWorkspaceReq::Caret),
            )
        } else {
            match npm_version_req_of(rest) {
                Ok(vr) => r == Ok::<PackageJsonDepValue, PackageJsonDepValueParseError>(
                    PackageJsonDepValue::Workspace(PackageJsonDepWorkspaceReq::VersionReq(vr)),
                ),
                Err(e) => r == Err::<PackageJsonDepValue, PackageJsonDepValueParseError>(
                    PackageJsonDepValueParseError::VersionReq(e),
                ),
            }
        }
    } else if has_unsupported_scheme(value) {
        r matches Err(PackageJsonDepValueParseError::Unsupported { scheme }) && scheme@
            == scheme_of(value)
    } else {
        let nv = dep_name_and_version(key, value);
        match npm_version_req_of(nv.1) {
            Ok(vr) => r matches Ok(PackageJsonDepValue::Req(pr)) && pr.name@ == nv.0
                && pr.version_req == vr,
            Err(e) => r == Err::<PackageJsonDepValue, PackageJsonDepValueParseError>(
                PackageJsonDepValueParseError::VersionReq(e),
            ),
        }
    }
}

/// The effective name and raw requirement text of an entry (`npm:` aliasing
/// applied; otherwise the alias itself and the value unchanged).
fn dep_entry_name_and_raw_version<'a>(key: &'a str, value: &'a str) -> (r: (&'a str, &'a str))
    ensures
        (r.0@, r.1@) == dep_name_and_version(key@, value@),
{
    match str_strip_prefix(value, "npm:") {
        Some(rest) => {
            match str_rfind(rest, '@') {
                Some(i) => {
                    if i == 0 {
                        let star = "*";
                        proof {
                            reveal_strlit("*");
                        }
                        (rest, star)
                    } else {
                        let l = rest.unicode_len();
                        let name = rest.substring_char(0, i);
                        let version = rest.substring_char(i + 1, l);
                        assert(version@ =~= rest@.skip(i + 1));
                        (name, version)
                    }
                },
                None => {
                    let star = "*";
                    proof {
                        reveal_strlit("*");
                    }
                    (rest, star)
                },
            }
        },
        None => (key, value),
    }
}

/// Classifies one raw dependency entry, as `dep_result_matches` states.
pub fn parse_dep_entry(key: &str, value: &str) -> (r: Result<
    PackageJsonDepValue,
    PackageJsonDepValueParseError,
>)
    ensures
        dep_result_matches(key@, value@, r),
{
    match str_strip_prefix(value, "workspace:") {
        Some(workspace_key) => {
            if str_eq(workspace_key, "~") {
                return Ok(PackageJsonDepValue::Workspace(PackageJsonDepWorkspaceReq::Tilde));
            }
            if str_eq(workspace_key, "^") {
                return Ok(PackageJsonDepValue::Workspace(PackageJsonDepWorkspaceReq::Caret));
            }
            return match parse_npm_version_req(workspace_key) {
                Ok(vr) => Ok(
                    PackageJsonDepValue::Workspace(PackageJsonDepWorkspaceReq::VersionReq(vr)),
                ),
                Err(e) => Err(PackageJsonDepValueParseError::VersionReq(e)),
            };
        },
        None => {},
    }
    if str_starts_with(value, "file:") || str_starts_with(value, "git:") || str_starts_with(
        value,
        "http:",
    ) || str_starts_with(value, "https:") {
        let colon = match str_find(value, ':') {
            Some(i) => i,
            None => {
                proof {
                    reveal_strlit("file:");
                    reveal_strlit("git:");
                    reveal_strlit("http:");
                    reveal_strlit("https:");
                    crate::strs::lemma_first_index_of_none(value@, ':');
                    assert(false) by {
                        if seq_starts_with(value@, "file:"@) {
                            assert(value@.subrange(0, 5)[4] == ':');
                        } else if seq_starts_with(value@, "git:"@) {
                            assert(value@.subrange(0, 4)[3] == ':');
                        } else if seq_starts_with(value@, "http:"@) {
                            assert(value@.subrange(0, 5)[4] == ':');
                        } else {
                            assert(value@.subrange(0, 6)[5] == ':');
                        }
                    }
                }
                0
            },
        };
        let scheme = value.substring_char(0, colon);
        assert(scheme@ == scheme_of(value@));
        return Err(PackageJsonDepValueParseError::Unsupported { scheme: scheme.to_owned() });
    }
    let (name, version_req_text) = dep_entry_name_and_raw_version(key, value);
    match parse_npm_version_req(version_req_text) {
        Ok(vr) => Ok(
            PackageJsonDepValue::Req(PackageReq { name: name.to_owned(), version_req: vr }),
        ),
        Err(e) => Err(PackageJsonDepValueParseError::VersionReq(e)),
    }
}

} // verus!

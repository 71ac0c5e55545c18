//! Parsing of npm-style package manifests into a typed record, with
//! normalisation of the `exports` field and classification of dependency
//! entries into semantic requirement values.

pub mod strs;
pub mod json;
pub mod semver;
pub mod deps;
pub mod imap;
pub mod jsondoc;
pub mod laws;
pub mod manifest;

pub use json::JsonValue;
pub use json::is_conditional_exports_main_sugar;
pub use json::exports_value_is_mixed;
pub use deps::PackageJsonDepValue;
pub use deps::PackageJsonDepValueParseError;
pub use deps::PackageJsonDepWorkspaceReq;
pub use deps::PackageReq;
pub use deps::parse_dep_entry;
pub use imap::StringMap;
pub use imap::DepResult;
pub use imap::PackageJsonDepsMap;
pub use manifest::NodeModuleKind;
pub use manifest::PackageJson;
pub use manifest::PackageJsonDeps;
pub use manifest::PackageJsonDepsRc;
pub use manifest::PackageJsonLoadError;

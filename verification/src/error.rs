//! The errors of making a new package.

use vstd::prelude::*;

verus! {

/// Why a new package could not be planned.
#[derive(Debug)]
pub enum NewError {
    /// AtCoder was asked for without a contest.
    AtcoderContestRequired,
    /// Codeforces was asked for without a contest.
    CodeforcesContestRequired,
    /// yukicoder was asked for with neither a contest nor problems.
    YukicoderTargetRequired,
    /// `--problems` was given for an `oj-api` configuration.
    ProblemsNotAllowedForOjApi,
    /// An `oj-api` configuration was used without a contest.
    OjApiContestRequired,
    /// The contest URL template did not render; the message of the template engine.
    ContestUrlTemplate(String),
    /// The rendered contest URL is no URL; the message of the URL parser.
    ContestUrl(String),
    /// The download gave no problem to find the contest from.
    EmptyResult,
    /// The package path template did not render; the message of the template engine.
    PackagePathTemplate(String),
    /// A problem index whose kebab-case form cannot be written as a TOML key.
    UnrepresentableKey(String),
    /// A text that `toml_edit` cannot write as a string value (it would panic).
    UnrepresentableValue(String),
    /// The inline dependencies of the template are no TOML document.
    DependenciesContent,
    /// A TOML text did not parse; the message of the parser.
    Toml(String),
    /// The manifest has an item that is not a table where a key is to be reached
    /// through it; the key.
    ManifestShape(String),
}

impl NewError {
    /// The text of the error.
    pub open spec fn spec_message(&self) -> Seq<char> {
        match self {
            NewError::AtcoderContestRequired => "`contest` is required for AtCoder"@,
            NewError::CodeforcesContestRequired => "`contest` is required for Codeforces"@,
            NewError::YukicoderTargetRequired => "either of `<contest>` or `--problems` required for yukicoder"@,
            NewError::ProblemsNotAllowedForOjApi => "`--problems` option is not allowed for `oj-api`"@,
            NewError::OjApiContestRequired => "`contest` is required for oj-api"@,
            NewError::ContestUrlTemplate(m) => m@,
            NewError::ContestUrl(m) => m@,
            NewError::EmptyResult => "empty result"@,
            NewError::PackagePathTemplate(m) => m@,
            NewError::UnrepresentableKey(k) => "could not write a TOML key for `"@ + k@ + "`"@,
            NewError::UnrepresentableValue(v) => "could not write a TOML string for `"@ + v@ + "`"@,
            NewError::DependenciesContent => "could not parse the toml value in `new.template.dependencies.content`"@,
            NewError::Toml(m) => m@,
            NewError::ManifestShape(k) => "cannot access key `"@ + k@ + "` in the manifest"@,
        }
    }

    /// The text of the error.
    pub fn message(&self) -> (r: String)
        ensures
            r@ == self.spec_message(),
    {
        match self {
            NewError::AtcoderContestRequired => String::from_str("`contest` is required for AtCoder"),
            NewError::CodeforcesContestRequired => String::from_str("`contest` is required for Codeforces"),
            NewError::YukicoderTargetRequired => String::from_str(
                "either of `<contest>` or `--problems` required for yukicoder",
            ),
            NewError::ProblemsNotAllowedForOjApi => String::from_str(
                "`--problems` option is not allowed for `oj-api`",
            ),
            NewError::OjApiContestRequired => String::from_str("`contest` is required for oj-api"),
            NewError::ContestUrlTemplate(m) => m.clone(),
            NewError::ContestUrl(m) => m.clone(),
            NewError::EmptyResult => String::from_str("empty result"),
            NewError::PackagePathTemplate(m) => m.clone(),
            NewError::UnrepresentableKey(k) => {
                let head = String::from_str("could not write a TOML key for `");
                head.concat(k.as_str()).concat("`")
            },
            NewError::UnrepresentableValue(v) => {
                let head = String::from_str("could not write a TOML string for `");
                head.concat(v.as_str()).concat("`")
            },
            NewError::DependenciesContent => String::from_str(
                "could not parse the toml value in `new.template.dependencies.content`",
            ),
            NewError::Toml(m) => m.clone(),
            NewError::ManifestShape(k) => {
                let head = String::from_str("cannot access key `");
                head.concat(k.as_str()).concat("` in the manifest")
            },
        }
    }
}

} // verus!

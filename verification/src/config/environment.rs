//! The environments an application can run in.

use vstd::prelude::*;
use vstd::string::StringExecFns;

use crate::text::str_eq;

verus! {

/// All the possible environments in which the application can run.
#[derive(PartialEq, Eq, Structural, Debug, Clone, Copy)]
pub enum Environment {
    Dev,
    Staging,
    Production,
}

impl Environment {
    /// The lowercase name of the environment.
    pub open spec fn spec_str(self) -> Seq<char> {
        match self {
            Environment::Dev => "dev"@,
            Environment::Staging => "staging"@,
            Environment::Production => "production"@,
        }
    }

    /// The environment a name denotes, when it denotes one.
    pub open spec fn spec_from_str(s: Seq<char>) -> Option<Environment> {
        if s == "dev"@ {
            Some(Environment::Dev)
        } else if s == "staging"@ {
            Some(Environment::Staging)
        } else if s == "production"@ {
            Some(Environment::Production)
        } else {
            None
        }
    }

    /// The lowercase name of the environment.
    pub fn as_str(&self) -> (r: &'static str)
        ensures
            r@ == self.spec_str(),
    {
        match self {
            Environment::Dev => "dev",
            Environment::Staging => "staging",
            Environment::Production => "production",
        }
    }

    /// Parses a lowercase environment name; any other text is rejected.
    pub fn from_str(s: &str) -> (r: Result<Environment, EnvironmentParseError>)
        ensures
            r.is_ok() == (Environment::spec_from_str(s@) is Some),
            r matches Ok(e) ==> Some(e) == Environment::spec_from_str(s@),
            r matches Err(e) ==> e.spec_input() == s@,
    {
        if str_eq(s, "dev") {
            Ok(Environment::Dev)
        } else if str_eq(s, "staging") {
            Ok(Environment::Staging)
        } else if str_eq(s, "production") {
            Ok(Environment::Production)
        } else {
            Err(EnvironmentParseError(s.to_owned()))
        }
    }
}

/// The rejection of a text that names no environment.
#[derive(Debug)]
pub struct EnvironmentParseError(pub(crate) String);

impl EnvironmentParseError {
    /// The rejected input.
    pub closed spec fn spec_input(self) -> Seq<char> {
        self.0@
    }

    /// The human-readable description of the rejection.
    pub fn message(&self) -> (r: String)
        ensures
            r@ == self.spec_input()
                + " is not a valid environment string. Allowed strings are 'dev', 'staging' and 'production'."@,
    {
        let mut out = self.0.clone();
        out.append(
            " is not a valid environment string. Allowed strings are 'dev', 'staging' and 'production'.",
        );
        out
    }
}

} // verus!

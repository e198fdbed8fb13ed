//! The countries an application can run in.

use vstd::prelude::*;
use vstd::string::StringExecFns;

use crate::text::str_eq;

verus! {

/// All the possible countries in which the application can run.
#[derive(PartialEq, Eq, Structural, Debug, Clone)]
pub enum Country {
    Common,
    Es,
    It,
    Uk,
}

impl Country {
    /// The lowercase name of the country.
    pub open spec fn spec_str(self) -> Seq<char> {
        match self {
            Country::Common => "common"@,
            Country::Es => "es"@,
            Country::It => "it"@,
            Country::Uk => "uk"@,
        }
    }

    /// The country a name denotes, when it denotes one.
    pub open spec fn spec_from_str(s: Seq<char>) -> Option<Country> {
        if s == "common"@ {
            Some(Country::Common)
        } else if s == "it"@ {
            Some(Country::It)
        } else if s == "es"@ {
            Some(Country::Es)
        } else if s == "uk"@ {
            Some(Country::Uk)
        } else {
            None
        }
    }

    /// The lowercase name of the country.
    pub fn as_str(&self) -> (r: &'static str)
        ensures
            r@ == self.spec_str(),
    {
        match self {
            Country::Common => "common",
            Country::Es => "es",
            Country::It => "it",
            Country::Uk => "uk",
        }
    }

    /// Parses a lowercase country name; any other text is rejected.
    pub fn from_str(s: &str) -> (r: Result<Country, CountryParseError>)
        ensures
            r.is_ok() == (Country::spec_from_str(s@) is Some),
            r matches Ok(c) ==> Some(c) == Country::spec_from_str(s@),
            r matches Err(e) ==> e.spec_input() == s@,
    {
        if str_eq(s, "common") {
            Ok(Country::Common)
        } else if str_eq(s, "it") {
            Ok(Country::It)
        } else if str_eq(s, "es") {
            Ok(Country::Es)
        } else if str_eq(s, "uk") {
            Ok(Country::Uk)
        } else {
            Err(CountryParseError(s.to_owned()))
        }
    }
}

/// The rejection of a text that names no country.
#[derive(Debug)]
pub struct CountryParseError(pub(crate) String);

impl CountryParseError {
    /// The rejected input.
    pub closed spec fn spec_input(self) -> Seq<char> {
        self.0@
    }

    /// The human-readable description of the rejection.
    pub fn message(&self) -> (r: String)
        ensures
            r@ == self.spec_input()
                + " is not a valid country string. Allowed strings are 'common', 'it', 'es' and 'uk'."@,
    {
        let mut out = self.0.clone();
        out.append(
            " is not a valid country string. Allowed strings are 'common', 'it', 'es' and 'uk'.",
        );
        out
    }
}

} // verus!

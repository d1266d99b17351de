use vstd::prelude::*;
use vstd::string::StringExecFns;

verus! {

/// What `str::to_lowercase` returns for a string: its lowercase equivalent
/// as defined by the Unicode `Lowercase` derived property.
pub uninterp spec fn unicode_lowercase(s: Seq<char>) -> Seq<char>;

/// Calls `str::to_lowercase`. Trusted to return exactly `unicode_lowercase`
/// of the argument; nothing more is stated of the Unicode case tables.
#[verifier::external_body]
fn to_lowercase(s: &str) -> (r: String)
    ensures
        r@ == unicode_lowercase(s@),
{
    s.to_lowercase()
}

/// The deployment the server runs in.
#[derive(PartialEq, Eq, Structural, Debug, Clone, Copy)]
pub enum Environment {
    Development,
    Production,
}

/// The text that follows the rejected name in the error of `Environment::try_from`.
pub open spec fn unsupported_suffix() -> Seq<char> {
    " is not supported environment. Use either `local` or `production`"@
}

/// What a name that is already in lower case denotes.
pub open spec fn spec_from_lowercase(lower: Seq<char>) -> Result<Environment, Seq<char>> {
    if lower == "development"@ || lower == "dev"@ {
        Ok(Environment::Development)
    } else if lower == "production"@ || lower == "prod"@ {
        Ok(Environment::Production)
    } else {
        Err(lower + unsupported_suffix())
    }
}

impl Environment {
    /// Reads an environment name that has already been lower-cased.
    pub fn from_lowercase(lower: String) -> (r: Result<Environment, String>)
        ensures
            match (r, spec_from_lowercase(lower@)) {
                (Ok(e), Ok(f)) => e == f,
                (Err(m), Err(n)) => m@ == n,
                _ => false,
            },
    {
        if lower == String::from_str("development") || lower == String::from_str("dev") {
            Ok(Environment::Development)
        } else if lower == String::from_str("production") || lower == String::from_str("prod") {
            Ok(Environment::Production)
        } else {
            let mut msg = lower;
            msg.append(" is not supported environment. Use either `local` or `production`");
            Err(msg)
        }
    }
}

impl TryFrom<String> for Environment {
    type Error = String;

    /// Lower-cases `value` and reads it as an environment name.
    fn try_from(value: String) -> (r: Result<Environment, String>)
        ensures
            match (r, spec_from_lowercase(unicode_lowercase(value@))) {
                (Ok(e), Ok(f)) => e == f,
                (Err(m), Err(n)) => m@ == n,
                _ => false,
            },
    {
        let lower = to_lowercase(value.as_str());
        Environment::from_lowercase(lower)
    }
}

/// The result is a `String` built at run time, so no spec function can name it:
/// the contract of `try_from` states it instead.
impl vstd::std_specs::convert::TryFromSpecImpl<String> for Environment {
    open spec fn obeys_try_from_spec() -> bool {
        false
    }

    open spec fn try_from_spec(v: String) -> Result<Environment, String> {
        arbitrary()
    }
}

} // verus!

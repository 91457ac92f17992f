//! The deployment environment the application runs in, parsed from
//! its configuration.

use vstd::prelude::*;

verus! {

use vstd::string::StrSliceExecFns;
use vstd::string::StringExecFns;

/// Which configuration set the application loads.
#[derive(Debug)]
pub enum Environment {
    Local,
    Production,
}

/// Unicode lowercasing as std's `str::to_lowercase` performs it; a
/// function of the characters alone.
pub uninterp spec fn unicode_lower(s: Seq<char>) -> Seq<char>;

/// Relies on std's `str::to_lowercase`: the result depends on the
/// characters alone.
#[verifier::external_body]
fn to_lowercase_string(s: &str) -> (r: String)
    ensures
        r@ == unicode_lower(s@),
{
    s.to_lowercase()
}

impl Environment {
    /// The configuration file stem this environment selects.
    pub fn to_string(&self) -> (r: String)
        ensures
            self is Local ==> r@ == "local"@,
            self is Production ==> r@ == "production"@,
    {
        match self {
            Environment::Local => "local".to_owned(),
            Environment::Production => "production".to_owned(),
        }
    }

    /// Parses an environment name, ignoring case; anything but the two
    /// known names is rejected.
    pub fn try_from(s: String) -> (r: Result<Environment, String>)
        ensures
            r matches Ok(Environment::Local) <==> unicode_lower(s@) == "local"@,
            r matches Ok(Environment::Production) <==> unicode_lower(s@) == "production"@,
            r is Err <==> (unicode_lower(s@) != "local"@ && unicode_lower(s@) != "production"@),
            r matches Err(e) ==> e@ == "environment "@ + s@
                + " not found; use either `local` or `production`"@,
    {
        proof {
            reveal_strlit("local");
            reveal_strlit("production");
            assert("local"@.len() == 5);
            assert("production"@.len() == 10);
            assert("local"@ != "production"@);
        }
        let lowered = to_lowercase_string(s.as_str());
        if lowered == "local".to_owned() {
            Ok(Environment::Local)
        } else if lowered == "production".to_owned() {
            Ok(Environment::Production)
        } else {
            let msg = "environment ".to_owned().concat(s.as_str()).concat(
                " not found; use either `local` or `production`",
            );
            Err(msg)
        }
    }
}

} // verus!

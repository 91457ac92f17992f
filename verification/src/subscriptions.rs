//! Signing a new subscriber up: form validation, the random
//! confirmation token, and the confirmation email's link and bodies.
//! Storing the subscriber and sending the mail are I/O and live with
//! the web application.

use vstd::prelude::*;

use crate::domain::NewSubscriber;
use crate::domain::SubscriberEmail;
use crate::domain::SubscriberName;
use crate::domain::email_ok;
use crate::domain::name_valid;

verus! {

use vstd::string::StringExecFns;

/// The raw subscription form as the client posted it.
pub struct FormData {
    pub name: String,
    pub email: String,
}

impl NewSubscriber {
    /// Validates a subscription form: the name first, then the email;
    /// the first failure is reported.
    pub fn try_from(form: FormData) -> (r: Result<NewSubscriber, String>)
        ensures
            r is Ok <==> (name_valid(form.name@) && email_ok(form.email@)),
            r matches Ok(s) ==> s.name@ == form.name@ && s.email@ == form.email@,
    {
        let name = match SubscriberName::parse(form.name) {
            Ok(n) => n,
            Err(e) => {
                return Err(e);
            },
        };
        let email = match SubscriberEmail::parse(form.email) {
            Ok(e) => e,
            Err(e) => {
                return Err(e);
            },
        };
        Ok(NewSubscriber { name, email })
    }
}

/// Why a subscription request failed.
pub enum SubscribeError {
    /// The form data failed validation: a client error.
    ValidationError(String),
    /// Anything else: a server-side failure.
    Other(String),
}

impl SubscribeError {
    /// The HTTP status a failed subscription maps to.
    pub fn status_code(&self) -> (r: u16)
        ensures
            self matches SubscribeError::ValidationError(_) ==> r == 400,
            self matches SubscribeError::Other(_) ==> r == 500,
    {
        match self {
            SubscribeError::ValidationError(_) => 400,
            SubscribeError::Other(_) => 500,
        }
    }
}

/// The query parameters of a confirmation request.
pub struct Parameters {
    pub token: String,
}

/// An ASCII letter or digit.
pub open spec fn alnum_char(c: char) -> bool {
    ||| (97 <= c as u32 && c as u32 <= 122)
    ||| (65 <= c as u32 && c as u32 <= 90)
    ||| (48 <= c as u32 && c as u32 <= 57)
}

/// Relies on rand's `Alphanumeric` distribution: every sample is one
/// of the ASCII letters and digits.  Nothing else can be promised of
/// a random draw.
#[verifier::external_body]
fn sample_alphanumeric_char() -> (c: char)
    ensures
        alnum_char(c),
{
    char::from(rand::Rng::sample(&mut rand::thread_rng(), rand::distributions::Alphanumeric))
}

/// Relies on std's `FromIterator` for `String`: collecting characters
/// yields the string of exactly those characters in order.
#[verifier::external_body]
fn chars_to_string(chars: &Vec<char>) -> (r: String)
    ensures
        r@ == chars@,
{
    chars.iter().collect()
}

/// A fresh subscription token: 32 random ASCII letters and digits.
pub fn generate_random_token() -> (t: String)
    ensures
        t@.len() == 32,
        forall|i: int| 0 <= i < 32 ==> alnum_char(#[trigger] t@[i]),
{
    let mut chars: Vec<char> = Vec::new();
    let mut i: usize = 0;
    while i < 32
        invariant
            i <= 32,
            chars@.len() == i,
            forall|j: int| 0 <= j < i ==> alnum_char(#[trigger] chars@[j]),
        decreases 32 - i,
    {
        chars.push(sample_alphanumeric_char());
        i = i + 1;
    }
    chars_to_string(&chars)
}

/// The link a new subscriber must follow to confirm.
pub fn confirmation_link(base_url: &str, token: &str) -> (r: String)
    ensures
        r@ == base_url@ + "/subscribe/confirm?token="@ + token@,
{
    base_url.to_owned().concat("/subscribe/confirm?token=").concat(token)
}

/// The plain-text body of the confirmation email.
pub fn confirmation_email_text(link: &str) -> (r: String)
    ensures
        r@ == "welcome to the newsletter!\nClick "@ + link@ + " to confirm"@,
{
    "welcome to the newsletter!\nClick ".to_owned().concat(link).concat(" to confirm")
}

/// The HTML body of the confirmation email.
pub fn confirmation_email_html(link: &str) -> (r: String)
    ensures
        r@ == "welcome to the newsletter!<br />Click <a href=\""@ + link@
            + "\"here</a> to confirm"@,
{
    "welcome to the newsletter!<br />Click <a href=\"".to_owned().concat(link).concat(
        "\"here</a> to confirm",
    )
}

} // verus!

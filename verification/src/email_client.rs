//! What the email transport is asked to send.  The HTTP client that
//! carries the request lives with the web application; the library
//! only builds the request and the endpoint URL.

use vstd::prelude::*;

verus! {

use vstd::string::StringExecFns;

/// One outbound email, fully assembled for the transport.
pub struct SendEmailRequest {
    pub from: String,
    pub to: String,
    pub subject: String,
    pub text_body: String,
    pub html_body: String,
}

impl SendEmailRequest {
    /// Assembles the request the transport will serialise and post.
    pub fn new(
        from: String,
        to: String,
        subject: String,
        text_body: String,
        html_body: String,
    ) -> (r: SendEmailRequest)
        ensures
            r.from == from,
            r.to == to,
            r.subject == subject,
            r.text_body == text_body,
            r.html_body == html_body,
    {
        SendEmailRequest { from, to, subject, text_body, html_body }
    }
}

/// The transport endpoint under the configured base URL.
pub fn send_email_url(base_url: &str) -> (r: String)
    ensures
        r@ == base_url@ + "/email"@,
{
    base_url.to_owned().concat("/email")
}

} // verus!

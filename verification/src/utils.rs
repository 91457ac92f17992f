//! Small helpers shared by the request handlers.

use vstd::prelude::*;

use crate::response::HeaderPair;
use crate::response::HttpResponseRecord;
use crate::response::ResponseView;
use crate::response::headers_view;

verus! {

use vstd::string::StrSliceExecFns;

/// The base URL under which the application is reachable, as handed to
/// link-building code.
pub struct ApplicationBaseUrl(pub String);

/// The response `see_other` produces: a 303 redirect whose only header
/// is `location`, with an empty body.
pub open spec fn see_other_view(location: Seq<char>) -> ResponseView {
    ResponseView {
        status: 303,
        headers: seq![("location"@, vstd::utf8::encode_utf8(location))],
        body: Seq::empty(),
    }
}

/// A 303 See Other redirect to the given location.
pub fn see_other(location: &str) -> (r: HttpResponseRecord)
    ensures
        r@ == see_other_view(location@),
{
    let mut headers: Vec<HeaderPair> = Vec::new();
    headers.push(HeaderPair { name: "location".to_owned(), value: location.as_bytes_vec() });
    let r = HttpResponseRecord { status: 303, headers, body: Vec::new() };
    proof {
        assert(headers_view(r.headers@) =~= see_other_view(location@).headers);
        assert(r@ =~~= see_other_view(location@));
    }
    r
}

} // verus!

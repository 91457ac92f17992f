//! A stored HTTP response, decoupled from any web framework: a status
//! code, an ordered list of header name/value pairs, and the full body
//! bytes.  This is the shape in which the idempotency table caches the
//! response of a completed publish, and the shape it replays.

use vstd::prelude::*;

verus! {

/// One response header: a name and its value bytes.
#[derive(Debug, PartialEq, Eq)]
pub struct HeaderPair {
    pub name: String,
    pub value: Vec<u8>,
}

/// A fully materialised HTTP response, ready to be stored or replayed.
#[derive(Debug, PartialEq, Eq)]
pub struct HttpResponseRecord {
    pub status: u16,
    pub headers: Vec<HeaderPair>,
    pub body: Vec<u8>,
}

#[verifier::ext_equal]
pub ghost struct ResponseView {
    pub status: u16,
    pub headers: Seq<(Seq<char>, Seq<u8>)>,
    pub body: Seq<u8>,
}

impl View for HeaderPair {
    type V = (Seq<char>, Seq<u8>);

    open spec fn view(&self) -> (Seq<char>, Seq<u8>) {
        (self.name@, self.value@)
    }
}

/// The mathematical value of a header list.
pub open spec fn headers_view(hs: Seq<HeaderPair>) -> Seq<(Seq<char>, Seq<u8>)> {
    hs.map_values(|h: HeaderPair| h@)
}

impl View for HttpResponseRecord {
    type V = ResponseView;

    open spec fn view(&self) -> ResponseView {
        ResponseView { status: self.status, headers: headers_view(self.headers@), body: self.body@ }
    }
}

impl Clone for HeaderPair {
    fn clone(&self) -> (r: Self)
        ensures
            r@ == self@,
    {
        let value = clone_bytes(&self.value);
        HeaderPair { name: self.name.clone(), value }
    }
}

impl Clone for HttpResponseRecord {
    fn clone(&self) -> (r: Self)
        ensures
            r@ == self@,
    {
        let mut headers: Vec<HeaderPair> = Vec::new();
        let mut i: usize = 0;
        while i < self.headers.len()
            invariant
                i <= self.headers.len(),
                headers_view(headers@) =~~= headers_view(self.headers@).take(i as int),
            decreases self.headers.len() - i,
        {
            proof {
                assert(headers_view(self.headers@).take(i as int).len() == i as int);
            }
            let h = self.headers[i].clone();
            headers.push(h);
            i = i + 1;
            proof {
                assert(headers_view(headers@) =~~= headers_view(self.headers@).take(i as int));
            }
        }
        let body = clone_bytes(&self.body);
        proof {
            assert(headers_view(headers@) =~~= headers_view(self.headers@));
        }
        HttpResponseRecord { status: self.status, headers, body }
    }
}

/// Copies a byte vector; the copy holds exactly the same bytes.
pub(crate) fn clone_bytes(v: &Vec<u8>) -> (r: Vec<u8>)
    ensures
        r@ == v@,
{
    let r = v.clone();
    proof {
        assert(r@ =~= v@);
    }
    r
}

} // verus!

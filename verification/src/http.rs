//! HTTP messages as plain values.
use vstd::prelude::*;

verus! {

/// One HTTP header.
#[derive(Debug, Clone, PartialEq, Eq)]
pub struct HttpHeader {
    pub name: String,
    pub value: String,
}

/// A proxied HTTP request.
#[derive(Debug, Clone, PartialEq, Eq)]
pub struct HttpRequest {
    pub request_id: u64,
    pub method: String,
    pub path: String,
    pub headers: Vec<HttpHeader>,
    pub body: Vec<u8>,
}

/// The status line and headers of a proxied HTTP response.
#[derive(Debug, Clone, PartialEq, Eq)]
pub struct HttpResponseHeader {
    pub request_id: u64,
    pub status: u16,
    pub headers: Vec<HttpHeader>,
}

/// The headers as `(name, value)` pairs, in order.
pub open spec fn pairs_of(headers: Seq<HttpHeader>) -> Seq<(String, String)> {
    headers.map_values(|h: HttpHeader| (h.name, h.value))
}

fn header_pairs_of(headers: &Vec<HttpHeader>) -> (res: Vec<(String, String)>)
    ensures
        res@ == pairs_of(headers@),
{
    let mut out: Vec<(String, String)> = Vec::new();
    let n = headers.len();
    let mut i: usize = 0;
    while i < n
        invariant
            n == headers@.len(),
            i <= n,
            out@ == pairs_of(headers@.take(i as int)),
        decreases n - i,
    {
        let h = &headers[i];
        out.push((h.name.clone(), h.value.clone()));
        assert(headers@.take(i + 1) =~= headers@.take(i as int).push(headers@[i as int]));
        i = i + 1;
    }
    assert(headers@.take(n as int) =~= headers@);
    out
}

impl HttpRequest {
    /// The request headers as `(name, value)` pairs, in order.
    pub fn header_pairs(&self) -> (res: Vec<(String, String)>)
        ensures
            res@ == pairs_of(self.headers@),
    {
        header_pairs_of(&self.headers)
    }
}

impl HttpResponseHeader {
    /// The response headers as `(name, value)` pairs, in order.
    pub fn header_pairs(&self) -> (res: Vec<(String, String)>)
        ensures
            res@ == pairs_of(self.headers@),
    {
        header_pairs_of(&self.headers)
    }
}

} // verus!

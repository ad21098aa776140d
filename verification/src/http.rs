//! Plain HTTP-like request and response values, together with the ghost-level
//! data the pipeline's contracts speak of.
//!
//! The engine never interprets a request; it only hands it to each middleware.
//! A response carries a status, headers and a body; the engine creates the
//! default response at the start of a run and may tag it with one header at
//! the end.

use vstd::prelude::*;

verus! {

/// Ghost-level contents of a request.
pub struct RequestData {
    pub headers: Seq<(Seq<char>, Seq<char>)>,
    pub body: Seq<u8>,
}

/// Ghost-level contents of a response.
pub struct ResponseData {
    pub status: u16,
    pub headers: Seq<(Seq<char>, Seq<char>)>,
    pub body: Seq<u8>,
}

/// An inbound HTTP-like request. Opaque to the engine; middleware may read
/// and rewrite it.
#[derive(Debug)]
pub struct Request {
    pub headers: Vec<(String, String)>,
    pub body: Vec<u8>,
}

/// An outbound HTTP-like response.
#[derive(Debug)]
pub struct Response {
    pub status: u16,
    pub headers: Vec<(String, String)>,
    pub body: Vec<u8>,
}

/// The ghost contents of a header list.
pub open spec fn headers_view(hs: Seq<(String, String)>) -> Seq<(Seq<char>, Seq<char>)> {
    hs.map_values(|p: (String, String)| (p.0@, p.1@))
}

impl View for Request {
    type V = RequestData;

    open spec fn view(&self) -> RequestData {
        RequestData { headers: headers_view(self.headers@), body: self.body@ }
    }
}

impl View for Response {
    type V = ResponseData;

    open spec fn view(&self) -> ResponseData {
        ResponseData {
            status: self.status,
            headers: headers_view(self.headers@),
            body: self.body@,
        }
    }
}

/// `hs` with every entry named `name` removed.
pub open spec fn remove_header(
    hs: Seq<(Seq<char>, Seq<char>)>,
    name: Seq<char>,
) -> Seq<(Seq<char>, Seq<char>)>
    decreases hs.len(),
{
    if hs.len() == 0 {
        Seq::empty()
    } else {
        let rest = remove_header(hs.drop_last(), name);
        if hs.last().0 == name {
            rest
        } else {
            rest.push(hs.last())
        }
    }
}

/// `hs` with `name` bound to `value` alone: prior entries of that name are
/// dropped and the new one appended.
pub open spec fn set_header_data(
    hs: Seq<(Seq<char>, Seq<char>)>,
    name: Seq<char>,
    value: Seq<char>,
) -> Seq<(Seq<char>, Seq<char>)> {
    remove_header(hs, name).push((name, value))
}

/// The value of the first entry named `name`, if any.
pub open spec fn header_lookup(
    hs: Seq<(Seq<char>, Seq<char>)>,
    name: Seq<char>,
) -> Option<Seq<char>>
    decreases hs.len(),
{
    if hs.len() == 0 {
        None
    } else if hs[0].0 == name {
        Some(hs[0].1)
    } else {
        header_lookup(hs.drop_first(), name)
    }
}

/// Whether some entry is named `name`.
pub open spec fn has_header(hs: Seq<(Seq<char>, Seq<char>)>, name: Seq<char>) -> bool {
    header_lookup(hs, name) is Some
}

/// The decimal digit `d` as a character, for `d < 10`.
pub open spec fn digit_char(d: nat) -> char {
    if d == 0 {
        '0'
    } else if d == 1 {
        '1'
    } else if d == 2 {
        '2'
    } else if d == 3 {
        '3'
    } else if d == 4 {
        '4'
    } else if d == 5 {
        '5'
    } else if d == 6 {
        '6'
    } else if d == 7 {
        '7'
    } else if d == 8 {
        '8'
    } else {
        '9'
    }
}

/// The decimal notation of `n`, most significant digit first.
pub open spec fn dec_str(n: nat) -> Seq<char>
    decreases n,
{
    if n < 10 {
        seq![digit_char(n)]
    } else {
        dec_str(n / 10) + seq![digit_char(n % 10)]
    }
}

impl Response {
    /// The contents of the default response: status 200, no headers, empty body.
    pub open spec fn default_data() -> ResponseData {
        ResponseData { status: 200, headers: Seq::empty(), body: Seq::empty() }
    }

    /// The default response.
    pub fn new() -> (r: Response)
        ensures
            r@ == Self::default_data(),
    {
        let r = Response { status: 200, headers: Vec::new(), body: Vec::new() };
        proof {
            assert(r@.headers =~= Seq::<(Seq<char>, Seq<char>)>::empty());
            assert(r@.body =~= Seq::<u8>::empty());
        }
        r
    }

    /// A default response carrying `body`.
    pub fn from_body(body: Vec<u8>) -> (r: Response)
        ensures
            r@ == (ResponseData { status: 200, headers: Seq::empty(), body: body@ }),
    {
        let r = Response { status: 200, headers: Vec::new(), body };
        proof {
            assert(r@.headers =~= Seq::<(Seq<char>, Seq<char>)>::empty());
        }
        r
    }

    /// Replaces the status code.
    pub fn set_status(&mut self, status: u16)
        ensures
            final(self)@ == (ResponseData { status, ..old(self)@ }),
    {
        self.status = status;
    }

    /// Binds `name` to `value`, dropping any earlier value of that header.
    pub fn set_header(&mut self, name: &str, value: String)
        ensures
            final(self)@ == (ResponseData {
                headers: set_header_data(old(self)@.headers, name@, value@),
                ..old(self)@
            }),
    {
        let nm: String = name.to_owned();
        let ghost hv = headers_view(self.headers@);
        let mut kept: Vec<(String, String)> = Vec::new();
        let n = self.headers.len();
        let mut i: usize = 0;
        while i < n
            invariant
                i <= n,
                n == self.headers.len(),
                nm@ == name@,
                hv == headers_view(self.headers@),
                headers_view(kept@) =~= remove_header(hv.take(i as int), nm@),
            decreases n - i,
        {
            let entry = &self.headers[i];
            let keep = !(entry.0 == nm);
            if keep {
                let cloned = (entry.0.clone(), entry.1.clone());
                kept.push(cloned);
            }
            proof {
                assert(hv.take(i + 1).drop_last() =~= hv.take(i as int));
                assert(hv.take(i + 1).last() == hv[i as int]);
            }
            i += 1;
        }
        proof {
            assert(hv.take(n as int) =~= hv);
        }
        kept.push((nm, value));
        self.headers = kept;
        proof {
            assert(headers_view(self.headers@) =~= remove_header(hv, name@).push((name@, value@)));
        }
    }

    /// The value of header `name`, if present.
    pub fn get_header(&self, name: &str) -> (r: Option<String>)
        ensures
            match header_lookup(self@.headers, name@) {
                Some(v) => (r matches Some(s) && s@ == v),
                None => r is None,
            },
    {
        let nm: String = name.to_owned();
        let ghost hv = headers_view(self.headers@);
        let n = self.headers.len();
        let mut i: usize = 0;
        proof {
            assert(hv.skip(0) =~= hv);
        }
        while i < n
            invariant
                i <= n,
                n == self.headers.len(),
                nm@ == name@,
                hv == headers_view(self.headers@),
                header_lookup(hv, nm@) == header_lookup(hv.skip(i as int), nm@),
            decreases n - i,
        {
            let entry = &self.headers[i];
            proof {
                assert(hv.skip(i as int)[0] == hv[i as int]);
                assert(hv.skip(i as int).drop_first() =~= hv.skip(i + 1));
            }
            if entry.0 == nm {
                return Some(entry.1.clone());
            }
            i += 1;
        }
        proof {
            assert(hv.skip(n as int) =~= Seq::<(Seq<char>, Seq<char>)>::empty());
        }
        None
    }
}

impl Request {
    /// An empty request: no headers, empty body.
    pub fn new() -> (r: Request)
        ensures
            r@.headers == Seq::<(Seq<char>, Seq<char>)>::empty(),
            r@.body == Seq::<u8>::empty(),
    {
        let r = Request { headers: Vec::new(), body: Vec::new() };
        proof {
            assert(r@.headers =~= Seq::<(Seq<char>, Seq<char>)>::empty());
            assert(r@.body =~= Seq::<u8>::empty());
        }
        r
    }
}

} // verus!

//! Ready-made middleware: a retrying stage, a short-circuiting stage, a
//! tagging stage, and an enum that mixes them in one chain.
//!
//! Each one carries the ghost model its [`Middleware`] contract demands, so a
//! pipeline built from these stages has a fully determined [`run`] outcome.
//!
//! [`run`]: crate::rack::FastRack::run

use vstd::prelude::*;

use crate::http::{Request, RequestData, Response, ResponseData};
use crate::rack::{Middleware, OutcomeData, RackError};

verus! {

/// Asks for a pipeline restart from the response phase while its countdown
/// is positive, decrementing each time; afterwards it continues.
pub struct RetryRequest {
    pub remaining: u8,
}

impl RetryRequest {
    /// A stage that will request `retries` restarts.
    pub fn new(retries: u8) -> (r: Self)
        ensures
            r@ == retries,
    {
        RetryRequest { remaining: retries }
    }
}

impl View for RetryRequest {
    type V = u8;

    open spec fn view(&self) -> u8 {
        self.remaining
    }
}

impl Middleware for RetryRequest {
    open spec fn req_model(m: u8, req: RequestData) -> (u8, RequestData, OutcomeData) {
        (m, req, OutcomeData::Continue)
    }

    open spec fn resp_model(m: u8, resp: ResponseData) -> (u8, ResponseData, OutcomeData) {
        if m > 0 {
            ((m - 1) as u8, resp, OutcomeData::Retry)
        } else {
            (m, resp, OutcomeData::Continue)
        }
    }

    fn req(&mut self, req: &mut Request) -> (r: Result<(), RackError>) {
        Ok(())
    }

    fn resp(&mut self, resp: &mut Response) -> (r: Result<(), RackError>) {
        if self.remaining > 0 {
            self.remaining = self.remaining - 1;
            Err(RackError::Retry)
        } else {
            Ok(())
        }
    }
}

/// Replaces the in-flight response during the request phase: a fixed body
/// and status, no headers.
pub struct SyntheticResponse {
    pub body: Vec<u8>,
    pub status: u16,
}

impl View for SyntheticResponse {
    type V = (Seq<u8>, u16);

    open spec fn view(&self) -> (Seq<u8>, u16) {
        (self.body@, self.status)
    }
}

impl Middleware for SyntheticResponse {
    open spec fn req_model(m: (Seq<u8>, u16), req: RequestData) -> (
        (Seq<u8>, u16),
        RequestData,
        OutcomeData,
    ) {
        (
            m,
            req,
            OutcomeData::Synthetic(
                ResponseData { status: m.1, headers: Seq::empty(), body: m.0 },
            ),
        )
    }

    open spec fn resp_model(m: (Seq<u8>, u16), resp: ResponseData) -> (
        (Seq<u8>, u16),
        ResponseData,
        OutcomeData,
    ) {
        (m, resp, OutcomeData::Continue)
    }

    fn req(&mut self, req: &mut Request) -> (r: Result<(), RackError>) {
        let body = self.body.clone();
        proof {
            assert(body@ =~= self.body@);
        }
        let mut response = Response::from_body(body);
        response.set_status(self.status);
        Err(RackError::Synthetic(response))
    }

    fn resp(&mut self, resp: &mut Response) -> (r: Result<(), RackError>) {
        Ok(())
    }
}

/// Appends its tag to the request body on the way in and to the response
/// body on the way out, making the traversal order observable.
pub struct Stamp {
    pub tag: u8,
}

impl View for Stamp {
    type V = u8;

    open spec fn view(&self) -> u8 {
        self.tag
    }
}

impl Middleware for Stamp {
    open spec fn req_model(m: u8, req: RequestData) -> (u8, RequestData, OutcomeData) {
        (
            m,
            RequestData { headers: req.headers, body: req.body.push(m) },
            OutcomeData::Continue,
        )
    }

    open spec fn resp_model(m: u8, resp: ResponseData) -> (u8, ResponseData, OutcomeData) {
        (
            m,
            ResponseData { status: resp.status, headers: resp.headers, body: resp.body.push(m) },
            OutcomeData::Continue,
        )
    }

    fn req(&mut self, req: &mut Request) -> (r: Result<(), RackError>) {
        req.body.push(self.tag);
        Ok(())
    }

    fn resp(&mut self, resp: &mut Response) -> (r: Result<(), RackError>) {
        resp.body.push(self.tag);
        Ok(())
    }
}

/// Asks for a restart on every request-phase call: a pipeline holding it
/// exhausts the retry bound.
pub struct AlwaysRetry {}

impl View for AlwaysRetry {
    type V = ();

    open spec fn view(&self) -> () {
        ()
    }
}

impl Middleware for AlwaysRetry {
    open spec fn req_model(m: (), req: RequestData) -> ((), RequestData, OutcomeData) {
        (m, req, OutcomeData::Retry)
    }

    open spec fn resp_model(m: (), resp: ResponseData) -> ((), ResponseData, OutcomeData) {
        (m, resp, OutcomeData::Continue)
    }

    fn req(&mut self, req: &mut Request) -> (r: Result<(), RackError>) {
        Err(RackError::Retry)
    }

    fn resp(&mut self, resp: &mut Response) -> (r: Result<(), RackError>) {
        Ok(())
    }
}

/// A defective stage: it produces a synthetic response from the response
/// phase, which the engine treats as fatal.
pub struct SyntheticOnResponse {}

impl View for SyntheticOnResponse {
    type V = ();

    open spec fn view(&self) -> () {
        ()
    }
}

impl Middleware for SyntheticOnResponse {
    open spec fn req_model(m: (), req: RequestData) -> ((), RequestData, OutcomeData) {
        (m, req, OutcomeData::Continue)
    }

    open spec fn resp_model(m: (), resp: ResponseData) -> ((), ResponseData, OutcomeData) {
        (m, resp, OutcomeData::Synthetic(Response::default_data()))
    }

    fn req(&mut self, req: &mut Request) -> (r: Result<(), RackError>) {
        Ok(())
    }

    fn resp(&mut self, resp: &mut Response) -> (r: Result<(), RackError>) {
        Err(RackError::Synthetic(Response::new()))
    }
}

/// Ghost state of a [`Stage`].
pub enum StageData {
    Stamp(u8),
    Retry(u8),
    Synthetic((Seq<u8>, u16)),
}

/// One chain, several kinds of stage: wraps the ready-made middleware so a
/// single pipeline can mix them.
pub enum Stage {
    Stamp(Stamp),
    Retry(RetryRequest),
    Synthetic(SyntheticResponse),
}

impl View for Stage {
    type V = StageData;

    open spec fn view(&self) -> StageData {
        match self {
            Stage::Stamp(s) => StageData::Stamp(s@),
            Stage::Retry(s) => StageData::Retry(s@),
            Stage::Synthetic(s) => StageData::Synthetic(s@),
        }
    }
}

impl Middleware for Stage {
    open spec fn req_model(m: StageData, req: RequestData) -> (StageData, RequestData, OutcomeData) {
        match m {
            StageData::Stamp(v) => {
                let (v2, req2, o) = <Stamp as Middleware>::req_model(v, req);
                (StageData::Stamp(v2), req2, o)
            }
            StageData::Retry(v) => {
                let (v2, req2, o) = <RetryRequest as Middleware>::req_model(v, req);
                (StageData::Retry(v2), req2, o)
            }
            StageData::Synthetic(v) => {
                let (v2, req2, o) = <SyntheticResponse as Middleware>::req_model(v, req);
                (StageData::Synthetic(v2), req2, o)
            }
        }
    }

    open spec fn resp_model(m: StageData, resp: ResponseData) -> (
        StageData,
        ResponseData,
        OutcomeData,
    ) {
        match m {
            StageData::Stamp(v) => {
                let (v2, resp2, o) = <Stamp as Middleware>::resp_model(v, resp);
                (StageData::Stamp(v2), resp2, o)
            }
            StageData::Retry(v) => {
                let (v2, resp2, o) = <RetryRequest as Middleware>::resp_model(v, resp);
                (StageData::Retry(v2), resp2, o)
            }
            StageData::Synthetic(v) => {
                let (v2, resp2, o) = <SyntheticResponse as Middleware>::resp_model(v, resp);
                (StageData::Synthetic(v2), resp2, o)
            }
        }
    }

    fn req(&mut self, req: &mut Request) -> (r: Result<(), RackError>) {
        match self {
            Stage::Stamp(s) => s.req(req),
            Stage::Retry(s) => s.req(req),
            Stage::Synthetic(s) => s.req(req),
        }
    }

    fn resp(&mut self, resp: &mut Response) -> (r: Result<(), RackError>) {
        match self {
            Stage::Stamp(s) => s.resp(resp),
            Stage::Retry(s) => s.resp(resp),
            Stage::Synthetic(s) => s.resp(resp),
        }
    }
}

} // verus!

//! The pipeline engine: an ordered middleware chain driven forward over the
//! request and backward over the response, with short-circuiting and a
//! bounded retry mechanism.
//!
//! Every middleware declares a ghost model of its two hooks; the engine's
//! contract then states the outcome of a whole run as a recursive function of
//! those models ([`run_model`]).

use vstd::prelude::*;

use crate::http::{
    dec_str, set_header_data, Request, RequestData, Response, ResponseData,
};

verus! {

/// Upper bound on the retries of one run.
pub const MAX_RETRIES: u8 = 3;

/// The control signal a middleware hook returns in its error position:
/// restart the pipeline, or replace the response and stop the request phase.
#[derive(Debug)]
pub enum RackError {
    Retry,
    Synthetic(Response),
}

/// Ghost mirror of a middleware outcome.
pub enum OutcomeData {
    Continue,
    Retry,
    Synthetic(ResponseData),
}

/// The ghost contents of a hook's result.
pub open spec fn outcome_data(r: Result<(), RackError>) -> OutcomeData {
    match r {
        Ok(()) => OutcomeData::Continue,
        Err(RackError::Retry) => OutcomeData::Retry,
        Err(RackError::Synthetic(resp)) => OutcomeData::Synthetic(resp@),
    }
}

/// A unit of pipeline logic. `req` runs during the forward request phase,
/// `resp` during the backward response phase.
///
/// An implementor describes each hook with a ghost model: a function from the
/// middleware's ghost state and the value's ghost contents to the new state,
/// the rewritten contents and the outcome. The hooks are then proved to
/// behave as the model says, which is what lets the engine's contract pin
/// down a whole run.
pub trait Middleware: Sized + View {
    /// Model of `req`: next state, rewritten request, outcome.
    spec fn req_model(m: Self::V, req: RequestData) -> (Self::V, RequestData, OutcomeData);

    /// Model of `resp`: next state, rewritten response, outcome.
    spec fn resp_model(m: Self::V, resp: ResponseData) -> (Self::V, ResponseData, OutcomeData);

    /// Request-phase hook: inspect or rewrite the inbound request.
    fn req(&mut self, req: &mut Request) -> (r: Result<(), RackError>)
        ensures
            (final(self)@, final(req)@, outcome_data(r)) == Self::req_model(
                old(self)@,
                old(req)@,
            ),
    ;

    /// Response-phase hook: inspect or rewrite the outbound response.
    fn resp(&mut self, resp: &mut Response) -> (r: Result<(), RackError>)
        ensures
            (final(self)@, final(resp)@, outcome_data(r)) == Self::resp_model(
                old(self)@,
                old(resp)@,
            ),
    ;
}

/// How one traversal of the chain ended.
pub enum PhaseExit {
    /// Every middleware continued.
    Completed,
    /// Some middleware asked for a restart.
    Retry,
    /// Some middleware produced a replacement response.
    Synthetic(ResponseData),
}

/// The request phase from position `i` on: applies each middleware's request
/// model in registration order until one does not continue.
pub open spec fn request_phase<M: Middleware>(
    ms: Seq<M::V>,
    req: RequestData,
    i: int,
) -> (Seq<M::V>, RequestData, PhaseExit)
    decreases ms.len() - i,
{
    if i < 0 || i >= ms.len() {
        (ms, req, PhaseExit::Completed)
    } else {
        let (m2, req2, out) = M::req_model(ms[i], req);
        let ms2 = ms.update(i, m2);
        match out {
            OutcomeData::Continue => request_phase::<M>(ms2, req2, i + 1),
            OutcomeData::Retry => (ms2, req2, PhaseExit::Retry),
            OutcomeData::Synthetic(r) => (ms2, req2, PhaseExit::Synthetic(r)),
        }
    }
}

/// The response phase from position `i` down: applies each middleware's
/// response model in reverse registration order until one does not continue.
pub open spec fn response_phase<M: Middleware>(
    ms: Seq<M::V>,
    resp: ResponseData,
    i: int,
) -> (Seq<M::V>, ResponseData, PhaseExit)
    decreases i + 1,
{
    if i < 0 {
        (ms, resp, PhaseExit::Completed)
    } else {
        let (m2, resp2, out) = M::resp_model(ms[i], resp);
        let ms2 = ms.update(i, m2);
        match out {
            OutcomeData::Continue => response_phase::<M>(ms2, resp2, i - 1),
            OutcomeData::Retry => (ms2, resp2, PhaseExit::Retry),
            OutcomeData::Synthetic(r) => (ms2, resp2, PhaseExit::Synthetic(r)),
        }
    }
}

/// The outcome of a whole run.
pub enum RunModel<V> {
    /// The run produced a response: the middleware states, the request and
    /// the response as the phases left them, and how many retries occurred.
    Delivered { ms: Seq<V>, req: RequestData, resp: ResponseData, retries: int },
    /// A middleware produced a synthetic response during the response phase,
    /// which the engine treats as fatal.
    Faulted { ms: Seq<V>, req: RequestData },
}

/// One run, starting from middleware states `ms`, request `req`, in-flight
/// response `resp` and `retries` retries so far. A pass is the request phase
/// and, if it completes, the response phase; a retry restarts the whole pass
/// until `MAX_RETRIES` is reached.
pub open spec fn run_model<M: Middleware>(
    ms: Seq<M::V>,
    req: RequestData,
    resp: ResponseData,
    retries: int,
) -> RunModel<M::V>
    decreases MAX_RETRIES - retries,
{
    let (ms1, req1, rexit) = request_phase::<M>(ms, req, 0);
    match rexit {
        PhaseExit::Synthetic(r) => RunModel::Delivered { ms: ms1, req: req1, resp: r, retries },
        PhaseExit::Retry => {
            if retries + 1 >= MAX_RETRIES {
                RunModel::Delivered { ms: ms1, req: req1, resp, retries: retries + 1 }
            } else {
                run_model::<M>(ms1, req1, resp, retries + 1)
            }
        }
        PhaseExit::Completed => {
            let (ms2, resp2, pexit) = response_phase::<M>(ms1, resp, ms1.len() - 1);
            match pexit {
                PhaseExit::Completed => RunModel::Delivered {
                    ms: ms2,
                    req: req1,
                    resp: resp2,
                    retries,
                },
                PhaseExit::Retry => {
                    if retries + 1 >= MAX_RETRIES {
                        RunModel::Delivered { ms: ms2, req: req1, resp: resp2, retries: retries + 1 }
                    } else {
                        run_model::<M>(ms2, req1, resp2, retries + 1)
                    }
                }
                PhaseExit::Synthetic(_) => RunModel::Faulted { ms: ms2, req: req1 },
            }
        }
    }
}

/// What the caller receives for a run that ended with response contents
/// `resp` after `retries` retries: tagged with the retry count when any
/// retry occurred, untouched otherwise.
pub open spec fn delivered_response(resp: ResponseData, retries: int) -> ResponseData {
    if retries > 0 {
        ResponseData {
            headers: set_header_data(resp.headers, "x-retries"@, dec_str(retries as nat)),
            ..resp
        }
    } else {
        resp
    }
}

/// The single fatal error of a run: a middleware returned a synthetic
/// response from its response-phase hook, which the engine does not accept.
#[derive(Debug)]
pub enum RunError {
    ResponseSynthetic,
}

/// How one executed pass of the chain ended.
enum PassExit {
    Completed,
    Retry,
    ShortCircuit(Response),
    Fault,
}

/// The middleware pipeline: an ordered chain of middleware, run forward over
/// the request and backward over the response.
pub struct FastRack<M: Middleware> {
    pub middleware: Vec<M>,
}

impl<M: Middleware> View for FastRack<M> {
    type V = Seq<M::V>;

    open spec fn view(&self) -> Seq<M::V> {
        self.middleware@.map_values(|m: M| m@)
    }
}

impl<M: Middleware> FastRack<M> {
    /// An empty pipeline.
    pub fn new() -> (r: Self)
        ensures
            r@ == Seq::<M::V>::empty(),
    {
        let r = FastRack { middleware: Vec::new() };
        proof {
            assert(r@ =~= Seq::<M::V>::empty());
        }
        r
    }

    /// Appends `middleware` to the chain; registration order is request-phase
    /// execution order.
    pub fn add(&mut self, middleware: M)
        ensures
            final(self)@ == old(self)@.push(middleware@),
    {
        let ghost mv = middleware@;
        self.middleware.push(middleware);
        proof {
            assert(self@ =~= old(self)@.push(mv));
        }
    }

    /// One pass: the request phase in registration order and, if every
    /// middleware continued, the response phase in reverse order.
    #[verifier::loop_isolation(false)]
    fn run_inner(&mut self, request: &mut Request, response: &mut Response) -> (exit: PassExit)
        ensures
            ({
                let (ms1, req1, rexit) = request_phase::<M>(old(self)@, old(request)@, 0);
                match rexit {
                    PhaseExit::Retry => {
                        &&& exit is Retry
                        &&& final(self)@ == ms1
                        &&& final(request)@ == req1
                        &&& *final(response) == *old(response)
                    }
                    PhaseExit::Synthetic(r) => {
                        &&& (exit matches PassExit::ShortCircuit(sr) && sr@ == r)
                        &&& final(self)@ == ms1
                        &&& final(request)@ == req1
                        &&& *final(response) == *old(response)
                    }
                    PhaseExit::Completed => {
                        let (ms2, resp2, pexit) = response_phase::<M>(
                            ms1,
                            old(response)@,
                            ms1.len() - 1,
                        );
                        match pexit {
                            PhaseExit::Completed => {
                                &&& exit is Completed
                                &&& final(self)@ == ms2
                                &&& final(request)@ == req1
                                &&& final(response)@ == resp2
                            }
                            PhaseExit::Retry => {
                                &&& exit is Retry
                                &&& final(self)@ == ms2
                                &&& final(request)@ == req1
                                &&& final(response)@ == resp2
                            }
                            PhaseExit::Synthetic(_) => {
                                &&& exit is Fault
                                &&& final(self)@ == ms2
                                &&& final(request)@ == req1
                            }
                        }
                    }
                }
            }),
    {
        let ghost ms0 = self@;
        let ghost req0 = request@;
        let n = self.middleware.len();
        let mut i: usize = 0;
        while i < n
            invariant
                i <= n,
                n == self.middleware.len(),
                request_phase::<M>(ms0, req0, 0) == request_phase::<M>(self@, request@, i as int),
            decreases n - i,
        {
            let ghost pre_ms = self@;
            let ghost pre_req = request@;
            let r = {
                let m = &mut self.middleware[i];
                m.req(request)
            };
            proof {
                assert(self@ =~= pre_ms.update(i as int, self.middleware@[i as int]@));
            }
            match r {
                Ok(()) => {
                    i += 1;
                }
                Err(RackError::Retry) => {
                    proof {
                        assert(request_phase::<M>(pre_ms, pre_req, i as int) == (
                            self@,
                            request@,
                            PhaseExit::Retry,
                        ));
                    }
                    return PassExit::Retry;
                }
                Err(RackError::Synthetic(resp)) => {
                    proof {
                        assert(request_phase::<M>(pre_ms, pre_req, i as int) == (
                            self@,
                            request@,
                            PhaseExit::Synthetic(resp@),
                        ));
                    }
                    return PassExit::ShortCircuit(resp);
                }
            }
        }
        let ghost ms1 = self@;
        let ghost resp0 = response@;
        let mut j = n;
        while j > 0
            invariant
                j <= n,
                n == self.middleware.len(),
                response_phase::<M>(ms1, resp0, n - 1) == response_phase::<M>(
                    self@,
                    response@,
                    j - 1,
                ),
            decreases j,
        {
            j -= 1;
            let ghost pre_ms = self@;
            let ghost pre_resp = response@;
            let r = {
                let m = &mut self.middleware[j];
                m.resp(response)
            };
            proof {
                assert(self@ =~= pre_ms.update(j as int, self.middleware@[j as int]@));
            }
            match r {
                Ok(()) => {}
                Err(RackError::Retry) => {
                    proof {
                        assert(response_phase::<M>(pre_ms, pre_resp, j as int) == (
                            self@,
                            response@,
                            PhaseExit::Retry,
                        ));
                    }
                    return PassExit::Retry;
                }
                Err(RackError::Synthetic(sr)) => {
                    proof {
                        assert(response_phase::<M>(pre_ms, pre_resp, j as int) == (
                            self@,
                            response@,
                            PhaseExit::Synthetic(sr@),
                        ));
                    }
                    return PassExit::Fault;
                }
            }
        }
        PassExit::Completed
    }

    /// Tags `response` with the retry count when any retry occurred.
    fn deliver(response: Response, retries: u8) -> (r: Response)
        requires
            retries <= MAX_RETRIES,
        ensures
            r@ == delivered_response(response@, retries as int),
    {
        let mut out = response;
        if retries > 0 {
            let value = Self::retry_header_value(retries);
            out.set_header("x-retries", value);
        }
        out
    }

    /// The decimal notation of a positive retry count.
    fn retry_header_value(retries: u8) -> (r: String)
        requires
            1 <= retries <= MAX_RETRIES,
        ensures
            r@ == dec_str(retries as nat),
    {
        proof {
            reveal_strlit("1");
            reveal_strlit("2");
            reveal_strlit("3");
        }
        if retries == 1 {
            "1".to_owned()
        } else if retries == 2 {
            "2".to_owned()
        } else {
            "3".to_owned()
        }
    }

    /// Runs the pipeline once over `request`.
    ///
    /// The result is exactly what [`run_model`] says of the registered
    /// middleware's models: the response a completed pass or a short-circuit
    /// produced (tagged with the retry count when any retry occurred), or the
    /// single fatal error when a middleware returned a synthetic response
    /// during the response phase.
    #[verifier::loop_isolation(false)]
    pub fn run(&mut self, request: &mut Request) -> (r: Result<Response, RunError>)
        ensures
            ({
                let out = run_model::<M>(old(self)@, old(request)@, Response::default_data(), 0);
                match out {
                    RunModel::Delivered { ms, req, resp, retries } => {
                        &&& (r matches Ok(response) && response@ == delivered_response(
                            resp,
                            retries,
                        ))
                        &&& final(self)@ == ms
                        &&& final(request)@ == req
                    }
                    RunModel::Faulted { ms, req } => {
                        &&& r == Result::<Response, RunError>::Err(RunError::ResponseSynthetic)
                        &&& final(self)@ == ms
                        &&& final(request)@ == req
                    }
                }
            }),
    {
        let mut response = Response::new();
        let mut retries: u8 = 0;
        loop
            invariant
                retries < MAX_RETRIES,
                run_model::<M>(old(self)@, old(request)@, Response::default_data(), 0)
                    == run_model::<M>(self@, request@, response@, retries as int),
            decreases MAX_RETRIES - retries,
        {
            let ghost pre_ms = self@;
            let ghost pre_req = request@;
            let ghost pre_resp = response@;
            let exit = self.run_inner(request, &mut response);
            match exit {
                PassExit::Completed => {
                    return Ok(Self::deliver(response, retries));
                }
                PassExit::ShortCircuit(resp) => {
                    return Ok(Self::deliver(resp, retries));
                }
                PassExit::Retry => {
                    retries = retries + 1;
                    if retries >= MAX_RETRIES {
                        return Ok(Self::deliver(response, retries));
                    }
                }
                PassExit::Fault => {
                    return Err(RunError::ResponseSynthetic);
                }
            }
        }
    }
}

} // verus!

//! The pipeline's guarantees, stated and proved over the ghost model:
//! traversal order, short-circuiting, the retry bound, the retry-count
//! annotation, the single-pass run, and the independence of runs over
//! stateless middleware.

use vstd::prelude::*;

use crate::http::{
    dec_str, has_header, header_lookup, remove_header, RequestData, Response, ResponseData,
};
use crate::rack::{
    delivered_response, request_phase, response_phase, run_model, Middleware, OutcomeData,
    PhaseExit, RunModel, MAX_RETRIES,
};

verus! {

/// The positions whose request hook the request phase invokes from `i` on,
/// in call order.
pub open spec fn request_phase_calls<M: Middleware>(
    ms: Seq<M::V>,
    req: RequestData,
    i: int,
) -> Seq<int>
    decreases ms.len() - i,
{
    if i < 0 || i >= ms.len() {
        Seq::empty()
    } else {
        let (m2, req2, out) = M::req_model(ms[i], req);
        match out {
            OutcomeData::Continue => seq![i] + request_phase_calls::<M>(
                ms.update(i, m2),
                req2,
                i + 1,
            ),
            OutcomeData::Retry => seq![i],
            OutcomeData::Synthetic(_) => seq![i],
        }
    }
}

/// The positions whose response hook the response phase invokes from `i`
/// down, in call order.
pub open spec fn response_phase_calls<M: Middleware>(
    ms: Seq<M::V>,
    resp: ResponseData,
    i: int,
) -> Seq<int>
    decreases i + 1,
{
    if i < 0 {
        Seq::empty()
    } else {
        let (m2, resp2, out) = M::resp_model(ms[i], resp);
        match out {
            OutcomeData::Continue => seq![i] + response_phase_calls::<M>(
                ms.update(i, m2),
                resp2,
                i - 1,
            ),
            OutcomeData::Retry => seq![i],
            OutcomeData::Synthetic(_) => seq![i],
        }
    }
}

proof fn lemma_request_calls_contiguous<M: Middleware>(ms: Seq<M::V>, req: RequestData, i: int)
    ensures
        request_phase_calls::<M>(ms, req, i) =~= Seq::new(
            request_phase_calls::<M>(ms, req, i).len(),
            |k: int| i + k,
        ),
    decreases ms.len() - i,
{
    if i < 0 || i >= ms.len() {
    } else {
        let (m2, req2, out) = M::req_model(ms[i], req);
        match out {
            OutcomeData::Continue => {
                lemma_request_calls_contiguous::<M>(ms.update(i, m2), req2, i + 1);
            }
            OutcomeData::Retry => {}
            OutcomeData::Synthetic(_) => {}
        }
    }
}

/// Law: when the request phase completes, it has invoked every middleware's
/// request hook, in registration order `0, 1, ..., N - 1`.
pub proof fn lemma_request_phase_order<M: Middleware>(ms: Seq<M::V>, req: RequestData)
    requires
        request_phase::<M>(ms, req, 0).2 is Completed,
    ensures
        request_phase_calls::<M>(ms, req, 0) =~= Seq::new(ms.len(), |k: int| k),
{
    lemma_request_order_from::<M>(ms, req, 0);
}

proof fn lemma_request_order_from<M: Middleware>(ms: Seq<M::V>, req: RequestData, i: int)
    requires
        0 <= i <= ms.len(),
        request_phase::<M>(ms, req, i).2 is Completed,
    ensures
        request_phase_calls::<M>(ms, req, i) =~= Seq::new((ms.len() - i) as nat, |k: int| i + k),
    decreases ms.len() - i,
{
    if i == ms.len() {
    } else {
        let (m2, req2, out) = M::req_model(ms[i], req);
        let ms2 = ms.update(i, m2);
        match out {
            OutcomeData::Continue => {
                lemma_request_order_from::<M>(ms2, req2, i + 1);
            }
            OutcomeData::Retry => {
                assert(false);
            }
            OutcomeData::Synthetic(_) => {
                assert(false);
            }
        }
    }
}

/// Law: when the response phase completes, it has invoked every middleware's
/// response hook, in reverse registration order `N - 1, ..., 1, 0`.
pub proof fn lemma_response_phase_order<M: Middleware>(ms: Seq<M::V>, resp: ResponseData)
    requires
        response_phase::<M>(ms, resp, ms.len() - 1).2 is Completed,
    ensures
        response_phase_calls::<M>(ms, resp, ms.len() - 1) =~= Seq::new(
            ms.len(),
            |k: int| ms.len() - 1 - k,
        ),
{
    lemma_response_order_from::<M>(ms, resp, ms.len() - 1);
}

proof fn lemma_response_order_from<M: Middleware>(ms: Seq<M::V>, resp: ResponseData, i: int)
    requires
        -1 <= i < ms.len(),
        response_phase::<M>(ms, resp, i).2 is Completed,
    ensures
        response_phase_calls::<M>(ms, resp, i) =~= Seq::new((i + 1) as nat, |k: int| i - k),
    decreases i + 1,
{
    if i < 0 {
    } else {
        let (m2, resp2, out) = M::resp_model(ms[i], resp);
        let ms2 = ms.update(i, m2);
        match out {
            OutcomeData::Continue => {
                lemma_response_order_from::<M>(ms2, resp2, i - 1);
            }
            OutcomeData::Retry => {
                assert(false);
            }
            OutcomeData::Synthetic(_) => {
                assert(false);
            }
        }
    }
}

/// Law: a synthetic outcome during the request phase short-circuits the run.
/// The hooks invoked are exactly the contiguous prefix of positions up to the
/// middleware that produced it, no response hook runs, no retry is recorded,
/// and the synthetic response is delivered exactly as produced.
pub proof fn lemma_short_circuit<M: Middleware>(ms: Seq<M::V>, req: RequestData, r: ResponseData)
    requires
        request_phase::<M>(ms, req, 0).2 == PhaseExit::Synthetic(r),
    ensures
        ({
            let calls = request_phase_calls::<M>(ms, req, 0);
            let out = run_model::<M>(ms, req, Response::default_data(), 0);
            &&& calls =~= Seq::new(calls.len(), |k: int| k)
            &&& (out matches RunModel::Delivered { resp, retries, .. } && resp == r && retries
                == 0)
            &&& delivered_response(r, 0) == r
        }),
{
    lemma_request_calls_contiguous::<M>(ms, req, 0);
}

proof fn lemma_remove_header_no_match(hs: Seq<(Seq<char>, Seq<char>)>, name: Seq<char>)
    ensures
        forall|i: int|
            0 <= i < remove_header(hs, name).len() ==> (#[trigger] remove_header(hs, name)[i]).0
                != name,
    decreases hs.len(),
{
    if hs.len() == 0 {
    } else {
        lemma_remove_header_no_match(hs.drop_last(), name);
        let rest = remove_header(hs.drop_last(), name);
        let out = remove_header(hs, name);
        assert forall|i: int| 0 <= i < out.len() implies (#[trigger] out[i]).0 != name by {
            if hs.last().0 == name || i < rest.len() {
                assert(out[i] == rest[i]);
            } else {
                assert(out[i] == hs.last());
            }
        }
    }
}

proof fn lemma_lookup_no_match_push(
    hs: Seq<(Seq<char>, Seq<char>)>,
    name: Seq<char>,
    value: Seq<char>,
)
    requires
        forall|i: int| 0 <= i < hs.len() ==> (#[trigger] hs[i]).0 != name,
    ensures
        header_lookup(hs.push((name, value)), name) == Some(value),
    decreases hs.len(),
{
    let p = hs.push((name, value));
    if hs.len() == 0 {
        assert(p[0] == (name, value));
    } else {
        assert(p[0] == hs[0]);
        assert(p.drop_first() =~= hs.drop_first().push((name, value)));
        assert forall|i: int| 0 <= i < hs.drop_first().len() implies (#[trigger] hs.drop_first()[
            i
        ]).0 != name by {
            assert(hs.drop_first()[i] == hs[i + 1]);
        }
        lemma_lookup_no_match_push(hs.drop_first(), name, value);
    }
}

/// Law: a run with a positive retry count delivers a response whose
/// retry-count header holds exactly the decimal notation of that count.
pub proof fn lemma_annotation_present(resp: ResponseData, retries: int)
    requires
        retries > 0,
    ensures
        header_lookup(delivered_response(resp, retries).headers, "x-retries"@) == Some(
            dec_str(retries as nat),
        ),
{
    lemma_remove_header_no_match(resp.headers, "x-retries"@);
    lemma_lookup_no_match_push(
        remove_header(resp.headers, "x-retries"@),
        "x-retries"@,
        dec_str(retries as nat),
    );
}

/// Law: a run with zero retries delivers the response of the phases
/// untouched; in particular, when no middleware set a retry-count header
/// itself, none is present on the delivered response.
pub proof fn lemma_no_retries_no_annotation(resp: ResponseData)
    ensures
        delivered_response(resp, 0) == resp,
        !has_header(resp.headers, "x-retries"@) ==> !has_header(
            delivered_response(resp, 0).headers,
            "x-retries"@,
        ),
{
}

/// Law: middleware that always asks for a retry exhausts the bound: the run
/// terminates after exactly `MAX_RETRIES` retries, the in-flight response is
/// delivered as it stood, and its retry-count header reads the decimal
/// notation of `MAX_RETRIES`.
pub proof fn lemma_retry_bound<M: Middleware>(ms: Seq<M::V>, req: RequestData, resp: ResponseData)
    requires
        ms.len() > 0,
        forall|m: M::V, q: RequestData| (#[trigger] M::req_model(m, q)).2 is Retry,
    ensures
        ({
            let out = run_model::<M>(ms, req, resp, 0);
            &&& (out matches RunModel::Delivered { resp: r2, retries, .. } && retries
                == MAX_RETRIES as int && r2 == resp)
            &&& header_lookup(
                delivered_response(resp, MAX_RETRIES as int).headers,
                "x-retries"@,
            ) == Some(dec_str(MAX_RETRIES as nat))
        }),
{
    lemma_retry_bound_from::<M>(ms, req, resp, 0);
    lemma_annotation_present(resp, MAX_RETRIES as int);
}

proof fn lemma_retry_bound_from<M: Middleware>(
    ms: Seq<M::V>,
    req: RequestData,
    resp: ResponseData,
    k: int,
)
    requires
        ms.len() > 0,
        0 <= k < MAX_RETRIES,
        forall|m: M::V, q: RequestData| (#[trigger] M::req_model(m, q)).2 is Retry,
    ensures
        run_model::<M>(ms, req, resp, k) matches RunModel::Delivered {
            resp: r2,
            retries,
            ..
        } && retries == MAX_RETRIES as int && r2 == resp,
    decreases MAX_RETRIES - k,
{
    let (m2, req2, _) = M::req_model(ms[0], req);
    assert(request_phase::<M>(ms, req, 0) == (ms.update(0, m2), req2, PhaseExit::Retry));
    if k + 1 < MAX_RETRIES {
        lemma_retry_bound_from::<M>(ms.update(0, m2), req2, resp, k + 1);
    }
}

proof fn lemma_request_all_continue<M: Middleware>(ms: Seq<M::V>, req: RequestData, i: int)
    requires
        0 <= i <= ms.len(),
        forall|m: M::V, q: RequestData| (#[trigger] M::req_model(m, q)).2 is Continue,
    ensures
        request_phase::<M>(ms, req, i).2 is Completed,
        request_phase::<M>(ms, req, i).0.len() == ms.len(),
    decreases ms.len() - i,
{
    if i == ms.len() {
    } else {
        let (m2, req2, _) = M::req_model(ms[i], req);
        lemma_request_all_continue::<M>(ms.update(i, m2), req2, i + 1);
    }
}

proof fn lemma_response_all_continue<M: Middleware>(ms: Seq<M::V>, resp: ResponseData, i: int)
    requires
        -1 <= i < ms.len(),
        forall|m: M::V, p: ResponseData| (#[trigger] M::resp_model(m, p)).2 is Continue,
    ensures
        response_phase::<M>(ms, resp, i).2 is Completed,
    decreases i + 1,
{
    if i < 0 {
    } else {
        let (m2, resp2, _) = M::resp_model(ms[i], resp);
        lemma_response_all_continue::<M>(ms.update(i, m2), resp2, i - 1);
    }
}

/// Law: when every middleware continues in both phases, the run is a single
/// pass: no retry is recorded and the response the response phase produced is
/// delivered untouched.
pub proof fn lemma_full_pass<M: Middleware>(ms: Seq<M::V>, req: RequestData, resp: ResponseData)
    requires
        forall|m: M::V, q: RequestData| (#[trigger] M::req_model(m, q)).2 is Continue,
        forall|m: M::V, p: ResponseData| (#[trigger] M::resp_model(m, p)).2 is Continue,
    ensures
        ({
            let out = run_model::<M>(ms, req, resp, 0);
            &&& (out matches RunModel::Delivered { retries, .. } && retries == 0)
            &&& (out matches RunModel::Delivered { resp: r2, .. } && delivered_response(r2, 0)
                == r2)
        }),
{
    lemma_request_all_continue::<M>(ms, req, 0);
    let (ms1, req1, _) = request_phase::<M>(ms, req, 0);
    lemma_response_all_continue::<M>(ms1, resp, ms1.len() - 1);
}

/// The middleware states a run leaves behind.
pub open spec fn run_model_middleware<V>(out: RunModel<V>) -> Seq<V> {
    match out {
        RunModel::Delivered { ms, .. } => ms,
        RunModel::Faulted { ms, .. } => ms,
    }
}

proof fn lemma_stateless_request_phase<M: Middleware>(ms: Seq<M::V>, req: RequestData, i: int)
    requires
        forall|m: M::V, q: RequestData| (#[trigger] M::req_model(m, q)).0 == m,
    ensures
        request_phase::<M>(ms, req, i).0 =~= ms,
    decreases ms.len() - i,
{
    if i < 0 || i >= ms.len() {
    } else {
        let (m2, req2, out) = M::req_model(ms[i], req);
        assert(ms.update(i, m2) =~= ms);
        match out {
            OutcomeData::Continue => {
                lemma_stateless_request_phase::<M>(ms.update(i, m2), req2, i + 1);
            }
            OutcomeData::Retry => {}
            OutcomeData::Synthetic(_) => {}
        }
    }
}

proof fn lemma_stateless_response_phase<M: Middleware>(ms: Seq<M::V>, resp: ResponseData, i: int)
    requires
        i < ms.len(),
        forall|m: M::V, p: ResponseData| (#[trigger] M::resp_model(m, p)).0 == m,
    ensures
        response_phase::<M>(ms, resp, i).0 =~= ms,
    decreases i + 1,
{
    if i < 0 {
    } else {
        let (m2, resp2, out) = M::resp_model(ms[i], resp);
        assert(ms.update(i, m2) =~= ms);
        match out {
            OutcomeData::Continue => {
                lemma_stateless_response_phase::<M>(ms.update(i, m2), resp2, i - 1);
            }
            OutcomeData::Retry => {}
            OutcomeData::Synthetic(_) => {}
        }
    }
}

proof fn lemma_stateless_run<M: Middleware>(
    ms: Seq<M::V>,
    req: RequestData,
    resp: ResponseData,
    k: int,
)
    requires
        forall|m: M::V, q: RequestData| (#[trigger] M::req_model(m, q)).0 == m,
        forall|m: M::V, p: ResponseData| (#[trigger] M::resp_model(m, p)).0 == m,
    ensures
        run_model_middleware(run_model::<M>(ms, req, resp, k)) == ms,
    decreases MAX_RETRIES - k,
{
    lemma_stateless_request_phase::<M>(ms, req, 0);
    let (ms1, req1, rexit) = request_phase::<M>(ms, req, 0);
    match rexit {
        PhaseExit::Synthetic(_) => {}
        PhaseExit::Retry => {
            if k + 1 < MAX_RETRIES {
                lemma_stateless_run::<M>(ms1, req1, resp, k + 1);
            }
        }
        PhaseExit::Completed => {
            lemma_stateless_response_phase::<M>(ms1, resp, ms1.len() - 1);
            let (ms2, resp2, pexit) = response_phase::<M>(ms1, resp, ms1.len() - 1);
            match pexit {
                PhaseExit::Completed => {}
                PhaseExit::Retry => {
                    if k + 1 < MAX_RETRIES {
                        lemma_stateless_run::<M>(ms2, req1, resp2, k + 1);
                    }
                }
                PhaseExit::Synthetic(_) => {}
            }
        }
    }
}

/// Law: stateless middleware make consecutive runs independent. A run leaves
/// such middleware exactly as registered, so a second run over another
/// request behaves as a run from the registration state would.
pub proof fn lemma_stateless_runs_independent<M: Middleware>(
    ms: Seq<M::V>,
    first: RequestData,
    second: RequestData,
)
    requires
        forall|m: M::V, q: RequestData| (#[trigger] M::req_model(m, q)).0 == m,
        forall|m: M::V, p: ResponseData| (#[trigger] M::resp_model(m, p)).0 == m,
    ensures
        ({
            let after = run_model_middleware(
                run_model::<M>(ms, first, Response::default_data(), 0),
            );
            &&& after == ms
            &&& run_model::<M>(after, second, Response::default_data(), 0) == run_model::<M>(
                ms,
                second,
                Response::default_data(),
                0,
            )
        }),
{
    lemma_stateless_run::<M>(ms, first, Response::default_data(), 0);
}

} // verus!

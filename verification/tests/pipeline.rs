use fast_rack::{
    AlwaysRetry, FastRack, Request, Response, RetryRequest, RunError, Stage, Stamp,
    SyntheticOnResponse, SyntheticResponse,
};

#[test]
fn it_responds_with_a_synthetic() {
    let mut rack = FastRack::new();
    rack.add(SyntheticResponse { body: b"foo".to_vec(), status: 418 });

    let mut request = Request::new();
    let response = rack.run(&mut request).expect("run failed");

    assert_eq!(418, response.status);
    assert_eq!(b"foo".to_vec(), response.body);
    assert!(response.get_header("x-retries").is_none());
}

#[test]
fn it_retries_requests() {
    let mut rack = FastRack::new();
    rack.add(RetryRequest::new(2));

    let mut request = Request::new();
    let response = rack.run(&mut request).expect("run failed");

    assert_eq!(200, response.status);
    let retries_header = response.get_header("x-retries").expect("retries header missing");
    assert_eq!("2", retries_header);
}

#[test]
fn one_retry_is_annotated_as_one() {
    let mut rack = FastRack::new();
    rack.add(RetryRequest::new(1));

    let mut request = Request::new();
    let response = rack.run(&mut request).expect("run failed");

    assert_eq!(200, response.status);
    assert_eq!("1", response.get_header("x-retries").expect("retries header missing"));
}

#[test]
fn retry_exhaustion_stops_at_the_bound() {
    let mut rack = FastRack::new();
    rack.add(AlwaysRetry {});

    let mut request = Request::new();
    let response = rack.run(&mut request).expect("run failed");

    assert_eq!(200, response.status);
    assert_eq!(Vec::<u8>::new(), response.body);
    assert_eq!("3", response.get_header("x-retries").expect("retries header missing"));
}

#[test]
fn full_pass_returns_the_default_response() {
    let mut rack = FastRack::new();
    rack.add(RetryRequest::new(0));

    let mut request = Request::new();
    let response = rack.run(&mut request).expect("run failed");

    assert_eq!(200, response.status);
    assert_eq!(Vec::<u8>::new(), response.body);
    assert!(response.headers.is_empty());
}

#[test]
fn empty_pipeline_returns_the_default_response() {
    let mut rack: FastRack<Stamp> = FastRack::new();

    let mut request = Request::new();
    let response = rack.run(&mut request).expect("run failed");

    assert_eq!(200, response.status);
    assert_eq!(Vec::<u8>::new(), response.body);
    assert!(response.headers.is_empty());
}

#[test]
fn phases_traverse_in_registration_order_then_in_reverse() {
    let mut rack = FastRack::new();
    rack.add(Stamp { tag: 1 });
    rack.add(Stamp { tag: 2 });
    rack.add(Stamp { tag: 3 });

    let mut request = Request::new();
    let response = rack.run(&mut request).expect("run failed");

    assert_eq!(vec![1, 2, 3], request.body);
    assert_eq!(vec![3, 2, 1], response.body);
}

#[test]
fn synthetic_short_circuits_the_rest_of_the_chain() {
    let mut rack = FastRack::new();
    rack.add(Stage::Stamp(Stamp { tag: 1 }));
    rack.add(Stage::Synthetic(SyntheticResponse { body: b"foo".to_vec(), status: 418 }));
    rack.add(Stage::Stamp(Stamp { tag: 9 }));

    let mut request = Request::new();
    let response = rack.run(&mut request).expect("run failed");

    assert_eq!(vec![1], request.body);
    assert_eq!(418, response.status);
    assert_eq!(b"foo".to_vec(), response.body);
    assert!(response.get_header("x-retries").is_none());
}

#[test]
fn response_phase_synthetic_is_fatal() {
    let mut rack = FastRack::new();
    rack.add(SyntheticOnResponse {});

    let mut request = Request::new();
    let result = rack.run(&mut request);

    assert!(matches!(result, Err(RunError::ResponseSynthetic)));
}

#[test]
fn retry_restarts_the_whole_pipeline() {
    let mut rack = FastRack::new();
    rack.add(Stage::Stamp(Stamp { tag: 7 }));
    rack.add(Stage::Retry(RetryRequest::new(1)));

    let mut request = Request::new();
    let response = rack.run(&mut request).expect("run failed");

    assert_eq!(vec![7, 7], request.body);
    assert_eq!(vec![7], response.body);
    assert_eq!("1", response.get_header("x-retries").expect("retries header missing"));
}

#[test]
fn stateless_middleware_makes_runs_independent() {
    let mut rack = FastRack::new();
    rack.add(Stamp { tag: 5 });

    let mut first = Request::new();
    let first_response = rack.run(&mut first).expect("run failed");
    let mut second = Request::new();
    let second_response = rack.run(&mut second).expect("run failed");

    assert_eq!(vec![5], first.body);
    assert_eq!(vec![5], second.body);
    assert_eq!(first_response.body, second_response.body);
    assert_eq!(first_response.status, second_response.status);
}

#[test]
fn middleware_state_persists_across_runs_of_one_rack() {
    let mut rack = FastRack::new();
    rack.add(RetryRequest::new(2));

    let mut first = Request::new();
    let first_response = rack.run(&mut first).expect("run failed");
    assert_eq!("2", first_response.get_header("x-retries").expect("retries header missing"));

    let mut second = Request::new();
    let second_response = rack.run(&mut second).expect("run failed");
    assert!(second_response.get_header("x-retries").is_none());
}

#[test]
fn set_header_replaces_an_existing_value() {
    let mut response = Response::new();
    response.set_header("a", String::from("1"));
    response.set_header("a", String::from("2"));
    response.set_header("b", String::from("3"));

    assert_eq!("2", response.get_header("a").expect("header a missing"));
    assert_eq!("3", response.get_header("b").expect("header b missing"));
    assert!(response.get_header("c").is_none());
    assert_eq!(2, response.headers.len());
}

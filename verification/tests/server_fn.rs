use leptos_spin::headers::Headers;
use leptos_spin::registry::RpcError;
use leptos_spin::request_parts::{RequestMethod, RequestParts};
use leptos_spin::response::{SpinBody, SpinResponse, SpinResponseParts};
use leptos_spin::response_options::ResponseOptions;
use leptos_spin::server_fn::{
    apply_redirect_heuristic, complete_response, error_reply, redirect, request_accepts_html,
};

fn request(headers: &[(&str, &str)]) -> RequestParts {
    RequestParts::new(
        RequestMethod::Post,
        None,
        headers
            .iter()
            .map(|(k, v)| (k.to_string(), v.as_bytes().to_vec()))
            .collect(),
    )
}

fn list(entries: &[(&str, &str)]) -> Vec<(String, Vec<u8>)> {
    entries
        .iter()
        .map(|(k, v)| (k.to_string(), v.as_bytes().to_vec()))
        .collect()
}

#[test]
fn form_submission_is_redirected_to_the_referer() {
    let req = request(&[("Accept", "text/html"), ("Referer", "https://a.test/form")]);
    let mut opts = ResponseOptions::default_without_headers();
    apply_redirect_heuristic(&req, &mut opts);
    assert_eq!(Some(302), opts.status());
    assert_eq!(
        &list(&[("Location", "https://a.test/form")]),
        opts.headers().entries()
    );
}

#[test]
fn scripted_call_is_left_untouched() {
    let req = request(&[("Accept", "application/json"), ("Referer", "https://a.test/form")]);
    let mut opts = ResponseOptions::default_without_headers();
    apply_redirect_heuristic(&req, &mut opts);
    assert_eq!(None, opts.status());
    assert_eq!(0, opts.headers().len());
    redirect("/next", &req, &mut opts);
    assert_eq!(None, opts.status());
    assert_eq!(
        &list(&[("Location", "/next"), ("serverfnredirect", "")]),
        opts.headers().entries()
    );
}

#[test]
fn handler_redirect_of_a_form_submission_is_a_real_redirect() {
    let req = request(&[("accept", "text/html"), ("referer", "https://a.test/form")]);
    let mut opts = ResponseOptions::default_without_headers();
    redirect("/done", &req, &mut opts);
    assert_eq!(Some(302), opts.status());
    assert_eq!(&list(&[("Location", "/done")]), opts.headers().entries());
    apply_redirect_heuristic(&req, &mut opts);
    assert_eq!(Some(302), opts.status());
    assert_eq!(&list(&[("Location", "/done")]), opts.headers().entries());
}

#[test]
fn explicit_status_and_location_are_kept() {
    let req = request(&[("Accept", "text/html"), ("Referer", "https://a.test/form")]);
    let mut opts = ResponseOptions::default_without_headers();
    opts.set_status(303);
    opts.insert_header("location", b"/elsewhere".to_vec());
    apply_redirect_heuristic(&req, &mut opts);
    assert_eq!(Some(303), opts.status());
    assert_eq!(&list(&[("location", "/elsewhere")]), opts.headers().entries());
}

#[test]
fn accept_must_be_exactly_html() {
    assert!(request_accepts_html(&request(&[("Accept", "text/html")])));
    assert!(request_accepts_html(&request(&[("ACCEPT", "text/html")])));
    assert!(!request_accepts_html(&request(&[("Accept", "text/html,application/xhtml+xml")])));
    assert!(!request_accepts_html(&request(&[("Accept", "text/htm")])));
    assert!(!request_accepts_html(&request(&[("Accept", "Text/Html")])));
    assert!(!request_accepts_html(&request(&[("Accept", "")])));
    assert!(!request_accepts_html(&request(&[])));
    assert!(!request_accepts_html(&request(&[
        ("Accept", "application/json"),
        ("Accept", "text/html")
    ])));
}

#[test]
fn form_submission_without_referer_gets_the_status_only() {
    let req = request(&[("Accept", "text/html")]);
    let mut opts = ResponseOptions::default_without_headers();
    apply_redirect_heuristic(&req, &mut opts);
    assert_eq!(Some(302), opts.status());
    assert_eq!(0, opts.headers().len());
}

#[test]
fn request_without_accept_is_left_untouched() {
    let req = request(&[("Referer", "https://a.test/form")]);
    let mut opts = ResponseOptions::default_without_headers();
    apply_redirect_heuristic(&req, &mut opts);
    assert_eq!(None, opts.status());
    assert_eq!(0, opts.headers().len());
}

#[test]
fn completed_response_of_a_form_submission() {
    let req = request(&[("Accept", "text/html"), ("Referer", "/form")]);
    let mut opts = ResponseOptions::default_without_headers();
    opts.insert_header("Content-Type", b"text/plain".to_vec());
    let response = SpinResponse::try_from_string("application/json", "{}".to_string());
    let done = complete_response(&req, opts, response);
    assert_eq!(302, done.0.status_code);
    assert_eq!(
        &list(&[("Content-Type", "text/plain"), ("Location", "/form")]),
        done.0.headers.entries()
    );
    assert!(matches!(done.0.body, SpinBody::Plain(ref b) if b == b"{}"));
}

#[test]
fn completed_response_of_a_scripted_call() {
    let req = request(&[("Accept", "application/json")]);
    let mut opts = ResponseOptions::default_without_headers();
    opts.append_header("Set-Cookie", b"a=1");
    let response = SpinResponse(SpinResponseParts {
        status_code: 201,
        headers: Headers::from_list(list(&[("Content-Type", "application/json"), ("X", "1")])),
        body: SpinBody::Streaming,
    });
    let done = complete_response(&req, opts, response);
    assert_eq!(201, done.0.status_code);
    assert_eq!(
        &list(&[
            ("Content-Type", "application/json"),
            ("X", "1"),
            ("Set-Cookie", "a=1")
        ]),
        done.0.headers.entries()
    );
    assert!(matches!(done.0.body, SpinBody::Streaming));
}

#[test]
fn status_of_the_options_replaces_that_of_the_response() {
    let req = request(&[]);
    let mut opts = ResponseOptions::default_without_headers();
    opts.set_status(418);
    let done = complete_response(&req, opts, SpinResponse::try_from_bytes("a/b", vec![1, 2]));
    assert_eq!(418, done.0.status_code);
    assert_eq!(&list(&[("Content-Type", "a/b")]), done.0.headers.entries());
}

#[test]
fn error_replies_are_bare() {
    let bad = error_reply(RpcError::BadRequest);
    assert_eq!(400, bad.0.status_code);
    assert_eq!(0, bad.0.headers.len());
    assert!(matches!(bad.0.body, SpinBody::Plain(ref b) if b.is_empty()));
    let missing = error_reply(RpcError::NotFound);
    assert_eq!(404, missing.0.status_code);
    assert_eq!(0, missing.0.headers.len());
    assert!(matches!(missing.0.body, SpinBody::Plain(ref b) if b.is_empty()));
}

//! What the dispatcher decides about a remote call: whether its response
//! becomes a redirect, and how the response is put together.

use crate::headers::{
    bytes_equal, clone_bytes, first_value, has_name, lemma_with_set_values, merge_headers, merged,
    select_status, status_or, values_of, with_set, HeaderSeq, Headers,
};
use crate::registry::RpcError;
use crate::request_parts::{find_first, RequestParts};
use crate::response::{BodyView, ResponseView, SpinBody, SpinResponse, SpinResponseParts};
use crate::response_options::{ResponseOptions, ResponseOptionsView};
use vstd::prelude::*;
use vstd::utf8::encode_utf8;

verus! {

/// The name of the header that tells a scripted caller to navigate by
/// itself.
pub open spec fn redirect_sentinel() -> Seq<char> {
    "serverfnredirect"@
}

/// The request is a plain form submission: the type it asks for is exactly
/// `text/html`.
pub open spec fn accepts_html(req: HeaderSeq) -> bool {
    first_value(req, "Accept"@) == Some(encode_utf8("text/html"@))
}

/// The options of a remote call after the redirect rule. For a plain form
/// submission a status that was not set becomes 302, and a location that
/// was not set becomes the referer of the request, if it has one. For any
/// other request nothing changes.
pub open spec fn redirected(req: HeaderSeq, opts: ResponseOptionsView) -> ResponseOptionsView {
    if accepts_html(req) {
        ResponseOptionsView {
            status: Some(status_or(opts.status, 302)),
            headers: match first_value(req, "Referer"@) {
                Some(referer) => if has_name(opts.headers, "Location"@) {
                    opts.headers
                } else {
                    with_set(opts.headers, "Location"@, referer)
                },
                None => opts.headers,
            },
        }
    } else {
        opts
    }
}

/// The options after a handler asked for a redirect to `path`. The location
/// is set in any case. A plain form submission gets the status 302; any
/// other request keeps its status and gets the sentinel header, with an
/// empty value, in place of a real redirect.
pub open spec fn redirect_applied(
    path: Seq<char>,
    req: HeaderSeq,
    opts: ResponseOptionsView,
) -> ResponseOptionsView {
    let located = with_set(opts.headers, "Location"@, encode_utf8(path));
    if accepts_html(req) {
        ResponseOptionsView { status: Some(302), headers: located }
    } else {
        ResponseOptionsView {
            status: opts.status,
            headers: with_set(located, redirect_sentinel(), Seq::empty()),
        }
    }
}

/// The response of a remote call as it is sent: the redirect rule is
/// applied to the options, the headers of the options are merged over those
/// of the function's response, and a status of the options replaces that of
/// the response.
pub open spec fn completed(
    req: HeaderSeq,
    opts: ResponseOptionsView,
    response: ResponseView,
) -> ResponseView {
    let after = redirected(req, opts);
    ResponseView {
        status_code: status_or(after.status, response.status_code),
        headers: merged(response.headers, after.headers),
        body: response.body,
    }
}

/// Tells whether a request is a plain form submission.
pub fn request_accepts_html(req: &RequestParts) -> (r: bool)
    ensures
        r == accepts_html(req.header_seq()),
{
    let list = req.headers();
    match find_first(list, "Accept") {
        Some(i) => bytes_equal(list[i].1.as_slice(), "text/html".as_bytes()),
        None => false,
    }
}

/// Applies the redirect rule to the options of a remote call.
pub fn apply_redirect_heuristic(req: &RequestParts, res_options: &mut ResponseOptions)
    ensures
        final(res_options)@ == redirected(req.header_seq(), old(res_options)@),
{
    if request_accepts_html(req) {
        let list = req.headers();
        match find_first(list, "Referer") {
            Some(i) => {
                if !res_options.has_header("Location") {
                    res_options.insert_header("Location", clone_bytes(&list[i].1));
                }
            },
            None => {},
        }
        if !res_options.status_is_set() {
            res_options.set_status(302);
        } else {
            let kept = res_options.status();
            proof {
                assert(kept == Some(status_or(old(res_options)@.status, 302)));
            }
        }
    }
}

/// Records that a handler asks for a redirect to `path`.
pub fn redirect(path: &str, req: &RequestParts, res_options: &mut ResponseOptions)
    ensures
        final(res_options)@ == redirect_applied(path@, req.header_seq(), old(res_options)@),
{
    res_options.insert_header("Location", path.as_bytes_vec());
    if request_accepts_html(req) {
        res_options.set_status(302);
    } else {
        res_options.insert_header("serverfnredirect", Vec::new());
    }
}

/// Puts the response of a remote call together.
pub fn complete_response(
    req: &RequestParts,
    res_options: ResponseOptions,
    response: SpinResponse,
) -> (r: SpinResponse)
    ensures
        r@ == completed(req.header_seq(), res_options@, response@),
{
    let mut options = res_options;
    apply_redirect_heuristic(req, &mut options);
    let SpinResponse(parts) = response;
    let SpinResponseParts { status_code, headers, body } = parts;
    let merged_headers = merge_headers(headers, options.headers());
    let status = select_status(options.status(), status_code);
    SpinResponse(SpinResponseParts { status_code: status, headers: merged_headers, body })
}

/// The response to a call that found no function: the status of the error,
/// no headers, an empty body.
pub fn error_reply(error: RpcError) -> (r: SpinResponse)
    ensures
        r@ == (ResponseView {
            status_code: error.status_spec(),
            headers: Seq::empty(),
            body: BodyView::Plain(Seq::empty()),
        }),
{
    SpinResponse(
        SpinResponseParts {
            status_code: error.status(),
            headers: Headers::new(),
            body: SpinBody::Plain(Vec::new()),
        },
    )
}

/// A plain form submission with no status and no location of its own is
/// answered with the status 302 and its referer as location.
pub proof fn lemma_form_submission_redirects(
    req: HeaderSeq,
    opts: ResponseOptionsView,
    referer: Seq<u8>,
)
    requires
        accepts_html(req),
        opts.status is None,
        !has_name(opts.headers, "Location"@),
        first_value(req, "Referer"@) == Some(referer),
    ensures
        redirected(req, opts).status == Some(302u16),
        values_of(redirected(req, opts).headers, "Location"@) == seq![referer],
{
    lemma_with_set_values(opts.headers, "Location"@, referer, "Location"@);
}

/// A request that does not ask for exactly `text/html` leaves the options
/// of a remote call as they are; where its handler asks for a redirect,
/// the status stays as it was and the sentinel header is set.
pub proof fn lemma_scripted_call_untouched(
    req: HeaderSeq,
    opts: ResponseOptionsView,
    path: Seq<char>,
)
    requires
        !accepts_html(req),
    ensures
        redirected(req, opts) == opts,
        redirect_applied(path, req, opts).status == opts.status,
        values_of(redirect_applied(path, req, opts).headers, redirect_sentinel()) == seq![
            Seq::<u8>::empty(),
        ],
{
    let located = with_set(opts.headers, "Location"@, encode_utf8(path));
    lemma_with_set_values(located, redirect_sentinel(), Seq::empty(), redirect_sentinel());
}

} // verus!

//! What the dispatcher decides about a request before any byte is produced:
//! where the request goes, and how a page is rendered and answered.

use crate::headers::{select_status, status_or, HeaderSeq, Headers};
use crate::request_parts::{url_text, RequestParts};
use crate::response_options::{page_default_headers, ResponseOptions};
use crate::route_table::{Outcome, RouteDescriptor, RouteMatch, RouteTable, SsrMode};
use crate::stream::{initial, initial_action, PageStream, StreamAction};
use crate::url_parts::{parse_url, url_parts, view_text, UrlParts};
use vstd::prelude::*;

verus! {

/// Where a request goes.
#[derive(Debug)]
pub enum Dispatch<'a> {
    /// To the page of a declared route, with the URL of the request.
    Page(&'a RouteDescriptor, UrlParts),
    /// To a remote function.
    ServerFn,
    /// Nowhere: no route matches its path.
    NotFound,
    /// Nowhere: the request carries no URL that can be read.
    BadRequest,
}

/// Where a request goes, as the contracts see it.
pub enum DispatchView {
    /// To the page at this place of the table, with this path and query.
    Page(int, Seq<char>, Option<Seq<char>>),
    ServerFn,
    NotFound,
    BadRequest,
}

/// Where a request with the given URL goes.
pub open spec fn dispatch_of(
    table: &RouteTable,
    url: Option<(Seq<char>, Option<Seq<char>>)>,
) -> DispatchView {
    match url {
        None => DispatchView::BadRequest,
        Some(parts) => match table.outcome(parts.0) {
            Outcome::Route(k) => DispatchView::Page(k, parts.0, parts.1),
            Outcome::Boundary => DispatchView::ServerFn,
            Outcome::NoMatch => DispatchView::NotFound,
        },
    }
}

/// The URL of a request, as the header that carries it is read.
pub open spec fn request_url(headers: HeaderSeq) -> Option<(Seq<char>, Option<Seq<char>>)> {
    match url_text(headers) {
        Some(text) => url_parts(text),
        None => None,
    }
}

/// A dispatch is the one that the contracts describe.
pub open spec fn dispatch_matches(d: Dispatch<'_>, table: &RouteTable, v: DispatchView) -> bool {
    match v {
        DispatchView::Page(k, path, query) => {
            &&& 0 <= k < table.descriptors().len()
            &&& d matches Dispatch::Page(listing, url)
            &&& *listing == table.descriptors()[k]
            &&& url.path@ == path
            &&& view_text(url.query) == query
        },
        DispatchView::ServerFn => d is ServerFn,
        DispatchView::NotFound => d is NotFound,
        DispatchView::BadRequest => d is BadRequest,
    }
}

/// Decides where a request goes, given its URL as it was read: to the page
/// or the remote call that the table finds for its path, and nowhere where
/// the table finds nothing or the URL could not be read.
pub fn dispatch_url<'a>(routes: &'a RouteTable, url: Option<UrlParts>) -> (r: Dispatch<'a>)
    requires
        routes.wf(),
    ensures
        dispatch_matches(
            r,
            routes,
            dispatch_of(
                routes,
                match url {
                    Some(parts) => Some((parts.path@, view_text(parts.query))),
                    None => None,
                },
            ),
        ),
{
    match url {
        None => Dispatch::BadRequest,
        Some(parts) => {
            let found = routes.best_match(parts.path.as_str());
            match found {
                RouteMatch::Route(listing) => Dispatch::Page(listing, parts),
                RouteMatch::ServerFn => Dispatch::ServerFn,
                RouteMatch::NoMatch => Dispatch::NotFound,
            }
        },
    }
}

/// Decides where a request goes. Its URL is read from the header that
/// carries it; the path of that URL is matched against the table.
pub fn dispatch<'a>(routes: &'a RouteTable, req: &RequestParts) -> (r: Dispatch<'a>)
    requires
        routes.wf(),
    ensures
        dispatch_matches(r, routes, dispatch_of(routes, request_url(req.header_seq()))),
{
    let url = match req.url() {
        Some(text) => parse_url(text),
        None => None,
    };
    dispatch_url(routes, url)
}

/// How the renderer of the application is called for a page.
#[derive(Clone, Copy, Debug, PartialEq, Eq, Structural)]
pub struct RenderSettings {
    /// Fragments are produced strictly in the order of the document.
    pub in_order: bool,
    /// Subtrees that block are replaced in place once they resolve.
    pub replace_blocks: bool,
    /// The head metadata is part of what the renderer emits first.
    pub metadata_in_prefix: bool,
}

/// The settings of each rendering mode.
pub open spec fn settings_of(mode: SsrMode) -> RenderSettings {
    match mode {
        SsrMode::OutOfOrder => RenderSettings {
            in_order: false,
            replace_blocks: false,
            metadata_in_prefix: true,
        },
        SsrMode::Async => RenderSettings {
            in_order: true,
            replace_blocks: false,
            metadata_in_prefix: false,
        },
        SsrMode::InOrder => RenderSettings {
            in_order: true,
            replace_blocks: false,
            metadata_in_prefix: true,
        },
        SsrMode::PartiallyBlocked => RenderSettings {
            in_order: false,
            replace_blocks: true,
            metadata_in_prefix: true,
        },
    }
}

/// The settings with which the renderer is called in a rendering mode.
pub fn render_settings(mode: SsrMode) -> (r: RenderSettings)
    ensures
        r == settings_of(mode),
{
    match mode {
        SsrMode::OutOfOrder => RenderSettings {
            in_order: false,
            replace_blocks: false,
            metadata_in_prefix: true,
        },
        SsrMode::Async => RenderSettings {
            in_order: true,
            replace_blocks: false,
            metadata_in_prefix: false,
        },
        SsrMode::InOrder => RenderSettings {
            in_order: true,
            replace_blocks: false,
            metadata_in_prefix: true,
        },
        SsrMode::PartiallyBlocked => RenderSettings {
            in_order: false,
            replace_blocks: true,
            metadata_in_prefix: true,
        },
    }
}

/// How the page of a route is answered.
pub enum RenderPlan {
    /// The route asks for generation ahead of its requests, which is not
    /// supported: the answer is a bare failure with this status, and
    /// nothing is rendered.
    Unsupported(u16),
    /// The page is rendered and streamed.
    Render {
        /// How the renderer is called.
        settings: RenderSettings,
        /// The options that the handlers of the request start with.
        options: ResponseOptions,
        /// The stream of the page, in its first state.
        stream: PageStream,
        /// The first work of the stream.
        first: StreamAction,
    },
}

/// Plans the answer to a request for the page of a route.
pub fn render_route_with_context(listing: &RouteDescriptor) -> (r: RenderPlan)
    ensures
        match r {
            RenderPlan::Unsupported(status) => listing.static_mode is Some && status == 500,
            RenderPlan::Render { settings, options, stream, first } => {
                &&& listing.static_mode is None
                &&& settings == settings_of(listing.mode)
                &&& options@.status == None::<u16>
                &&& options@.headers == page_default_headers()
                &&& stream@ == initial(listing.mode)
                &&& first@ == initial_action(listing.mode)
            },
        },
{
    if listing.static_mode.is_some() {
        return RenderPlan::Unsupported(500);
    }
    let (stream, first) = PageStream::start(listing.mode);
    RenderPlan::Render {
        settings: render_settings(listing.mode),
        options: ResponseOptions::default(),
        stream,
        first,
    }
}

/// The status and headers with which a page is committed: the status that
/// its handlers set, or 200, and the headers that they set.
pub fn page_response_head(options: &ResponseOptions) -> (r: (u16, Headers))
    ensures
        r.0 == status_or(options@.status, 200),
        r.1@ == options@.headers,
{
    (select_status(options.status(), 200), options.headers())
}

/// The answer to a request that no route matches: status 404, no headers
/// and no body.
pub fn not_found() -> (r: (u16, Headers))
    ensures
        r.0 == 404,
        r.1@ == Seq::<(Seq<char>, Seq<u8>)>::empty(),
{
    (404, Headers::new())
}

/// The answer to a request whose URL cannot be read: status 400, no
/// headers and no body.
pub fn bad_request() -> (r: (u16, Headers))
    ensures
        r.0 == 400,
        r.1@ == Seq::<(Seq<char>, Seq<u8>)>::empty(),
{
    (400, Headers::new())
}

/// The answer to a request that cannot be served: status 500, no headers
/// and no body.
pub fn log_and_server_error() -> (r: (u16, Headers))
    ensures
        r.0 == 500,
        r.1@ == Seq::<(Seq<char>, Seq<u8>)>::empty(),
{
    (500, Headers::new())
}

} // verus!

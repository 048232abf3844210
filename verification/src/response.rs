//! The response of a remote function, before the dispatcher completes it.

use crate::headers::{has_name, with_set, HeaderSeq, Headers};
use crate::response_options::ResponseOptions;
use vstd::prelude::*;
use vstd::utf8::encode_utf8;

verus! {

/// The body of a response: bytes that are all there, or a stream of chunks
/// that is read while the response is sent.
#[derive(Debug)]
pub enum SpinBody {
    Plain(Vec<u8>),
    Streaming,
}

/// A body, as the contracts see it.
pub enum BodyView {
    Plain(Seq<u8>),
    Streaming,
}

impl View for SpinBody {
    type V = BodyView;

    open spec fn view(&self) -> BodyView {
        match self {
            SpinBody::Plain(bytes) => BodyView::Plain(bytes@),
            SpinBody::Streaming => BodyView::Streaming,
        }
    }
}

/// The parts of a response.
pub struct SpinResponseParts {
    pub status_code: u16,
    pub headers: Headers,
    pub body: SpinBody,
}

/// A response, as the contracts see it.
pub struct ResponseView {
    pub status_code: u16,
    pub headers: HeaderSeq,
    pub body: BodyView,
}

/// The response of a remote function.
pub struct SpinResponse(pub SpinResponseParts);

impl View for SpinResponse {
    type V = ResponseView;

    open spec fn view(&self) -> ResponseView {
        ResponseView {
            status_code: self.0.status_code,
            headers: self.0.headers@,
            body: self.0.body@,
        }
    }
}

/// The name of the header that carries the path of a failed remote call.
pub open spec fn error_header_name() -> Seq<char> {
    "serverfnerror"@
}

/// The response with the given body and a single header for its content
/// type.
pub open spec fn typed_response(content_type: Seq<char>, body: BodyView) -> ResponseView {
    ResponseView {
        status_code: 200,
        headers: seq![("Content-Type"@, encode_utf8(content_type))],
        body,
    }
}

/// A response with the status and the headers of the options laid over it:
/// a status that was set replaces that of the response, and every header of
/// the options is added after those of the response.
pub open spec fn extended(r: ResponseView, status: Option<u16>, headers: HeaderSeq) -> ResponseView {
    ResponseView {
        status_code: match status {
            Some(s) => s,
            None => r.status_code,
        },
        headers: r.headers + headers,
        body: r.body,
    }
}

fn typed_headers(content_type: &str) -> (r: Headers)
    ensures
        r@ == seq![("Content-Type"@, encode_utf8(content_type@))],
{
    let mut headers = Headers::new();
    headers.append("Content-Type", content_type.as_bytes_vec());
    proof {
        assert(headers@ =~= seq![("Content-Type"@, encode_utf8(content_type@))]);
    }
    headers
}

impl SpinResponse {
    /// The response that streams a rendered page: status 200, no headers.
    pub fn from_stream() -> (r: SpinResponse)
        ensures
            r@ == (ResponseView {
                status_code: 200,
                headers: Seq::empty(),
                body: BodyView::Streaming,
            }),
    {
        SpinResponse(
            SpinResponseParts { status_code: 200, headers: Headers::new(), body: SpinBody::Streaming },
        )
    }

    /// Lays the status and the headers of the options over the response.
    pub fn extend_response(&mut self, res_options: &ResponseOptions)
        ensures
            final(self)@ == extended(old(self)@, res_options@.status, res_options@.headers),
    {
        match res_options.status() {
            Some(status) => {
                self.0.status_code = status;
            },
            None => {},
        }
        let added = res_options.headers();
        let list = added.entries();
        let n: usize = list.len();
        let mut i: usize = 0;
        proof {
            assert(self.0.headers@ =~= old(self).0.headers@ + added@.take(0));
        }
        while i < n
            invariant
                i <= n,
                n == list@.len(),
                crate::headers::list_view(list@) == added@,
                self.0.headers@ == old(self).0.headers@ + added@.take(i as int),
                self.0.status_code == extended(
                    old(self)@,
                    res_options@.status,
                    res_options@.headers,
                ).status_code,
                self.0.body == old(self).0.body,
            decreases n - i,
        {
            self.0.headers.append(list[i].0.as_str(), crate::headers::clone_bytes(&list[i].1));
            proof {
                assert(added@[i as int] == (list@[i as int].0@, list@[i as int].1@));
                assert(self.0.headers@ =~= old(self).0.headers@ + added@.take(i as int + 1));
            }
            i = i + 1;
        }
        proof {
            assert(added@.take(n as int) =~= added@);
        }
    }

    /// Gives the response a content type where it has none.
    pub fn set_default_content_type(&mut self, content_type: &str)
        ensures
            final(self)@.status_code == old(self)@.status_code,
            final(self)@.body == old(self)@.body,
            final(self)@.headers == if has_name(old(self)@.headers, "Content-Type"@) {
                old(self)@.headers
            } else {
                with_set(old(self)@.headers, "Content-Type"@, encode_utf8(content_type@))
            },
    {
        if !self.0.headers.has("Content-Type") {
            self.0.headers.set("Content-Type", content_type.as_bytes_vec());
        }
    }

    /// The response with a text as its body.
    pub fn try_from_string(content_type: &str, data: String) -> (r: SpinResponse)
        ensures
            r@ == typed_response(content_type@, BodyView::Plain(encode_utf8(data@))),
    {
        SpinResponse(
            SpinResponseParts {
                status_code: 200,
                headers: typed_headers(content_type),
                body: SpinBody::Plain(data.as_str().as_bytes_vec()),
            },
        )
    }

    /// The response with bytes as its body.
    pub fn try_from_bytes(content_type: &str, data: Vec<u8>) -> (r: SpinResponse)
        ensures
            r@ == typed_response(content_type@, BodyView::Plain(data@)),
    {
        SpinResponse(
            SpinResponseParts {
                status_code: 200,
                headers: typed_headers(content_type),
                body: SpinBody::Plain(data),
            },
        )
    }

    /// The response whose body is a stream of chunks.
    pub fn try_from_stream(content_type: &str) -> (r: SpinResponse)
        ensures
            r@ == typed_response(content_type@, BodyView::Streaming),
    {
        SpinResponse(
            SpinResponseParts {
                status_code: 200,
                headers: typed_headers(content_type),
                body: SpinBody::Streaming,
            },
        )
    }

    /// The response to a remote call that failed: status 500, the path of
    /// the call in a header of its own, and the text of the error as body.
    pub fn error_response(path: &str, message: &str) -> (r: SpinResponse)
        ensures
            r@ == (ResponseView {
                status_code: 500,
                headers: seq![(error_header_name(), encode_utf8(path@))],
                body: BodyView::Plain(encode_utf8(message@)),
            }),
    {
        let mut headers = Headers::new();
        headers.append("serverfnerror", path.as_bytes_vec());
        proof {
            assert(headers@ =~= seq![(error_header_name(), encode_utf8(path@))]);
        }
        SpinResponse(
            SpinResponseParts {
                status_code: 500,
                headers,
                body: SpinBody::Plain(message.as_bytes_vec()),
            },
        )
    }

    /// A redirect asked for on the response itself changes nothing: the
    /// redirect of a remote call is recorded in the options of the call.
    pub fn redirect(&mut self, _path: &str)
        ensures
            *final(self) == *old(self),
    {
    }
}

impl SpinBody {
    /// The bytes of a body that is all there.
    pub fn into_body(self) -> (r: Vec<u8>)
        requires
            self is Plain,
        ensures
            self@ == BodyView::Plain(r@),
    {
        match self {
            SpinBody::Plain(bytes) => bytes,
            SpinBody::Streaming => Vec::new(),
        }
    }
}

} // verus!

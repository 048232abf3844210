//! Request dispatch for a server-rendered application that is hosted one
//! request per invocation: route matching, response metadata, the redirect
//! rules for remote calls and the chunk protocol of streamed pages.

pub mod headers;
pub mod registry;
pub mod render;
pub mod request;
pub mod request_parts;
pub mod response;
pub mod response_options;
pub mod route_table;
pub mod router;
pub mod server_fn;
pub mod stream;
pub mod text;
pub mod url_parts;

pub use headers::{merge_headers, Headers};
pub use request_parts::RequestParts;
pub use response_options::ResponseOptions;
pub use route_table::RouteTable;

//! Requests to Pub/Sub.

use http::header::HeaderMap;
use http::header::HeaderValue;
use http::Uri;
use vstd::prelude::*;

verus! {

/// The method of a request.
#[derive(Clone, Copy, Debug, PartialEq, Eq)]
pub enum Method {
    Get,
    Post,
}

/// A request, ready to be sent.
pub struct PubsubRequest {
    pub method: Method,
    pub uri: Uri,
    pub headers: HeaderMap<HeaderValue>,
    pub body: Vec<u8>,
}

} // verus!

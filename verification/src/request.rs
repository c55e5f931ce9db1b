//! The parts of a request that a retry has to reproduce.

use http::header::{HeaderMap, HeaderValue};
use http::{Method, Uri};
use vstd::prelude::*;

verus! {

/// `http::Method`, taken as it is and only passed on.
#[verifier::external_type_specification]
#[verifier::external_body]
pub struct ExMethod(Method);

/// `http::Uri`, taken as it is and only passed on.
#[verifier::external_type_specification]
#[verifier::external_body]
pub struct ExUri(Uri);

/// `Method::clone`: the same method.
#[verifier::external_body]
pub(crate) fn clone_method(method: &Method) -> (copy: Method)
    ensures
        copy == *method,
{
    method.clone()
}

/// `Uri::clone`: the same target.
#[verifier::external_body]
pub(crate) fn clone_uri(uri: &Uri) -> (copy: Uri)
    ensures
        copy == *uri,
{
    uri.clone()
}

/// A request taken apart: method, target, headers and body.
pub struct Request<B> {
    pub method: Method,
    pub uri: Uri,
    pub headers: HeaderMap<HeaderValue>,
    pub body: B,
}

} // verus!

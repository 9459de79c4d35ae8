//! Methods, targets and status codes of the `http` crate.

use crate::message::{AuthorityPart, Target, TargetParts};
use crate::outside::octets;
use crate::proto::h1::syntax;
use bytes::Bytes;
use vstd::prelude::*;

verus! {

/// `http::Uri`, a parsed request target.
#[verifier::external_type_specification]
#[verifier::external_body]
pub struct ExUri(http::Uri);

/// `http::Request`, a request with its body.
#[verifier::external_type_specification]
#[verifier::external_body]
#[verifier::reject_recursive_types(T)]
pub struct ExRequest<T>(http::Request<T>);

/// What `http::Uri::from_maybe_shared` makes of a text: the parts that the
/// library looks at, or `None` where the text is no target.
pub uninterp spec fn parsed_target(text: Seq<u8>) -> Option<TargetParts>;

/// The text that `http::Uri` is displayed with.
pub uninterp spec fn uri_text(uri: http::Uri) -> Seq<u8>;

/// Whether `http::uri::Authority` accepts a text.
pub uninterp spec fn is_authority(text: Seq<u8>) -> bool;

/// The phrase that `http::StatusCode::canonical_reason` has for a code.
pub uninterp spec fn reason_of(code: u16) -> Option<Seq<char>>;

/// `http::Method::from_bytes`: accepts nonempty tokens and keeps them as they
/// are.
#[verifier::external_body]
pub(crate) fn method(text: &[u8]) -> (result: Option<Vec<u8>>)
    ensures
        result is Some <==> syntax::is_token_text(text@),
        result is Some ==> result->0@ == text@,
{
    http::Method::from_bytes(text).ok().map(|method| method.as_str().as_bytes().to_vec())
}

/// `http::Uri::from_maybe_shared`. Which parts a target has is a function of its
/// text. The parsed target is kept, and its text is the one it is displayed with.
#[verifier::external_body]
pub(crate) fn target(text: Bytes) -> (result: Option<Target>)
    ensures
        match result {
            Some(target) => parsed_target(octets::octets(text)) == Some(target@) && uri_text(
                target.uri,
            ) == target.text@,
            None => parsed_target(octets::octets(text)) is None,
        },
{
    let uri = http::Uri::from_maybe_shared(text).ok()?;
    Some(Target {
        scheme: uri.scheme().is_some(),
        authority: uri.authority().map(|authority| AuthorityPart {
            text: authority.as_str().as_bytes().to_vec(),
            port: authority.port().is_some(),
        }),
        path: uri.path().as_bytes().to_vec(),
        path_present: uri.path_and_query().is_some(),
        text: uri.to_string().into_bytes(),
        uri,
    })
}

/// `http::uri::Authority` read from text. Whether a text is one depends on the
/// text alone; text that is not UTF-8 is none.
#[verifier::external_body]
pub(crate) fn authority(text: &[u8]) -> (result: bool)
    ensures
        result == is_authority(text@),
{
    std::str::from_utf8(text).is_ok_and(|text| text.parse::<http::uri::Authority>().is_ok())
}

/// `http::StatusCode::canonical_reason`. The phrase depends on the code alone.
#[verifier::external_body]
pub(crate) fn reason(code: u16) -> (result: Option<&'static str>)
    ensures
        match result {
            Some(reason) => reason_of(code) == Some(reason@),
            None => reason_of(code) is None,
        },
{
    http::StatusCode::from_u16(code).ok()?.canonical_reason()
}

} // verus!

//! The parts of a start line.

use crate::ascii::same;
use crate::outside::start_line;
use crate::outside::octets;
use bytes::Bytes;
use vstd::prelude::*;

verus! {

/// The version of a message.
#[derive(Clone, Copy, Debug, PartialEq, Eq, Structural)]
pub enum Version {
    Http09,
    Http10,
    Http11,
    Http2,
    Http3,
}

/// A request method. Methods are told apart by the case of their letters.
#[derive(Debug)]
pub struct Method {
    text: Vec<u8>,
}

/// The method that a text names.
pub open spec fn method_named(text: &str) -> Seq<u8> {
    vstd::utf8::encode_utf8(text@)
}

impl View for Method {
    type V = Seq<u8>;

    closed spec fn view(&self) -> Seq<u8> {
        self.text@
    }
}

impl Method {
    /// The method that a token names, `None` for text that is no token.
    pub fn from_bytes(text: &[u8]) -> (result: Option<Self>)
        ensures
            result is Some <==> crate::proto::h1::syntax::is_token_text(text@),
            result matches Some(method) ==> method@ == text@,
    {
        match start_line::method(text) {
            Some(text) => Some(Method { text }),
            None => None,
        }
    }

    /// The method that asks for a representation.
    pub fn get() -> (result: Self)
        ensures
            result@ == method_named("GET"),
    {
        Method { text: copied("GET".as_bytes()) }
    }

    /// The text of the method.
    pub fn as_bytes(&self) -> (result: &[u8])
        ensures
            result@ == self@,
    {
        self.text.as_slice()
    }

    /// Whether the method is the one that a text names.
    pub fn is(&self, text: &'static str) -> (result: bool)
        ensures
            result == (self@ == method_named(text)),
    {
        same(self.text.as_slice(), text.as_bytes())
    }

    pub fn copy(&self) -> (result: Self)
        ensures
            result@ == self@,
    {
        Method { text: copied(self.text.as_slice()) }
    }
}

/// A vector of the bytes of a slice.
pub fn copied(bytes: &[u8]) -> (result: Vec<u8>)
    ensures
        result@ == bytes@,
{
    let mut result: Vec<u8> = Vec::new();
    result.extend_from_slice(bytes);
    assert(result@ =~= bytes@);
    result
}

/// A response status.
#[derive(Clone, Copy, Debug, PartialEq, Eq, Structural)]
pub struct StatusCode {
    code: u16,
}

/// The three digits of a status.
pub open spec fn status_digits(code: u16) -> Seq<u8> {
    seq![
        (0x30 + code / 100) as u8,
        (0x30 + code / 10 % 10) as u8,
        (0x30 + code % 10) as u8,
    ]
}

impl StatusCode {
    /// A status has three digits.
    #[verifier::type_invariant]
    spec fn three_digits(self) -> bool {
        100 <= self.code <= 999
    }

    pub closed spec fn number(self) -> u16 {
        self.code
    }

    pub fn from_u16(code: u16) -> (result: Option<Self>)
        ensures
            result is Some <==> 100 <= code <= 999,
            result matches Some(status) ==> status.number() == code,
    {
        if 100 <= code && code <= 999 {
            Some(StatusCode { code })
        } else {
            None
        }
    }

    pub fn as_u16(&self) -> (result: u16)
        ensures
            result == self.number(),
            100 <= result <= 999,
    {
        proof {
            use_type_invariant(self);
        }
        self.code
    }

    pub fn is_informational(&self) -> (result: bool)
        ensures
            result == (100 <= self.number() < 200),
    {
        100 <= self.code && self.code < 200
    }

    pub fn is_success(&self) -> (result: bool)
        ensures
            result == (200 <= self.number() < 300),
    {
        200 <= self.code && self.code < 300
    }

    /// The digits of the status.
    pub fn digits(&self) -> (result: Vec<u8>)
        ensures
            result@ == status_digits(self.number()),
    {
        let code = self.as_u16();
        let mut result: Vec<u8> = Vec::new();
        result.push(0x30 + (code / 100) as u8);
        result.push(0x30 + (code / 10 % 10) as u8);
        result.push(0x30 + (code % 10) as u8);
        assert(result@ =~= status_digits(self.number()));
        result
    }
}

/// The authority of a target.
#[derive(Debug)]
pub struct AuthorityPart {
    pub text: Vec<u8>,
    pub port: bool,
}

/// A request target, as far as the library looks into it.
#[derive(Debug)]
pub struct Target {
    pub scheme: bool,
    pub authority: Option<AuthorityPart>,
    pub path: Vec<u8>,
    pub path_present: bool,
    pub text: Vec<u8>,
    pub uri: http::Uri,
}

/// The parts of a target: whether it has a scheme, its authority and whether
/// that has a port, its path, whether it has a path at all, its text, and the text
/// of the parsed target that goes with a message.
pub struct TargetParts {
    pub scheme: bool,
    pub authority: Option<(Seq<u8>, bool)>,
    pub path: Seq<u8>,
    pub path_present: bool,
    pub text: Seq<u8>,
    pub uri: Seq<u8>,
}

impl View for Target {
    type V = TargetParts;

    open spec fn view(&self) -> TargetParts {
        TargetParts {
            scheme: self.scheme,
            authority: match self.authority {
                Some(authority) => Some((authority.text@, authority.port)),
                None => None,
            },
            path: self.path@,
            path_present: self.path_present,
            text: self.text@,
            uri: start_line::uri_text(self.uri),
        }
    }
}

impl Target {
    /// Reads a target.
    pub fn from_shared(text: Bytes) -> (result: Option<Self>)
        ensures
            match result {
                Some(target) => start_line::parsed_target(octets::octets(text)) == Some(target@)
                    && target@.uri == target@.text,
                None => start_line::parsed_target(octets::octets(text)) is None,
            },
    {
        start_line::target(text)
    }

    /// Reads a target from text that is copied.
    pub fn from_bytes(text: &[u8]) -> (result: Option<Self>)
        ensures
            match result {
                Some(target) => start_line::parsed_target(text@) == Some(target@) && target@.uri
                    == target@.text,
                None => start_line::parsed_target(text@) is None,
            },
    {
        start_line::target(octets::from_vec(copied(text)))
    }
}

} // verus!

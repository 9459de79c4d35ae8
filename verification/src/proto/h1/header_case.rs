//! Field names as a peer wrote them.

use crate::outside::fields;
use bytes::Bytes;
use http::{HeaderMap, HeaderName};
use vstd::prelude::*;

verus! {

/// Original HTTP/1 field-name spellings, grouped in value order.
pub struct HeaderCaseMap {
    pub map: HeaderMap<Bytes>,
}

impl View for HeaderCaseMap {
    type V = Seq<(Seq<u8>, Seq<Seq<u8>>)>;

    open spec fn view(&self) -> Seq<(Seq<u8>, Seq<Seq<u8>>)> {
        fields::spellings(self.map)
    }
}

impl HeaderCaseMap {
    /// No spelling has been seen.
    pub fn new() -> (result: Self)
        ensures
            result@ == Seq::<(Seq<u8>, Seq<Seq<u8>>)>::empty(),
    {
        HeaderCaseMap { map: fields::no_spellings() }
    }

    /// Adds the spelling of one field line, behind those of earlier lines of the
    /// same name.
    pub fn append(&mut self, name: HeaderName, original: Bytes)
        requires
            fields::roomy(old(self)@),
        ensures
            final(self)@ == fields::appended(
                old(self)@,
                fields::name_text(name),
                crate::outside::octets::octets(original),
            ),
    {
        fields::append_spelling(&mut self.map, name, original);
    }

    /// The spellings of a name, in the order of its lines.
    pub fn get_all(&self, name: &HeaderName) -> (result: Vec<&[u8]>)
        ensures
            fields::views(result@) == fields::values_of(self@, fields::name_text(*name)),
    {
        fields::spellings_of(&self.map, name)
    }
}

} // verus!

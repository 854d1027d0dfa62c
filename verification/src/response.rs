//! What a request that succeeds hands back: messages to send and
//! attributes to log.

use crate::msg::{PalomaMsg, PalomaMsgView};
use vstd::prelude::*;

verus! {

/// A key and a value, logged for those who watch the contract.
#[derive(Clone, Debug, PartialEq, Eq)]
pub struct Attribute {
    pub key: String,
    pub value: String,
}

/// An attribute as plain values.
pub struct AttributeView {
    pub key: Seq<char>,
    pub value: Seq<char>,
}

impl View for Attribute {
    type V = AttributeView;

    open spec fn view(&self) -> AttributeView {
        AttributeView { key: self.key@, value: self.value@ }
    }
}

/// The outcome of a request: the messages to the relayer and the
/// attributes, each in the order in which they were added.
#[derive(Clone, Debug, PartialEq, Eq)]
pub struct Response {
    pub messages: Vec<PalomaMsg>,
    pub attributes: Vec<Attribute>,
}

/// A response as plain values.
pub struct ResponseView {
    pub messages: Seq<PalomaMsgView>,
    pub attributes: Seq<AttributeView>,
}

impl View for Response {
    type V = ResponseView;

    open spec fn view(&self) -> ResponseView {
        ResponseView {
            messages: self.messages@.map_values(|message: PalomaMsg| message@),
            attributes: self.attributes@.map_values(|attribute: Attribute| attribute@),
        }
    }
}

impl Response {
    /// A response without messages and without attributes.
    pub fn new() -> (response: Response)
        ensures
            response@.messages == Seq::<PalomaMsgView>::empty(),
            response@.attributes == Seq::<AttributeView>::empty(),
    {
        let response = Response { messages: Vec::new(), attributes: Vec::new() };
        assert(response@.messages =~= Seq::<PalomaMsgView>::empty());
        assert(response@.attributes =~= Seq::<AttributeView>::empty());
        response
    }

    /// The response with one more message at the end.
    pub fn add_message(self, message: PalomaMsg) -> (response: Response)
        ensures
            response@.messages == self@.messages.push(message@),
            response@.attributes == self@.attributes,
    {
        let mut response = self;
        response.messages.push(message);
        assert(response@.messages =~= self@.messages.push(message@));
        response
    }

    /// The response with one more attribute at the end.
    pub fn add_attribute(self, key: &str, value: &str) -> (response: Response)
        ensures
            response@.messages == self@.messages,
            response@.attributes == self@.attributes.push(
                AttributeView { key: key@, value: value@ },
            ),
    {
        let mut response = self;
        response.attributes.push(Attribute { key: key.to_owned(), value: value.to_owned() });
        assert(response@.attributes =~= self@.attributes.push(
            AttributeView { key: key@, value: value@ },
        ));
        response
    }
}

} // verus!

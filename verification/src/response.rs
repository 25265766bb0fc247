//! Responses, as plain values that the HTTP layer turns into messages.

use vstd::prelude::*;

verus! {

/// The document of the greeting endpoint: one text field, sent as JSON.
#[derive(Debug, Clone, PartialEq, Eq)]
pub struct Message {
    pub message: String,
}

/// What a response carries.
#[derive(Debug, Clone, PartialEq, Eq)]
pub enum Body<'a> {
    /// Bytes that are sent as they are.
    Bytes(&'a [u8]),
    /// A document that is sent in its JSON encoding.
    Json(Message),
}

/// A response: status code, `Content-Type` header where one is set, and body.
#[derive(Debug, Clone, PartialEq, Eq)]
pub struct Response<'a> {
    pub status: u16,
    pub content_type: Option<&'a str>,
    pub body: Body<'a>,
}

/// The model of a [`Body`].
pub ghost enum BodyView {
    Bytes(Seq<u8>),
    /// The text of the message that the JSON document holds.
    Json(Seq<char>),
}

/// The model of a [`Response`].
pub ghost struct ResponseView {
    pub status: int,
    pub content_type: Option<Seq<char>>,
    pub body: BodyView,
}

impl View for Message {
    type V = Seq<char>;

    open spec fn view(&self) -> Seq<char> {
        self.message@
    }
}

impl<'a> View for Body<'a> {
    type V = BodyView;

    open spec fn view(&self) -> BodyView {
        match self {
            Body::Bytes(bytes) => BodyView::Bytes(bytes@),
            Body::Json(message) => BodyView::Json(message@),
        }
    }
}

impl<'a> View for Response<'a> {
    type V = ResponseView;

    open spec fn view(&self) -> ResponseView {
        ResponseView {
            status: self.status as int,
            content_type: match self.content_type {
                Some(text) => Some(text@),
                None => None,
            },
            body: self.body@,
        }
    }
}

} // verus!

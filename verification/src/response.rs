//! Messages, the names under which their copies are collected, and the responses of senders.

use vstd::prelude::*;
use crate::message_header::{MessageHeader, MessageHeaderView};
use crate::types::{Address, MessageId, MessageTypeTag, SerialisedMessage};

verus! {

/// A message as the sentinel receives and hands it on: header, kind and payload.
pub type ResultType = (MessageHeader, MessageTypeTag, SerialisedMessage);

/// A message as mathematical values.
pub type ResultView = (MessageHeaderView, MessageTypeTag, Seq<u8>);

/// The name under which responses are collected: an address, and for messages their identifier.
pub type Name = (Address, Option<MessageId>);

/// A name as mathematical values.
pub type NameView = (Seq<u8>, Option<MessageId>);

/// One sender's contribution, as mathematical values.
pub struct ResponseView {
    pub address: Seq<u8>,
    pub value: ResultView,
}

/// One sender's contribution to a name: who sent it, and what was sent.
#[derive(Debug)]
pub struct Response {
    pub address: Address,
    pub value: ResultType,
}

impl View for Response {
    type V = ResponseView;

    open spec fn view(&self) -> ResponseView {
        ResponseView { address: self.address@, value: self.value.deep_view() }
    }
}

impl DeepView for Response {
    type V = ResponseView;

    open spec fn deep_view(&self) -> ResponseView {
        self@
    }
}

/// Copies a message.
pub fn clone_result(value: &ResultType) -> (copy: ResultType)
    ensures
        copy.deep_view() == value.deep_view(),
{
    (value.0.clone(), value.1, value.2.clone())
}

/// Copies a name.
pub fn clone_name(name: &Name) -> (copy: Name)
    ensures
        copy.deep_view() == name.deep_view(),
{
    (name.0.clone(), name.1)
}

impl Clone for Response {
    fn clone(&self) -> (copy: Response)
        ensures
            copy@ == self@,
    {
        Response { address: self.address.clone(), value: clone_result(&self.value) }
    }
}

/// Copies a sequence of responses, one by one and in order.
pub fn clone_responses(responses: &Vec<Response>) -> (copy: Vec<Response>)
    ensures
        copy.deep_view() == responses.deep_view(),
{
    let mut copy: Vec<Response> = Vec::new();
    let mut i: usize = 0;
    while i < responses.len()
        invariant
            i <= responses.len(),
            copy.len() == i,
            forall|j: int| 0 <= j < i ==> copy[j]@ == responses[j]@,
        decreases responses.len() - i,
    {
        copy.push(responses[i].clone());
        i += 1;
    }
    assert(copy.deep_view() =~= responses.deep_view());
    copy
}

/// Whether two byte strings hold the same bytes.
pub fn same_bytes(a: &Vec<u8>, b: &Vec<u8>) -> (same: bool)
    ensures
        same == (a@ == b@),
{
    if a.len() != b.len() {
        return false;
    }
    let mut i: usize = 0;
    while i < a.len()
        invariant
            i <= a.len(),
            a.len() == b.len(),
            forall|j: int| 0 <= j < i ==> a[j] == b[j],
        decreases a.len() - i,
    {
        if a[i] != b[i] {
            return false;
        }
        i += 1;
    }
    assert(a@ =~= b@);
    true
}

/// The deep view of a byte string is its view.
pub proof fn lemma_bytes_view(bytes: Vec<u8>)
    ensures
        bytes.deep_view() == bytes@,
{
    assert(bytes.deep_view() =~= bytes@);
}

} // verus!

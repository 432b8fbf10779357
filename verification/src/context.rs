//! What the host tells the account about a call, and what the account
//! hands back to the host.

use crate::body::{message_views, StargateMsg, StargateMsgView};
use vstd::prelude::*;

verus! {

/// Where a call runs.
#[derive(Clone, Debug, PartialEq, Eq)]
pub struct Env {
    /// The identifier of the chain.
    pub chain_id: String,
}

/// Who makes a call.
#[derive(Clone, Debug, PartialEq, Eq)]
pub struct MessageInfo {
    /// The address of the caller.
    pub sender: String,
}

/// A key and a value that describe what a call did.
#[derive(Clone, Debug, PartialEq, Eq)]
pub struct Attribute {
    pub key: String,
    pub value: String,
}

/// What a call that succeeded hands back: attributes that describe it, and
/// messages that the host is to dispatch, in order, with the account as
/// their sender.
#[derive(Clone, Debug, PartialEq, Eq)]
pub struct Response {
    pub attributes: Vec<Attribute>,
    pub messages: Vec<StargateMsg>,
}

/// What a response holds: its attributes as pairs, and its messages.
pub struct ResponseView {
    pub attributes: Seq<(Seq<char>, Seq<char>)>,
    pub messages: Seq<StargateMsgView>,
}

impl View for Attribute {
    type V = (Seq<char>, Seq<char>);

    open spec fn view(&self) -> (Seq<char>, Seq<char>) {
        (self.key@, self.value@)
    }
}

impl View for Response {
    type V = ResponseView;

    open spec fn view(&self) -> ResponseView {
        ResponseView {
            attributes: Seq::new(self.attributes@.len(), |i: int| self.attributes@[i]@),
            messages: message_views(self.messages@),
        }
    }
}

} // verus!

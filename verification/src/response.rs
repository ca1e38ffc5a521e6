//! What an accepted operation hands back: the transfers that the host is to
//! carry out, in order, and attributes that describe what was done.

use vstd::prelude::*;

verus! {

/// An instruction to move value, for the host to carry out once the
/// operation has been committed.
#[derive(Clone, Debug, PartialEq, Eq)]
pub enum Transfer {
    /// Pay `amount` of `denom` to `recipient`.
    Funds { recipient: String, denom: String, amount: u128 },
    /// Have the token contract at `contract` hand `token_id` to `recipient`;
    /// `msg` is the message for that contract.
    Asset { contract: String, recipient: String, token_id: String, msg: Vec<u8> },
}

/// A transfer as specifications see it.
pub enum TransferView {
    Funds { recipient: Seq<char>, denom: Seq<char>, amount: u128 },
    Asset { contract: Seq<char>, recipient: Seq<char>, token_id: Seq<char>, msg: Seq<u8> },
}

impl View for Transfer {
    type V = TransferView;

    open spec fn view(&self) -> TransferView {
        match *self {
            Transfer::Funds { recipient, denom, amount } => TransferView::Funds {
                recipient: recipient@,
                denom: denom@,
                amount,
            },
            Transfer::Asset { contract, recipient, token_id, msg } => TransferView::Asset {
                contract: contract@,
                recipient: recipient@,
                token_id: token_id@,
                msg: msg@,
            },
        }
    }
}

/// A key and a value that describe an operation to an observer.
#[derive(Clone, Debug, PartialEq, Eq)]
pub struct Attribute {
    pub key: String,
    pub value: String,
}

/// An attribute as specifications see it.
pub struct AttributeView {
    pub key: Seq<char>,
    pub value: Seq<char>,
}

impl View for Attribute {
    type V = AttributeView;

    open spec fn view(&self) -> AttributeView {
        AttributeView { key: self.key@, value: self.value@ }
    }
}

/// The result of an accepted operation.
#[derive(Clone, Debug, PartialEq, Eq)]
pub struct Response {
    pub messages: Vec<Transfer>,
    pub attributes: Vec<Attribute>,
}

/// A response as specifications see it.
pub struct ResponseView {
    pub messages: Seq<TransferView>,
    pub attributes: Seq<AttributeView>,
}

impl View for Response {
    type V = ResponseView;

    open spec fn view(&self) -> ResponseView {
        ResponseView {
            messages: self.messages@.map_values(|t: Transfer| t@),
            attributes: self.attributes@.map_values(|a: Attribute| a@),
        }
    }
}

/// The attribute that names the action carried out.
pub open spec fn action(name: Seq<char>) -> AttributeView {
    AttributeView { key: "action"@, value: name }
}

impl Response {
    /// A response without transfers whose only attribute names the action.
    pub fn new(action_name: &str) -> (response: Response)
        ensures
            response@.messages == Seq::<TransferView>::empty(),
            response@.attributes == seq![action(action_name@)],
    {
        let mut attributes: Vec<Attribute> = Vec::new();
        attributes.push(Attribute { key: "action".to_owned(), value: action_name.to_owned() });
        let response = Response { messages: Vec::new(), attributes };
        assert(response@.messages =~= Seq::<TransferView>::empty());
        assert(response@.attributes =~= seq![action(action_name@)]);
        response
    }

    /// Appends a transfer to those that the host is to carry out.
    pub fn add_message(&mut self, transfer: Transfer)
        ensures
            final(self)@.messages == old(self)@.messages.push(transfer@),
            final(self)@.attributes == old(self)@.attributes,
    {
        self.messages.push(transfer);
        assert(self@.messages =~= old(self)@.messages.push(transfer@));
    }

    /// Appends an attribute.
    pub fn add_attribute(&mut self, key: &str, value: &str)
        ensures
            final(self)@.messages == old(self)@.messages,
            final(self)@.attributes == old(self)@.attributes.push(
                AttributeView { key: key@, value: value@ },
            ),
    {
        self.attributes.push(Attribute { key: key.to_owned(), value: value.to_owned() });
        assert(self@.attributes =~= old(self)@.attributes.push(
            AttributeView { key: key@, value: value@ },
        ));
    }
}

} // verus!

use vstd::prelude::*;

use crate::block::{Block, BlockModel};
use crate::transaction::{Transaction, TxModel};
use crate::util::time_since_unix_epoch;

verus! {

/// What a protocol message carries.
pub enum MessageTypeModel {
    Connect,
    SendBlockchainCount(usize, usize),
    SendBlockchainBlock(BlockModel),
    SendBlockchainTransaction(TxModel),
    Transaction(TxModel),
    MinedBlock(BlockModel),
}

/// The protocol's messages.
pub enum MessageType {
    /// A peer announces itself and asks for the ledger.
    Connect,
    /// The ledger follows: this many blocks, then this many pending transactions.
    SendBlockchainCount(usize, usize),
    /// One block of the ledger being sent, without its place in the tree.
    SendBlockchainBlock(Block),
    /// One pending transaction of the ledger being sent.
    SendBlockchainTransaction(Transaction),
    /// A new transaction to be mined.
    Transaction(Transaction),
    /// A newly mined block.
    MinedBlock(Block),
}

impl View for MessageType {
    type V = MessageTypeModel;

    open spec fn view(&self) -> MessageTypeModel {
        match self {
            MessageType::Connect => MessageTypeModel::Connect,
            MessageType::SendBlockchainCount(b, t) => MessageTypeModel::SendBlockchainCount(*b, *t),
            MessageType::SendBlockchainBlock(b) => MessageTypeModel::SendBlockchainBlock(b@),
            MessageType::SendBlockchainTransaction(t) => MessageTypeModel::SendBlockchainTransaction(
                t@,
            ),
            MessageType::Transaction(t) => MessageTypeModel::Transaction(t@),
            MessageType::MinedBlock(b) => MessageTypeModel::MinedBlock(b@),
        }
    }
}

pub open spec fn message_type_name(m: MessageTypeModel) -> Seq<char> {
    match m {
        MessageTypeModel::Connect => "Connect"@,
        MessageTypeModel::SendBlockchainCount(..) => "SendBlockchainCount"@,
        MessageTypeModel::SendBlockchainBlock(..) => "SendBlockchainBlock"@,
        MessageTypeModel::SendBlockchainTransaction(..) => "SendBlockchainTransaction"@,
        MessageTypeModel::Transaction(..) => "Transaction"@,
        MessageTypeModel::MinedBlock(..) => "MinedBlock"@,
    }
}

impl MessageType {
    /// The variant's name.
    pub fn to_string(&self) -> (r: String)
        ensures
            r@ == message_type_name(self@),
    {
        match self {
            MessageType::Connect => "Connect".to_owned(),
            MessageType::SendBlockchainCount(..) => "SendBlockchainCount".to_owned(),
            MessageType::SendBlockchainBlock(..) => "SendBlockchainBlock".to_owned(),
            MessageType::SendBlockchainTransaction(..) => "SendBlockchainTransaction".to_owned(),
            MessageType::Transaction(..) => "Transaction".to_owned(),
            MessageType::MinedBlock(..) => "MinedBlock".to_owned(),
        }
    }
}

impl Clone for MessageType {
    fn clone(&self) -> (r: Self)
        ensures
            r@ == self@,
    {
        match self {
            MessageType::Connect => MessageType::Connect,
            MessageType::SendBlockchainCount(b, t) => MessageType::SendBlockchainCount(*b, *t),
            MessageType::SendBlockchainBlock(b) => MessageType::SendBlockchainBlock(b.clone()),
            MessageType::SendBlockchainTransaction(t) => MessageType::SendBlockchainTransaction(
                t.clone(),
            ),
            MessageType::Transaction(t) => MessageType::Transaction(t.clone()),
            MessageType::MinedBlock(b) => MessageType::MinedBlock(b.clone()),
        }
    }
}

/// A message as it travels between peers, with its creation time in milliseconds.
pub struct Message {
    pub message_type: MessageType,
    pub timestamp: u128,
}

impl Message {
    /// A message stamped with the current time.
    pub fn new(message_type: MessageType) -> (r: Message)
        ensures
            r.message_type@ == message_type@,
    {
        Message { message_type, timestamp: time_since_unix_epoch() }
    }
}

impl Clone for Message {
    fn clone(&self) -> (r: Self)
        ensures
            r.message_type@ == self.message_type@,
            r.timestamp == self.timestamp,
    {
        Message { message_type: self.message_type.clone(), timestamp: self.timestamp }
    }
}

/// Where a message came from: this node, or the peer at an address.
pub enum MessageSource {
    Localhost,
    Foreign(String),
}

impl MessageSource {
    /// The variant's name.
    pub fn to_string(&self) -> (r: String)
        ensures
            r@ == (match self {
                MessageSource::Localhost => "Localhost"@,
                MessageSource::Foreign(_) => "Foreign"@,
            }),
    {
        match self {
            MessageSource::Localhost => "Localhost".to_owned(),
            MessageSource::Foreign(_) => "Foreign".to_owned(),
        }
    }

    /// The peer's address, or the empty string for this node.
    pub fn unwrap(&self) -> (r: String)
        ensures
            r@ == (match self {
                MessageSource::Localhost => Seq::<char>::empty(),
                MessageSource::Foreign(a) => a@,
            }),
    {
        match self {
            MessageSource::Localhost => String::new(),
            MessageSource::Foreign(addr) => addr.clone(),
        }
    }
}

impl Clone for MessageSource {
    fn clone(&self) -> (r: Self)
        ensures
            r == *self,
    {
        match self {
            MessageSource::Localhost => MessageSource::Localhost,
            MessageSource::Foreign(a) => MessageSource::Foreign(a.clone()),
        }
    }
}

/// Where a message goes: to this node, to every peer, or to one peer.
pub enum MessageDest {
    Localhost,
    Broadcast,
    Single(String),
}

impl MessageDest {
    /// The variant's name.
    pub fn to_string(&self) -> (r: String)
        ensures
            r@ == (match self {
                MessageDest::Localhost => "Localhost"@,
                MessageDest::Broadcast => "Broadcast"@,
                MessageDest::Single(_) => "Single"@,
            }),
    {
        match self {
            MessageDest::Localhost => "Localhost".to_owned(),
            MessageDest::Broadcast => "Broadcast".to_owned(),
            MessageDest::Single(_) => "Single".to_owned(),
        }
    }
}

impl Clone for MessageDest {
    fn clone(&self) -> (r: Self)
        ensures
            r == *self,
    {
        match self {
            MessageDest::Localhost => MessageDest::Localhost,
            MessageDest::Broadcast => MessageDest::Broadcast,
            MessageDest::Single(a) => MessageDest::Single(a.clone()),
        }
    }
}

/// A message inside a node, with where it came from and where it goes.
pub struct InternalMessage {
    pub message: Message,
    pub source: MessageSource,
    pub dest: MessageDest,
}

/// Whether a message from `source` to `dest` goes to the peer at `address`:
/// never back to the peer it came from, and only to the named peer when it
/// has one.
pub open spec fn sent_to(source: MessageSource, dest: MessageDest, address: Seq<char>) -> bool {
    &&& !(source matches MessageSource::Foreign(a) && a@ == address)
    &&& !(dest matches MessageDest::Single(a) && a@ != address)
}

impl InternalMessage {
    /// A new message, stamped with the current time.
    pub fn new(message_type: MessageType, source: MessageSource, dest: MessageDest) -> (r: InternalMessage)
        ensures
            r.message.message_type@ == message_type@,
            r.source == source,
            r.dest == dest,
    {
        InternalMessage::from_message(Message::new(message_type), source, dest)
    }

    pub fn from_message(message: Message, source: MessageSource, dest: MessageDest) -> (r: InternalMessage)
        ensures
            r.message == message,
            r.source == source,
            r.dest == dest,
    {
        InternalMessage { message, source, dest }
    }

    /// Whether the message is to be written to the peer at `address`.
    pub fn should_be_send_to(&self, address: &str) -> (r: bool)
        ensures
            r == sent_to(self.source, self.dest, address@),
    {
        let a = address.to_owned();
        if let MessageSource::Foreign(addr) = &self.source {
            if addr.eq(&a) {
                return false;
            }
        }
        if let MessageDest::Single(addr) = &self.dest {
            if !addr.eq(&a) {
                return false;
            }
        }
        true
    }
}

impl Clone for InternalMessage {
    fn clone(&self) -> (r: Self)
        ensures
            r.message.message_type@ == self.message.message_type@,
            r.message.timestamp == self.message.timestamp,
            r.source == self.source,
            r.dest == self.dest,
    {
        InternalMessage {
            message: self.message.clone(),
            source: self.source.clone(),
            dest: self.dest.clone(),
        }
    }
}

} // verus!

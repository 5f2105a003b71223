//! Events exchanged between a producing and a consuming service.

use vstd::prelude::*;
use crate::principal::PrincipalId;
use crate::text::{spec_dec, u64_to_dec};

verus! {

/// What an event does to the entity it describes.
#[derive(Clone, Copy, PartialEq, Eq, Structural, Debug)]
pub enum MessageType {
    Create,
    Update,
    Delete,
    Replace,
}

/// The resource a message is about.
#[derive(Clone, Debug)]
pub struct MessageSource {
    pub canister_id: PrincipalId,
    pub resource_type: String,
    pub resource_id: u64,
}

/// The mathematical content of a [`MessageSource`].
pub ghost struct MessageSourceView {
    pub canister_id: PrincipalId,
    pub resource_type: Seq<char>,
    pub resource_id: u64,
}

impl View for MessageSource {
    type V = MessageSourceView;

    open spec fn view(&self) -> MessageSourceView {
        MessageSourceView {
            canister_id: self.canister_id,
            resource_type: self.resource_type@,
            resource_id: self.resource_id,
        }
    }
}

impl MessageSource {
    pub fn duplicate(&self) -> (r: MessageSource)
        ensures
            r@ == self@,
    {
        MessageSource {
            canister_id: self.canister_id,
            resource_type: self.resource_type.clone(),
            resource_id: self.resource_id,
        }
    }
}

/// The identity of a message: totally ordered by `(timestamp, internal_id)`;
/// the producing instance's identity breaks ties across producers.
#[derive(Clone, Debug)]
pub struct MessageId {
    pub timestamp: u64,
    pub internal_id: u64,
    pub canister_pid: String,
}

/// The textual rendering of a message identity.
pub open spec fn spec_message_id(timestamp: u64, internal_id: u64, canister_pid: Seq<char>) -> Seq<
    char,
> {
    spec_dec(timestamp as nat) + seq!['-'] + spec_dec(internal_id as nat) + seq!['-']
        + canister_pid
}

impl MessageId {
    /// A fresh identity from the producer's clock, its per-instance sequence
    /// number, and its own identity.
    pub fn new(internal_id: u64, timestamp: u64, canister_pid: String) -> (r: MessageId)
        ensures
            r.internal_id == internal_id,
            r.timestamp == timestamp,
            r.canister_pid == canister_pid,
    {
        MessageId { timestamp, internal_id, canister_pid }
    }

    /// Renders the identity as `"{timestamp}-{internal_id}-{canister_pid}"`.
    pub fn to_string(&self) -> (r: String)
        ensures
            r@ == spec_message_id(self.timestamp, self.internal_id, self.canister_pid@),
    {
        proof {
            reveal_strlit("-");
        }
        let mut s = u64_to_dec(self.timestamp);
        s.append("-");
        let iid = u64_to_dec(self.internal_id);
        s.append(iid.as_str());
        s.append("-");
        s.append(self.canister_pid.as_str());
        proof {
            assert(s@ =~= spec_message_id(self.timestamp, self.internal_id, self.canister_pid@));
        }
        s
    }
}

/// One event: its derived identity, its kind, the label its payload decodes
/// under, the encoded payload, the caller that produced it, and the resource
/// it points at.
#[derive(Debug)]
pub struct Message {
    pub msg_id: String,
    pub msg_type: MessageType,
    pub payload_type: String,
    pub payload: Vec<u8>,
    pub caller: PrincipalId,
    pub msg_resource: Option<MessageSource>,
    pub timestamp: u64,
}

/// The mathematical content of a [`Message`].
pub ghost struct MessageView {
    pub msg_id: Seq<char>,
    pub msg_type: MessageType,
    pub payload_type: Seq<char>,
    pub payload: Seq<u8>,
    pub caller: PrincipalId,
    pub msg_resource: Option<MessageSourceView>,
    pub timestamp: u64,
}

impl View for Message {
    type V = MessageView;

    open spec fn view(&self) -> MessageView {
        MessageView {
            msg_id: self.msg_id@,
            msg_type: self.msg_type,
            payload_type: self.payload_type@,
            payload: self.payload@,
            caller: self.caller,
            msg_resource: match self.msg_resource {
                Some(s) => Some(s@),
                None => None,
            },
            timestamp: self.timestamp,
        }
    }
}

impl Message {
    /// Builds a message around an already-encoded payload. The identity is
    /// derived from the producer's clock, sequence number and identity, so it
    /// is unique per producer even under rapid sequential calls.
    pub fn new(
        internal_id: u64,
        msg_type: MessageType,
        payload_type: String,
        payload: Vec<u8>,
        msg_resource: Option<MessageSource>,
        caller: PrincipalId,
        canister_pid: String,
        now: u64,
    ) -> (r: Message)
        ensures
            r.msg_id@ == spec_message_id(now, internal_id, canister_pid@),
            r.msg_type == msg_type,
            r.payload_type == payload_type,
            r.payload == payload,
            r.caller == caller,
            r.timestamp == now,
            r@.msg_resource == (match msg_resource {
                Some(s) => Some(s@),
                None => None::<MessageSourceView>,
            }),
    {
        let message_id = MessageId::new(internal_id, now, canister_pid);
        let msg_id = message_id.to_string();
        Message { msg_id, msg_type, payload_type, payload, caller, msg_resource, timestamp: now }
    }

    pub fn duplicate(&self) -> (r: Message)
        ensures
            r@ == self@,
    {
        Message {
            msg_id: self.msg_id.clone(),
            msg_type: self.msg_type,
            payload_type: self.payload_type.clone(),
            payload: crate::certified::copy_bytes(&self.payload),
            caller: self.caller,
            msg_resource: match &self.msg_resource {
                Some(s) => Some(s.duplicate()),
                None => None,
            },
            timestamp: self.timestamp,
        }
    }
}

} // verus!

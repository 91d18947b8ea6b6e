//! What the engine reads out of encoded data: the term of a protocol
//! message, and what a log entry carries.

use vstd::prelude::*;
use vstd::bytes::{
    lemma_auto_spec_u64_to_from_le_bytes, spec_u64_from_le_bytes, spec_u64_to_le_bytes,
    u64_from_le_bytes, u64_to_le_bytes,
};
use crate::config::{ConfChange, NodeId};
use crate::node::{BlockId, LogEntry, Payload};

verus! {

/// The kind of a log entry, as the Raft instance marks it.
#[derive(Clone, Copy, Debug, PartialEq, Eq, Structural)]
pub enum EntryKind {
    /// An entry whose data is a block reference, or nothing.
    Normal,
    /// An entry whose data is an encoded membership change.
    ConfChange,
}

/// The kind of an encoded membership change.
#[derive(Clone, Copy, Debug, PartialEq, Eq, Structural)]
pub enum ChangeKind {
    AddNode,
    RemoveNode,
    AddLearnerNode,
}

/// The term of the Raft protocol message that `bytes` encode, or none where
/// they encode no such message.
pub uninterp spec fn peer_message_term(bytes: Seq<u8>) -> Option<u64>;

/// The kind and the node of the membership change that `bytes` encode, or
/// none where they encode no such change.
pub uninterp spec fn encoded_change(bytes: Seq<u8>) -> Option<(ChangeKind, NodeId)>;

/// Decodes `bytes` with `protobuf::parse_from_bytes` as a
/// `raft::eraftpb::Message` and reads its term with `Message::get_term`.
/// Trusted: the result is the named function of the bytes alone, and a
/// failure to decode gives none.
#[verifier::external_body]
pub(crate) fn decode_term(bytes: &Vec<u8>) -> (r: Option<u64>)
    ensures
        r == peer_message_term(bytes@),
{
    match protobuf::parse_from_bytes::<raft::eraftpb::Message>(bytes.as_slice()) {
        Ok(message) => Some(message.get_term()),
        Err(_) => None,
    }
}

/// Decodes `bytes` with `protobuf::parse_from_bytes` as a
/// `raft::eraftpb::ConfChange` and reads its kind and node with
/// `ConfChange::get_change_type` and `ConfChange::get_node_id`.
/// Trusted: the result is the named function of the bytes alone, and a
/// failure to decode gives none.
#[verifier::external_body]
pub(crate) fn decode_change(bytes: &Vec<u8>) -> (r: Option<(ChangeKind, NodeId)>)
    ensures
        r == encoded_change(bytes@),
{
    match protobuf::parse_from_bytes::<raft::eraftpb::ConfChange>(bytes.as_slice()) {
        Ok(change) => {
            let kind = match change.get_change_type() {
                raft::eraftpb::ConfChangeType::AddNode => ChangeKind::AddNode,
                raft::eraftpb::ConfChangeType::RemoveNode => ChangeKind::RemoveNode,
                raft::eraftpb::ConfChangeType::AddLearnerNode => ChangeKind::AddLearnerNode,
            };
            Some((kind, change.get_node_id()))
        },
        Err(_) => None,
    }
}

/// The block that the data of a normal entry refers to: eight bytes, least
/// significant first. Data of any other length refers to none.
pub open spec fn block_of(data: Seq<u8>) -> Option<BlockId> {
    if data.len() == 8 {
        Some(spec_u64_from_le_bytes(data))
    } else {
        None
    }
}

/// What an entry of the given kind and data carries, `change` being what the
/// data decode to as a membership change. Empty data carry nothing; a
/// learner is no voter, so adding one changes no membership; data that do
/// not decode give none.
pub open spec fn payload_of(
    kind: EntryKind,
    data: Seq<u8>,
    change: Option<(ChangeKind, NodeId)>,
) -> Option<Payload> {
    if data.len() == 0 {
        Some(Payload::Noop)
    } else {
        match kind {
            EntryKind::Normal => match block_of(data) {
                Some(block) => Some(Payload::Block(block)),
                None => None,
            },
            EntryKind::ConfChange => match change {
                Some((ChangeKind::AddNode, id)) => Some(Payload::Conf(ConfChange::AddVoter(id))),
                Some((ChangeKind::RemoveNode, id)) => Some(
                    Payload::Conf(ConfChange::RemoveVoter(id)),
                ),
                Some((ChangeKind::AddLearnerNode, _)) => Some(Payload::Noop),
                None => None,
            },
        }
    }
}

/// The data of the entry that proposes the block.
pub fn encode_block(block: BlockId) -> (data: Vec<u8>)
    ensures
        data@ == spec_u64_to_le_bytes(block),
        block_of(data@) == Some(block),
{
    proof {
        lemma_auto_spec_u64_to_from_le_bytes();
    }
    u64_to_le_bytes(block)
}

/// The block that the data of a normal entry refers to.
pub fn decode_block(data: &Vec<u8>) -> (r: Option<BlockId>)
    ensures
        r == block_of(data@),
{
    if data.len() == 8 {
        Some(u64_from_le_bytes(data.as_slice()))
    } else {
        None
    }
}

/// What an entry carries, given what its data decode to as a membership
/// change.
pub fn read_payload(kind: EntryKind, data: &Vec<u8>, change: Option<(ChangeKind, NodeId)>) -> (r:
    Option<Payload>)
    ensures
        r == payload_of(kind, data@, change),
{
    if data.len() == 0 {
        return Some(Payload::Noop);
    }
    match kind {
        EntryKind::Normal => match decode_block(data) {
            Some(block) => Some(Payload::Block(block)),
            None => None,
        },
        EntryKind::ConfChange => match change {
            Some((ChangeKind::AddNode, id)) => Some(Payload::Conf(ConfChange::AddVoter(id))),
            Some((ChangeKind::RemoveNode, id)) => Some(Payload::Conf(ConfChange::RemoveVoter(id))),
            Some((ChangeKind::AddLearnerNode, _)) => Some(Payload::Noop),
            None => None,
        },
    }
}

/// The log entry at `index` and `term` with what its data carry, or none
/// where the data do not decode.
pub fn decode_entry(index: u64, term: u64, kind: EntryKind, data: &Vec<u8>) -> (r: Option<
    LogEntry,
>)
    ensures
        r == match payload_of(kind, data@, encoded_change(data@)) {
            Some(payload) => Some(LogEntry { index, term, payload }),
            None => None,
        },
{
    let change = decode_change(data);
    match read_payload(kind, data, change) {
        Some(payload) => Some(LogEntry { index, term, payload }),
        None => None,
    }
}

/// A block that is encoded for its entry is read back from it.
pub proof fn law_block_round_trip(block: BlockId)
    ensures
        payload_of(EntryKind::Normal, spec_u64_to_le_bytes(block), None) == Some(
            Payload::Block(block),
        ),
{
    lemma_auto_spec_u64_to_from_le_bytes();
}

} // verus!

use sawtooth_raft::config::ConfChange;
use sawtooth_raft::node::{LogEntry, Payload};
use sawtooth_raft::wire::{
    decode_block, decode_entry, encode_block, read_payload, ChangeKind, EntryKind,
};

fn change_bytes(kind: raft::eraftpb::ConfChangeType, node: u64) -> Vec<u8> {
    let mut change = raft::eraftpb::ConfChange::new();
    change.set_change_type(kind);
    change.set_node_id(node);
    protobuf::Message::write_to_bytes(&change).unwrap()
}

#[test]
fn block_reference_is_eight_bytes_least_significant_first() {
    assert_eq!(encode_block(0x0102_0304_0506_0708), vec![8, 7, 6, 5, 4, 3, 2, 1]);
    assert_eq!(encode_block(0), vec![0; 8]);
    assert_eq!(decode_block(&vec![8, 7, 6, 5, 4, 3, 2, 1]), Some(0x0102_0304_0506_0708));
    assert_eq!(decode_block(&vec![1, 2, 3]), None);
    assert_eq!(decode_block(&vec![0; 9]), None);
    assert_eq!(decode_block(&vec![]), None);
}

#[test]
fn block_reference_round_trips() {
    for block in [0u64, 1, 77, 255, 256, u64::MAX - 1, u64::MAX] {
        assert_eq!(decode_block(&encode_block(block)), Some(block));
        assert_eq!(
            decode_entry(3, 2, EntryKind::Normal, &encode_block(block)),
            Some(LogEntry { index: 3, term: 2, payload: Payload::Block(block) })
        );
    }
}

#[test]
fn empty_entry_carries_nothing() {
    assert_eq!(
        decode_entry(1, 1, EntryKind::Normal, &vec![]),
        Some(LogEntry { index: 1, term: 1, payload: Payload::Noop })
    );
    assert_eq!(
        decode_entry(1, 1, EntryKind::ConfChange, &vec![]),
        Some(LogEntry { index: 1, term: 1, payload: Payload::Noop })
    );
}

#[test]
fn membership_change_is_decoded() {
    let add = change_bytes(raft::eraftpb::ConfChangeType::AddNode, 4);
    assert_eq!(
        decode_entry(6, 2, EntryKind::ConfChange, &add),
        Some(LogEntry { index: 6, term: 2, payload: Payload::Conf(ConfChange::AddVoter(4)) })
    );
    let remove = change_bytes(raft::eraftpb::ConfChangeType::RemoveNode, 2);
    assert_eq!(
        decode_entry(7, 2, EntryKind::ConfChange, &remove),
        Some(LogEntry { index: 7, term: 2, payload: Payload::Conf(ConfChange::RemoveVoter(2)) })
    );
    let learner = change_bytes(raft::eraftpb::ConfChangeType::AddLearnerNode, 9);
    assert_eq!(
        decode_entry(8, 2, EntryKind::ConfChange, &learner),
        Some(LogEntry { index: 8, term: 2, payload: Payload::Noop })
    );
}

#[test]
fn undecodable_data_give_no_entry() {
    assert_eq!(decode_entry(1, 1, EntryKind::Normal, &vec![1, 2, 3]), None);
    assert_eq!(decode_entry(1, 1, EntryKind::ConfChange, &vec![0xff, 0xff, 0xff, 0xff]), None);
}

#[test]
fn payload_goes_by_the_decoded_change() {
    let data = vec![1u8, 2, 3, 4, 5, 6, 7, 8];
    assert_eq!(read_payload(EntryKind::ConfChange, &data, None), None);
    assert_eq!(
        read_payload(EntryKind::ConfChange, &data, Some((ChangeKind::AddNode, 5))),
        Some(Payload::Conf(ConfChange::AddVoter(5)))
    );
    assert_eq!(
        read_payload(EntryKind::ConfChange, &data, Some((ChangeKind::RemoveNode, 5))),
        Some(Payload::Conf(ConfChange::RemoveVoter(5)))
    );
    assert_eq!(
        read_payload(EntryKind::ConfChange, &data, Some((ChangeKind::AddLearnerNode, 5))),
        Some(Payload::Noop)
    );
    assert_eq!(
        read_payload(EntryKind::Normal, &data, Some((ChangeKind::AddNode, 5))),
        Some(Payload::Block(0x0807_0605_0403_0201))
    );
}

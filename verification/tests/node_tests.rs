use sawtooth_raft::config::{ClusterConfig, ConfChange};
use sawtooth_raft::node::{HardState, LogEntry, Node, NodeError, Payload, PeerMessage, Ready, Role};

fn empty_batch() -> Ready {
    Ready { entries: vec![], hard_state: None, messages: vec![], committed: vec![], role_change: None }
}

fn node_at(term: u64, role: Role) -> Node {
    let mut node = Node::new(ClusterConfig::new(1, vec![1, 2, 3]).unwrap());
    let mut batch = empty_batch();
    batch.hard_state = Some(HardState { term, voted_for: 1, committed: 0 });
    batch.role_change = Some(role);
    assert!(node.ready(batch).is_some());
    node.advance();
    node
}

#[test]
fn node_starts_as_follower() {
    let node = Node::new(ClusterConfig::single(1));
    assert_eq!(node.role(), Role::Follower);
    assert_eq!(node.term(), 0);
    assert_eq!(node.clock(), 0);
    assert!(!node.is_draining());
}

#[test]
fn stale_message_is_refused_and_changes_nothing() {
    let mut node = node_at(5, Role::Follower);
    assert_eq!(node.step(4), Err(NodeError::StaleTerm));
    assert_eq!(node.step(0), Err(NodeError::StaleTerm));
    assert_eq!(node.role(), Role::Follower);
    assert_eq!(node.term(), 5);
    assert!(!node.is_draining());
    assert!(node.ready(empty_batch()).is_none());
    assert_eq!(node.step(5), Ok(()));
    assert_eq!(node.step(6), Ok(()));
}

#[test]
fn only_the_leader_proposes() {
    assert_eq!(node_at(2, Role::Follower).propose(10), Err(NodeError::NotLeader));
    assert_eq!(node_at(2, Role::Candidate).propose(10), Err(NodeError::NotLeader));
    assert_eq!(node_at(2, Role::Leader).propose(10), Ok(2));
}

#[test]
fn empty_batch_is_not_handed_on() {
    let mut node = Node::new(ClusterConfig::single(1));
    assert!(node.ready(empty_batch()).is_none());
    assert!(!node.is_draining());
}

#[test]
fn batch_must_be_acknowledged_before_the_next_call() {
    let mut node = node_at(1, Role::Leader);
    let mut batch = empty_batch();
    batch.messages.push(PeerMessage { to: 2, bytes: vec![1, 2, 3] });
    let handed = node.ready(batch).unwrap();
    assert_eq!(handed.messages, vec![PeerMessage { to: 2, bytes: vec![1, 2, 3] }]);
    assert!(node.is_draining());
    assert_eq!(node.tick(), Err(NodeError::ReadyPending));
    assert_eq!(node.clock(), 0);
    assert_eq!(node.propose(1), Err(NodeError::ReadyPending));
    assert_eq!(node.step(1), Err(NodeError::ReadyPending));
    assert_eq!(node.step(0), Err(NodeError::StaleTerm));
    let mut second = empty_batch();
    second.entries.push(LogEntry { index: 1, term: 1, payload: Payload::Block(4) });
    assert!(node.ready(second).is_none());
    node.advance();
    assert_eq!(node.tick(), Ok(()));
    assert_eq!(node.clock(), 1);
}

#[test]
fn batch_mirrors_role_and_term() {
    let mut node = node_at(3, Role::Candidate);
    assert_eq!(node.role(), Role::Candidate);
    assert_eq!(node.term(), 3);
    let mut batch = empty_batch();
    batch.hard_state = Some(HardState { term: 2, voted_for: 0, committed: 0 });
    assert!(node.ready(batch).is_some());
    node.advance();
    assert_eq!(node.term(), 3);
    assert_eq!(node.role(), Role::Candidate);
}

#[test]
fn node_applies_membership_changes() {
    let mut node = node_at(1, Role::Leader);
    node.apply_conf_change(ConfChange::AddVoter(4));
    assert_eq!(node.config().len(), 4);
    assert_eq!(node.config().quorum(), 3);
    node.apply_conf_change(ConfChange::RemoveVoter(2));
    assert!(!node.config().contains(2));
    assert_eq!(node.config().len(), 3);
}

use sawtooth_raft::config::{ClusterConfig, ConfChange, ConfigError};

fn voters_of(c: &ClusterConfig) -> Vec<u64> {
    let mut v = Vec::new();
    let mut i = 0;
    while let Some(id) = c.voter_at(i) {
        v.push(id);
        i += 1;
    }
    v
}

#[test]
fn valid_membership_is_accepted() {
    let c = ClusterConfig::new(2, vec![1, 2, 3]).unwrap();
    assert_eq!(c.local_id(), 2);
    assert_eq!(c.len(), 3);
    assert_eq!(voters_of(&c), vec![1, 2, 3]);
    assert!(c.contains(3));
    assert!(!c.contains(4));
}

#[test]
fn local_must_be_a_voter() {
    assert_eq!(ClusterConfig::new(4, vec![1, 2, 3]).unwrap_err(), ConfigError::LocalNotMember);
    assert_eq!(ClusterConfig::new(1, vec![]).unwrap_err(), ConfigError::LocalNotMember);
}

#[test]
fn voters_must_be_distinct() {
    assert_eq!(ClusterConfig::new(1, vec![1, 2, 2]).unwrap_err(), ConfigError::DuplicateMember);
    assert_eq!(ClusterConfig::new(1, vec![1, 2, 1]).unwrap_err(), ConfigError::DuplicateMember);
}

#[test]
fn quorum_is_a_strict_majority() {
    assert_eq!(ClusterConfig::single(9).quorum(), 1);
    assert_eq!(ClusterConfig::new(1, vec![1, 2]).unwrap().quorum(), 2);
    assert_eq!(ClusterConfig::new(1, vec![1, 2, 3]).unwrap().quorum(), 2);
    assert_eq!(ClusterConfig::new(1, vec![1, 2, 3, 4]).unwrap().quorum(), 3);
    assert_eq!(ClusterConfig::new(1, vec![1, 2, 3, 4, 5]).unwrap().quorum(), 3);
}

#[test]
fn membership_changes_apply() {
    let mut c = ClusterConfig::new(1, vec![1, 2, 3]).unwrap();
    assert_eq!(c.current_version(), 0);
    c.apply(ConfChange::AddVoter(5));
    assert_eq!(c.current_version(), 1);
    assert_eq!(voters_of(&c), vec![1, 2, 3, 5]);
    c.apply(ConfChange::AddVoter(2));
    assert_eq!(voters_of(&c), vec![1, 2, 3, 5]);
    c.apply(ConfChange::RemoveVoter(2));
    assert_eq!(voters_of(&c), vec![1, 3, 5]);
    c.apply(ConfChange::RemoveVoter(7));
    assert_eq!(voters_of(&c), vec![1, 3, 5]);
    c.apply(ConfChange::RemoveVoter(1));
    assert_eq!(voters_of(&c), vec![1, 3, 5]);
    assert_eq!(c.local_id(), 1);
    assert_eq!(c.current_version(), 5);
}

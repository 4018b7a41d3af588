use outbound::discovery::{DiscoveryError, Error};

#[test]
fn a_rejection_is_described() {
    assert_eq!(DiscoveryError::DiscoveryRejected.to_string(), "discovery rejected");
}

#[test]
fn any_other_failure_is_described_by_its_message() {
    let err = DiscoveryError::from(Error::Other("connection refused".to_string()));
    assert_eq!(err, DiscoveryError::Inner("connection refused".to_string()));
    assert_eq!(err.to_string(), "connection refused");
    assert_eq!(DiscoveryError::Inner(String::new()).to_string(), "");
}

#[test]
fn what_rejects_a_target_is_a_rejection() {
    assert_eq!(
        DiscoveryError::from(Error::DiscoveryRejected),
        DiscoveryError::DiscoveryRejected
    );
    assert_eq!(
        DiscoveryError::from(Error::InvalidProfileAddr),
        DiscoveryError::DiscoveryRejected
    );
}

#[test]
fn classifying_again_changes_nothing() {
    for err in vec![
        DiscoveryError::DiscoveryRejected,
        DiscoveryError::Inner("discovery rejected".to_string()),
    ] {
        assert_eq!(DiscoveryError::from(Error::Discovery(err.clone())), err);
    }
}

#[test]
fn only_classified_rejections_are_recognized() {
    assert!(DiscoveryError::is_discovery_rejected(&Error::Discovery(
        DiscoveryError::DiscoveryRejected
    )));
    assert!(!DiscoveryError::is_discovery_rejected(&Error::DiscoveryRejected));
    assert!(!DiscoveryError::is_discovery_rejected(&Error::InvalidProfileAddr));
    assert!(!DiscoveryError::is_discovery_rejected(&Error::Discovery(
        DiscoveryError::Inner("discovery rejected".to_string())
    )));
    assert!(!DiscoveryError::is_discovery_rejected(&Error::Other(
        "discovery rejected".to_string()
    )));
}

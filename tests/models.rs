use mentor_realtime::models::{ApplicationStatus, MatchingStatus, UserRole};

#[test]
fn role_names_round_trip() {
    for r in [UserRole::Member, UserRole::Sponsor, UserRole::Admin] {
        assert_eq!(UserRole::parse(r.as_str()), Some(r));
    }
    assert_eq!(UserRole::Sponsor.as_str(), "Sponsor");
    assert_eq!(UserRole::parse("sponsor"), None);
    assert_eq!(UserRole::parse(""), None);
}

#[test]
fn status_names_round_trip() {
    assert_eq!(ApplicationStatus::parse("Approved"), Some(ApplicationStatus::Approved));
    assert_eq!(ApplicationStatus::Rejected.as_str(), "Rejected");
    assert_eq!(MatchingStatus::parse("Declined"), Some(MatchingStatus::Declined));
    assert_eq!(MatchingStatus::Accepted.as_str(), "Accepted");
    assert_eq!(MatchingStatus::parse("Maybe"), None);
}

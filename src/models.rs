use vstd::prelude::*;
use vstd::string::*;
use crate::text::same_text;

verus! {

/// The role of an account.
#[derive(Debug, Clone, Copy, PartialEq, Eq, Structural)]
pub enum UserRole {
    Member,
    Sponsor,
    Admin,
}

/// The name of each variant, as it is written out and read back.
pub open spec fn user_role_name(v: UserRole) -> Seq<char> {
    match v {
        UserRole::Member => seq!['M', 'e', 'm', 'b', 'e', 'r'],
        UserRole::Sponsor => seq!['S', 'p', 'o', 'n', 's', 'o', 'r'],
        UserRole::Admin => seq!['A', 'd', 'm', 'i', 'n'],
    }
}

impl UserRole {
    /// The variant's name.
    pub fn as_str(&self) -> (r: &'static str)
        ensures
            r@ == user_role_name(*self),
    {
        match self {
            UserRole::Member => {
                proof {
                    reveal_strlit("Member");
                }
                let r = "Member";
                assert(r@ =~= seq!['M', 'e', 'm', 'b', 'e', 'r']);
                r
            },
            UserRole::Sponsor => {
                proof {
                    reveal_strlit("Sponsor");
                }
                let r = "Sponsor";
                assert(r@ =~= seq!['S', 'p', 'o', 'n', 's', 'o', 'r']);
                r
            },
            UserRole::Admin => {
                proof {
                    reveal_strlit("Admin");
                }
                let r = "Admin";
                assert(r@ =~= seq!['A', 'd', 'm', 'i', 'n']);
                r
            },
        }
    }

    /// The variant that `s` names exactly, if any.
    pub fn parse(s: &str) -> (r: Option<UserRole>)
        ensures
            match r {
                Some(v) => user_role_name(v) == s@,
                None => forall|v: UserRole| user_role_name(v) != s@,
            },
    {
        if same_text(s, UserRole::Member.as_str()) {
            return Some(UserRole::Member);
        }
        if same_text(s, UserRole::Sponsor.as_str()) {
            return Some(UserRole::Sponsor);
        }
        if same_text(s, UserRole::Admin.as_str()) {
            return Some(UserRole::Admin);
        }
        proof {
            assert forall|v: UserRole| user_role_name(v) != s@ by {
                match v {
                    UserRole::Member => {},
                    UserRole::Sponsor => {},
                    UserRole::Admin => {},
                }
            }
        }
        None
    }
}

/// Where a sponsor application stands.
#[derive(Debug, Clone, Copy, PartialEq, Eq, Structural)]
pub enum ApplicationStatus {
    Pending,
    Approved,
    Rejected,
}

/// The name of each variant, as it is written out and read back.
pub open spec fn application_status_name(v: ApplicationStatus) -> Seq<char> {
    match v {
        ApplicationStatus::Pending => seq!['P', 'e', 'n', 'd', 'i', 'n', 'g'],
        ApplicationStatus::Approved => seq!['A', 'p', 'p', 'r', 'o', 'v', 'e', 'd'],
        ApplicationStatus::Rejected => seq!['R', 'e', 'j', 'e', 'c', 't', 'e', 'd'],
    }
}

impl ApplicationStatus {
    /// The variant's name.
    pub fn as_str(&self) -> (r: &'static str)
        ensures
            r@ == application_status_name(*self),
    {
        match self {
            ApplicationStatus::Pending => {
                proof {
                    reveal_strlit("Pending");
                }
                let r = "Pending";
                assert(r@ =~= seq!['P', 'e', 'n', 'd', 'i', 'n', 'g']);
                r
            },
            ApplicationStatus::Approved => {
                proof {
                    reveal_strlit("Approved");
                }
                let r = "Approved";
                assert(r@ =~= seq!['A', 'p', 'p', 'r', 'o', 'v', 'e', 'd']);
                r
            },
            ApplicationStatus::Rejected => {
                proof {
                    reveal_strlit("Rejected");
                }
                let r = "Rejected";
                assert(r@ =~= seq!['R', 'e', 'j', 'e', 'c', 't', 'e', 'd']);
                r
            },
        }
    }

    /// The variant that `s` names exactly, if any.
    pub fn parse(s: &str) -> (r: Option<ApplicationStatus>)
        ensures
            match r {
                Some(v) => application_status_name(v) == s@,
                None => forall|v: ApplicationStatus| application_status_name(v) != s@,
            },
    {
        if same_text(s, ApplicationStatus::Pending.as_str()) {
            return Some(ApplicationStatus::Pending);
        }
        if same_text(s, ApplicationStatus::Approved.as_str()) {
            return Some(ApplicationStatus::Approved);
        }
        if same_text(s, ApplicationStatus::Rejected.as_str()) {
            return Some(ApplicationStatus::Rejected);
        }
        proof {
            assert forall|v: ApplicationStatus| application_status_name(v) != s@ by {
                match v {
                    ApplicationStatus::Pending => {},
                    ApplicationStatus::Approved => {},
                    ApplicationStatus::Rejected => {},
                }
            }
        }
        None
    }
}

/// Where a request for a sponsor stands.
#[derive(Debug, Clone, Copy, PartialEq, Eq, Structural)]
pub enum MatchingStatus {
    Pending,
    Accepted,
    Declined,
}

/// The name of each variant, as it is written out and read back.
pub open spec fn matching_status_name(v: MatchingStatus) -> Seq<char> {
    match v {
        MatchingStatus::Pending => seq!['P', 'e', 'n', 'd', 'i', 'n', 'g'],
        MatchingStatus::Accepted => seq!['A', 'c', 'c', 'e', 'p', 't', 'e', 'd'],
        MatchingStatus::Declined => seq!['D', 'e', 'c', 'l', 'i', 'n', 'e', 'd'],
    }
}

impl MatchingStatus {
    /// The variant's name.
    pub fn as_str(&self) -> (r: &'static str)
        ensures
            r@ == matching_status_name(*self),
    {
        match self {
            MatchingStatus::Pending => {
                proof {
                    reveal_strlit("Pending");
                }
                let r = "Pending";
                assert(r@ =~= seq!['P', 'e', 'n', 'd', 'i', 'n', 'g']);
                r
            },
            MatchingStatus::Accepted => {
                proof {
                    reveal_strlit("Accepted");
                }
                let r = "Accepted";
                assert(r@ =~= seq!['A', 'c', 'c', 'e', 'p', 't', 'e', 'd']);
                r
            },
            MatchingStatus::Declined => {
                proof {
                    reveal_strlit("Declined");
                }
                let r = "Declined";
                assert(r@ =~= seq!['D', 'e', 'c', 'l', 'i', 'n', 'e', 'd']);
                r
            },
        }
    }

    /// The variant that `s` names exactly, if any.
    pub fn parse(s: &str) -> (r: Option<MatchingStatus>)
        ensures
            match r {
                Some(v) => matching_status_name(v) == s@,
                None => forall|v: MatchingStatus| matching_status_name(v) != s@,
            },
    {
        if same_text(s, MatchingStatus::Pending.as_str()) {
            return Some(MatchingStatus::Pending);
        }
        if same_text(s, MatchingStatus::Accepted.as_str()) {
            return Some(MatchingStatus::Accepted);
        }
        if same_text(s, MatchingStatus::Declined.as_str()) {
            return Some(MatchingStatus::Declined);
        }
        proof {
            assert forall|v: MatchingStatus| matching_status_name(v) != s@ by {
                match v {
                    MatchingStatus::Pending => {},
                    MatchingStatus::Accepted => {},
                    MatchingStatus::Declined => {},
                }
            }
        }
        None
    }
}

/// What kind of item a report is about.
#[derive(Debug, Clone, Copy, PartialEq, Eq, Structural)]
pub enum ReportedType {
    Message,
    GroupChatMessage,
    GroupChat,
    User,
    Post,
    Comment,
}

/// Where a report stands.
#[derive(Debug, Clone, Copy, PartialEq, Eq, Structural)]
pub enum ReportStatus {
    Pending,
    Resolved,
    Reviewed,
}

/// What kind of announcement a notice is.
#[derive(Debug, Clone, Copy, PartialEq, Eq, Structural)]
pub enum AnnouncementType {
    General,
    Recommended,
    MeetingReminder,
    Invitation,
}

/// The body of a new sponsor application.
pub struct SponsorApplicationRequest {
    pub application_info: String,
}

/// The body of a change to a pending sponsor application.
pub struct UpdateSponsorApplicationRequest {
    pub application_info: String,
}

/// The body of a login request.
pub struct LoginRequest {
    pub username: String,
    pub password: String,
}

} // verus!

//! The well-known keys of a release descriptor and the patterns that
//! recognise their lines.

use vstd::prelude::*;

verus! {

/// The number of well-known keys.
pub const FIELD_COUNT: usize = 11;

pub const NAME_PATTERN: &'static str = r#"^NAME="?([^"]+)"?$"#;

pub const VERSION_PATTERN: &'static str = r#"^VERSION="?([^"]+)"?$"#;

pub const ID_PATTERN: &'static str = r#"^ID="?([^"]+)"?$"#;

pub const ID_LIKE_PATTERN: &'static str = r#"^ID_LIKE="?([^"]+)"?$"#;

pub const PRETTY_NAME_PATTERN: &'static str = r#"^PRETTY_NAME="?([^"]+)"?$"#;

pub const VERSION_ID_PATTERN: &'static str = r#"^VERSION_ID="?([^"]+)"?$"#;

pub const HOME_URL_PATTERN: &'static str = r#"^HOME_URL="?([^"]+)"?$"#;

pub const SUPPORT_URL_PATTERN: &'static str = r#"^SUPPORT_URL="?([^"]+)"?$"#;

pub const BUG_REPORT_URL_PATTERN: &'static str = r#"^BUG_REPORT_URL="?([^"]+)"?$"#;

pub const PRIVACY_POLICY_URL_PATTERN: &'static str = r#"^PRIVACY_POLICY_URL="?([^"]+)"?$"#;

pub const VERSION_CODENAME_PATTERN: &'static str = r#"^VERSION_CODENAME="?([^"]+)"?$"#;

/// The pattern for a line with any other key: a run of word characters, `=`,
/// and a value, found anywhere in the line. Group 1 is the key, group 2 the
/// value.
pub const EXTRA_PATTERN: &'static str = r#"(\w+)="?([^"]+)"?"#;

/// A well-known key of a release descriptor. The variants stand in the order
/// in which a line is tried against them.
#[derive(Clone, Copy, Debug, PartialEq, Eq, Structural)]
pub enum Field {
    Name,
    Version,
    Id,
    IdLike,
    PrettyName,
    VersionId,
    HomeUrl,
    SupportUrl,
    BugReportUrl,
    PrivacyPolicyUrl,
    VersionCodename,
}

impl Field {
    /// The place of this key in the order of the trials, from 0.
    pub open spec fn rank(self) -> int {
        match self {
            Field::Name => 0,
            Field::Version => 1,
            Field::Id => 2,
            Field::IdLike => 3,
            Field::PrettyName => 4,
            Field::VersionId => 5,
            Field::HomeUrl => 6,
            Field::SupportUrl => 7,
            Field::BugReportUrl => 8,
            Field::PrivacyPolicyUrl => 9,
            Field::VersionCodename => 10,
        }
    }

    /// The key that is tried at place `rank`; the last one for a place past
    /// the end.
    pub open spec fn at(rank: int) -> Field {
        if rank <= 0 {
            Field::Name
        } else if rank == 1 {
            Field::Version
        } else if rank == 2 {
            Field::Id
        } else if rank == 3 {
            Field::IdLike
        } else if rank == 4 {
            Field::PrettyName
        } else if rank == 5 {
            Field::VersionId
        } else if rank == 6 {
            Field::HomeUrl
        } else if rank == 7 {
            Field::SupportUrl
        } else if rank == 8 {
            Field::BugReportUrl
        } else if rank == 9 {
            Field::PrivacyPolicyUrl
        } else {
            Field::VersionCodename
        }
    }

    /// Every key has its own place among the eleven.
    pub proof fn lemma_rank_names_the_key(self)
        ensures
            0 <= self.rank() < FIELD_COUNT,
            Field::at(self.rank()) == self,
    {
    }

    /// The pattern that a line has to match, from its first character to its
    /// last, to set this key. Group 1 of the pattern is the value.
    pub open spec fn spec_pattern(self) -> Seq<char> {
        match self {
            Field::Name => NAME_PATTERN@,
            Field::Version => VERSION_PATTERN@,
            Field::Id => ID_PATTERN@,
            Field::IdLike => ID_LIKE_PATTERN@,
            Field::PrettyName => PRETTY_NAME_PATTERN@,
            Field::VersionId => VERSION_ID_PATTERN@,
            Field::HomeUrl => HOME_URL_PATTERN@,
            Field::SupportUrl => SUPPORT_URL_PATTERN@,
            Field::BugReportUrl => BUG_REPORT_URL_PATTERN@,
            Field::PrivacyPolicyUrl => PRIVACY_POLICY_URL_PATTERN@,
            Field::VersionCodename => VERSION_CODENAME_PATTERN@,
        }
    }

    /// The key that is tried at place `rank`.
    pub fn by_rank(rank: usize) -> (field: Field)
        requires
            rank < FIELD_COUNT,
        ensures
            field == Field::at(rank as int),
            field.rank() == rank,
    {
        if rank == 0 {
            Field::Name
        } else if rank == 1 {
            Field::Version
        } else if rank == 2 {
            Field::Id
        } else if rank == 3 {
            Field::IdLike
        } else if rank == 4 {
            Field::PrettyName
        } else if rank == 5 {
            Field::VersionId
        } else if rank == 6 {
            Field::HomeUrl
        } else if rank == 7 {
            Field::SupportUrl
        } else if rank == 8 {
            Field::BugReportUrl
        } else if rank == 9 {
            Field::PrivacyPolicyUrl
        } else {
            Field::VersionCodename
        }
    }

    /// The pattern that recognises a line for this key.
    pub fn pattern(self) -> (pattern: &'static str)
        ensures
            pattern@ == self.spec_pattern(),
    {
        match self {
            Field::Name => NAME_PATTERN,
            Field::Version => VERSION_PATTERN,
            Field::Id => ID_PATTERN,
            Field::IdLike => ID_LIKE_PATTERN,
            Field::PrettyName => PRETTY_NAME_PATTERN,
            Field::VersionId => VERSION_ID_PATTERN,
            Field::HomeUrl => HOME_URL_PATTERN,
            Field::SupportUrl => SUPPORT_URL_PATTERN,
            Field::BugReportUrl => BUG_REPORT_URL_PATTERN,
            Field::PrivacyPolicyUrl => PRIVACY_POLICY_URL_PATTERN,
            Field::VersionCodename => VERSION_CODENAME_PATTERN,
        }
    }
}

} // verus!

//! The record of a release descriptor and its construction from lines.

use vstd::prelude::*;
use crate::extra::ExtraMap;
use crate::field::{Field, EXTRA_PATTERN, FIELD_COUNT};
use crate::matching::{captures, group_text, regex_captures, take_group};

verus! {

/// What one line gives to the record.
#[derive(Debug, PartialEq, Eq)]
pub enum Assignment {
    /// A value for a well-known key.
    Known(Field, String),
    /// A value for any other key.
    Other(String, String),
}

/// An [`Assignment`] as plain text.
pub enum AssignmentView {
    Known(Field, Seq<char>),
    Other(Seq<char>, Seq<char>),
}

impl View for Assignment {
    type V = AssignmentView;

    open spec fn view(&self) -> AssignmentView {
        match self {
            Assignment::Known(field, value) => AssignmentView::Known(*field, value@),
            Assignment::Other(key, value) => AssignmentView::Other(key@, value@),
        }
    }
}

impl DeepView for Assignment {
    type V = AssignmentView;

    open spec fn deep_view(&self) -> AssignmentView {
        self@
    }
}

/// Contents of a release descriptor such as `/etc/os-release`.
#[derive(Debug, PartialEq)]
pub struct OsRelease {
    /// The URL where bugs should be reported for this OS.
    pub bug_report_url: String,
    /// The homepage of this OS.
    pub home_url: String,
    /// Identifier of the upstream OS that this release derives from, such as
    /// `debian`.
    pub id_like: String,
    /// An identifier which describes this release, such as `ubuntu`.
    pub id: String,
    /// The name of this release, without the version string.
    pub name: String,
    /// The name of this release, with the version string.
    pub pretty_name: String,
    /// The URL describing this OS's privacy policy.
    pub privacy_policy_url: String,
    /// The URL for seeking support with this OS release.
    pub support_url: String,
    /// The codename of this version, such as `bionic`.
    pub version_codename: String,
    /// The version of this OS release, such as `18.04`.
    pub version_id: String,
    /// The version of this OS release, with additional details about the
    /// release.
    pub version: String,
    /// The keys that are not covered by the fields above.
    pub extra: ExtraMap,
}

/// An [`OsRelease`] as plain text.
#[verifier::ext_equal]
pub struct OsReleaseView {
    pub bug_report_url: Seq<char>,
    pub home_url: Seq<char>,
    pub id_like: Seq<char>,
    pub id: Seq<char>,
    pub name: Seq<char>,
    pub pretty_name: Seq<char>,
    pub privacy_policy_url: Seq<char>,
    pub support_url: Seq<char>,
    pub version_codename: Seq<char>,
    pub version_id: Seq<char>,
    pub version: Seq<char>,
    pub extra: Map<Seq<char>, Seq<char>>,
}

impl OsReleaseView {
    /// The record in which every field is empty and no other key is held.
    pub open spec fn empty() -> OsReleaseView {
        OsReleaseView {
            bug_report_url: Seq::empty(),
            home_url: Seq::empty(),
            id_like: Seq::empty(),
            id: Seq::empty(),
            name: Seq::empty(),
            pretty_name: Seq::empty(),
            privacy_policy_url: Seq::empty(),
            support_url: Seq::empty(),
            version_codename: Seq::empty(),
            version_id: Seq::empty(),
            version: Seq::empty(),
            extra: Map::empty(),
        }
    }

    /// The value of a well-known key.
    pub open spec fn get(self, field: Field) -> Seq<char> {
        match field {
            Field::Name => self.name,
            Field::Version => self.version,
            Field::Id => self.id,
            Field::IdLike => self.id_like,
            Field::PrettyName => self.pretty_name,
            Field::VersionId => self.version_id,
            Field::HomeUrl => self.home_url,
            Field::SupportUrl => self.support_url,
            Field::BugReportUrl => self.bug_report_url,
            Field::PrivacyPolicyUrl => self.privacy_policy_url,
            Field::VersionCodename => self.version_codename,
        }
    }

    /// This record with `value` in the place of one well-known key.
    pub open spec fn with(self, field: Field, value: Seq<char>) -> OsReleaseView {
        match field {
            Field::Name => OsReleaseView { name: value, ..self },
            Field::Version => OsReleaseView { version: value, ..self },
            Field::Id => OsReleaseView { id: value, ..self },
            Field::IdLike => OsReleaseView { id_like: value, ..self },
            Field::PrettyName => OsReleaseView { pretty_name: value, ..self },
            Field::VersionId => OsReleaseView { version_id: value, ..self },
            Field::HomeUrl => OsReleaseView { home_url: value, ..self },
            Field::SupportUrl => OsReleaseView { support_url: value, ..self },
            Field::BugReportUrl => OsReleaseView { bug_report_url: value, ..self },
            Field::PrivacyPolicyUrl => OsReleaseView { privacy_policy_url: value, ..self },
            Field::VersionCodename => OsReleaseView { version_codename: value, ..self },
        }
    }

    /// This record after one assignment: a well-known key takes the value and
    /// nothing else changes; any other key takes the value in `extra`,
    /// whatever it held there before.
    pub open spec fn assign(self, assignment: AssignmentView) -> OsReleaseView {
        match assignment {
            AssignmentView::Known(field, value) => self.with(field, value),
            AssignmentView::Other(key, value) => OsReleaseView {
                extra: self.extra.insert(key, value),
                ..self
            },
        }
    }

    /// This record after what one line gives to it, if anything.
    pub open spec fn absorb(self, assignment: Option<AssignmentView>) -> OsReleaseView {
        match assignment {
            Some(assignment) => self.assign(assignment),
            None => self,
        }
    }
}

impl View for OsRelease {
    type V = OsReleaseView;

    open spec fn view(&self) -> OsReleaseView {
        OsReleaseView {
            bug_report_url: self.bug_report_url@,
            home_url: self.home_url@,
            id_like: self.id_like@,
            id: self.id@,
            name: self.name@,
            pretty_name: self.pretty_name@,
            privacy_policy_url: self.privacy_policy_url@,
            support_url: self.support_url@,
            version_codename: self.version_codename@,
            version_id: self.version_id@,
            version: self.version@,
            extra: self.extra@,
        }
    }
}

impl Clone for OsRelease {
    fn clone(&self) -> (copy: OsRelease)
        ensures
            copy@ == self@,
    {
        OsRelease {
            bug_report_url: self.bug_report_url.clone(),
            home_url: self.home_url.clone(),
            id_like: self.id_like.clone(),
            id: self.id.clone(),
            name: self.name.clone(),
            pretty_name: self.pretty_name.clone(),
            privacy_policy_url: self.privacy_policy_url.clone(),
            support_url: self.support_url.clone(),
            version_codename: self.version_codename.clone(),
            version_id: self.version_id.clone(),
            version: self.version.clone(),
            extra: self.extra.clone(),
        }
    }
}

impl Default for OsRelease {
    /// The record in which every field is empty and no other key is held.
    fn default() -> (release: OsRelease)
        ensures
            release@ == OsReleaseView::empty(),
    {
        OsRelease {
            bug_report_url: String::new(),
            home_url: String::new(),
            id_like: String::new(),
            id: String::new(),
            name: String::new(),
            pretty_name: String::new(),
            privacy_policy_url: String::new(),
            support_url: String::new(),
            version_codename: String::new(),
            version_id: String::new(),
            version: String::new(),
            extra: ExtraMap::new(),
        }
    }
}

/// The value that a line gives to `field`, if the line matches the pattern of
/// that key.
pub open spec fn recognized_value(field: Field, line: Seq<char>) -> Option<Seq<char>> {
    group_text(regex_captures(field.spec_pattern(), line), 1)
}

/// The first well-known key from place `from` on whose pattern the line
/// matches, with the value that the line gives to it.
pub open spec fn first_recognized(line: Seq<char>, from: int) -> Option<AssignmentView>
    decreases FIELD_COUNT - from,
{
    if from < 0 || from >= FIELD_COUNT {
        None
    } else {
        match recognized_value(Field::at(from), line) {
            Some(value) => Some(AssignmentView::Known(Field::at(from), value)),
            None => first_recognized(line, from + 1),
        }
    }
}

/// The key and the value that the pattern for other keys finds in a line.
pub open spec fn other_pair(line: Seq<char>) -> Option<AssignmentView> {
    let groups = regex_captures(EXTRA_PATTERN@, line);
    match (group_text(groups, 1), group_text(groups, 2)) {
        (Some(key), Some(value)) => Some(AssignmentView::Other(key, value)),
        _ => None,
    }
}

/// What a line gives to the record: the value of the first well-known key
/// whose pattern it matches; failing all of those, the pair that the pattern
/// for other keys finds in it; failing that too, nothing.
pub open spec fn line_assignment(line: Seq<char>) -> Option<AssignmentView> {
    match first_recognized(line, 0) {
        Some(assignment) => Some(assignment),
        None => other_pair(line),
    }
}

/// Reads one line.
pub fn parse_line(line: &str) -> (assignment: Option<Assignment>)
    ensures
        assignment.deep_view() == line_assignment(line@),
{
    let mut rank: usize = 0;
    while rank < FIELD_COUNT
        invariant
            rank <= FIELD_COUNT,
            first_recognized(line@, 0) == first_recognized(line@, rank as int),
        decreases FIELD_COUNT - rank,
    {
        let field = Field::by_rank(rank);
        let groups = captures(field.pattern(), line);
        match take_group(&groups, 1) {
            Some(value) => {
                return Some(Assignment::Known(field, value));
            },
            None => {},
        }
        rank += 1;
    }
    let groups = captures(EXTRA_PATTERN, line);
    match take_group(&groups, 1) {
        Some(key) => match take_group(&groups, 2) {
            Some(value) => Some(Assignment::Other(key, value)),
            None => None,
        },
        None => None,
    }
}

/// The record that a sequence of lines gives: the empty record after each
/// line, in turn, has given what it holds.
pub open spec fn parse_lines(lines: Seq<Seq<char>>) -> OsReleaseView
    decreases lines.len(),
{
    if lines.len() == 0 {
        OsReleaseView::empty()
    } else {
        parse_lines(lines.drop_last()).absorb(line_assignment(lines.last()))
    }
}

impl OsRelease {
    /// The value of a well-known key.
    pub fn get(&self, field: Field) -> (value: &String)
        ensures
            value@ == self@.get(field),
    {
        match field {
            Field::Name => &self.name,
            Field::Version => &self.version,
            Field::Id => &self.id,
            Field::IdLike => &self.id_like,
            Field::PrettyName => &self.pretty_name,
            Field::VersionId => &self.version_id,
            Field::HomeUrl => &self.home_url,
            Field::SupportUrl => &self.support_url,
            Field::BugReportUrl => &self.bug_report_url,
            Field::PrivacyPolicyUrl => &self.privacy_policy_url,
            Field::VersionCodename => &self.version_codename,
        }
    }

    /// Gives a well-known key a value.
    pub fn set(&mut self, field: Field, value: String)
        ensures
            final(self)@ == old(self)@.with(field, value@),
    {
        match field {
            Field::Name => {
                self.name = value;
            },
            Field::Version => {
                self.version = value;
            },
            Field::Id => {
                self.id = value;
            },
            Field::IdLike => {
                self.id_like = value;
            },
            Field::PrettyName => {
                self.pretty_name = value;
            },
            Field::VersionId => {
                self.version_id = value;
            },
            Field::HomeUrl => {
                self.home_url = value;
            },
            Field::SupportUrl => {
                self.support_url = value;
            },
            Field::BugReportUrl => {
                self.bug_report_url = value;
            },
            Field::PrivacyPolicyUrl => {
                self.privacy_policy_url = value;
            },
            Field::VersionCodename => {
                self.version_codename = value;
            },
        }
    }

    /// Takes in what one line gave.
    pub fn assign(&mut self, assignment: Assignment)
        ensures
            final(self)@ == old(self)@.assign(assignment@),
    {
        match assignment {
            Assignment::Known(field, value) => {
                self.set(field, value);
            },
            Assignment::Other(key, value) => {
                self.extra.insert(key, value);
            },
        }
    }

    /// Reads a descriptor from its lines, first to last. No line is refused:
    /// one that matches no pattern leaves the record as it was.
    pub fn from_iter(lines: Vec<String>) -> (release: OsRelease)
        ensures
            release@ == parse_lines(lines.deep_view()),
    {
        let mut release = OsRelease::default();
        let mut i: usize = 0;
        while i < lines.len()
            invariant
                i <= lines.len(),
                release@ == parse_lines(lines.deep_view().take(i as int)),
            decreases lines.len() - i,
        {
            let assignment = parse_line(lines[i].as_str());
            proof {
                let read = lines.deep_view().take(i + 1);
                assert(read.drop_last() =~= lines.deep_view().take(i as int));
                assert(read.last() == lines[i as int]@);
            }
            match assignment {
                Some(assignment) => {
                    release.assign(assignment);
                },
                None => {},
            }
            i += 1;
        }
        assert(lines.deep_view().take(i as int) =~= lines.deep_view());
        release
    }
}

} // verus!

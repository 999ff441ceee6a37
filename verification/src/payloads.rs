use vstd::prelude::*;

use crate::segment::is_segment_name;
use crate::text::str_equals;

pub use crate::stats::NpsStats;
pub use crate::trend::TrendItem;

verus! {

/// The twelve bytes of a store object id.
pub type ObjectIdBytes = [u8; 12];

/// Lowest accepted score.
pub const SCORE_MIN: i32 = 0;

/// Highest accepted score.
pub const SCORE_MAX: i32 = 10;

/// Shortest accepted dashboard period, in days.
pub const PERIOD_MIN: i32 = 1;

/// Longest accepted dashboard period, in days.
pub const PERIOD_MAX: i32 = 730;

/// Dashboard period when the query names none, in days.
pub const DEFAULT_PERIOD_DAYS: i32 = 90;

/// A new answer: who gave it, in which segment, the score and a comment.
#[derive(Debug, Clone, PartialEq, Eq)]
pub struct NpsCreatePayload {
    pub user: ObjectIdBytes,
    pub segment: String,
    pub score: i32,
    pub comment: Option<String>,
}

/// A request to mark (or unmark) the answers of a user in a segment as dismissed.
#[derive(Debug, Clone, PartialEq, Eq)]
pub struct NpsDismissPayload {
    pub user: ObjectIdBytes,
    pub segment: String,
    pub dismissed: bool,
}

/// The dashboard query: the number of past days to cover.
#[derive(Debug, Clone, PartialEq, Eq)]
pub struct IndexQuery {
    pub period: Option<i32>,
}

/// A segment name that the API does not accept.
#[derive(Debug, Clone, PartialEq, Eq)]
pub struct InvalidSegment {
    pub value: String,
}

impl InvalidSegment {
    /// The error code of the rejection.
    pub fn code(&self) -> (r: &'static str)
        ensures
            r@ == "invalid_segment"@,
    {
        "invalid_segment"
    }

    /// The explanation given with the rejection.
    pub fn message(&self) -> (r: String)
        ensures
            r@ == "Invalid segment: '"@ + self.value@ + "'. Must be one of: User, Studio, Professional"@,
    {
        let r = String::from_str("Invalid segment: '");
        let r = r.concat(self.value.as_str());
        r.concat("'. Must be one of: User, Studio, Professional")
    }
}

/// Why one field of a request was refused.
#[derive(Debug, Clone, PartialEq, Eq)]
pub enum FieldIssue {
    InvalidSegment(InvalidSegment),
    ScoreOutOfRange { value: i32 },
    PeriodOutOfRange { value: i32 },
}

/// What a refusal says, with texts as character sequences.
pub enum IssueView {
    Segment(Seq<char>),
    Score(i32),
    Period(i32),
}

impl View for FieldIssue {
    type V = IssueView;

    open spec fn view(&self) -> IssueView {
        match self {
            FieldIssue::InvalidSegment(e) => IssueView::Segment(e.value@),
            FieldIssue::ScoreOutOfRange { value } => IssueView::Score(*value),
            FieldIssue::PeriodOutOfRange { value } => IssueView::Period(*value),
        }
    }
}

pub open spec fn issue_views(v: Seq<FieldIssue>) -> Seq<IssueView> {
    v.map_values(|i: FieldIssue| i@)
}

impl FieldIssue {
    /// The name of the refused field.
    pub fn field(&self) -> (r: &'static str)
        ensures
            r@ == match self@ {
                IssueView::Segment(_) => "segment"@,
                IssueView::Score(_) => "score"@,
                IssueView::Period(_) => "period"@,
            },
    {
        match self {
            FieldIssue::InvalidSegment(_) => "segment",
            FieldIssue::ScoreOutOfRange { .. } => "score",
            FieldIssue::PeriodOutOfRange { .. } => "period",
        }
    }

    /// The error code of the refusal: `invalid_segment`, or `range` for a
    /// number out of its range.
    pub fn code(&self) -> (r: &'static str)
        ensures
            r@ == match self@ {
                IssueView::Segment(_) => "invalid_segment"@,
                _ => "range"@,
            },
    {
        match self {
            FieldIssue::InvalidSegment(_) => "invalid_segment",
            _ => "range",
        }
    }

    /// The accepted range of a refused number; `None` for a refused segment.
    pub fn accepted_range(&self) -> (r: Option<(i32, i32)>)
        ensures
            r == match self@ {
                IssueView::Segment(_) => None,
                IssueView::Score(_) => Some((SCORE_MIN, SCORE_MAX)),
                IssueView::Period(_) => Some((PERIOD_MIN, PERIOD_MAX)),
            },
    {
        match self {
            FieldIssue::InvalidSegment(_) => None,
            FieldIssue::ScoreOutOfRange { .. } => Some((SCORE_MIN, SCORE_MAX)),
            FieldIssue::PeriodOutOfRange { .. } => Some((PERIOD_MIN, PERIOD_MAX)),
        }
    }
}

/// Accepts exactly the names `User`, `Studio` and `Professional`.
pub fn validate_segment(segment: &str) -> (r: Result<(), InvalidSegment>)
    ensures
        r is Ok <==> is_segment_name(segment@),
        r matches Err(e) ==> e.value@ == segment@,
{
    if str_equals(segment, "User") || str_equals(segment, "Studio") || str_equals(
        segment,
        "Professional",
    ) {
        Ok(())
    } else {
        Err(InvalidSegment { value: String::from_str(segment) })
    }
}

/// A score is accepted when it lies in 0 to 10.
pub open spec fn score_ok(score: int) -> bool {
    SCORE_MIN <= score <= SCORE_MAX
}

/// A period is accepted when absent or within 1 to 730 days.
pub open spec fn period_ok(period: Option<i32>) -> bool {
    period matches Some(p) ==> PERIOD_MIN <= p <= PERIOD_MAX
}

/// The refusals of a new answer, field by field.
pub open spec fn create_issues(segment: Seq<char>, score: i32) -> Seq<IssueView> {
    (if is_segment_name(segment) {
        Seq::<IssueView>::empty()
    } else {
        seq![IssueView::Segment(segment)]
    }) + (if score_ok(score as int) {
        Seq::<IssueView>::empty()
    } else {
        seq![IssueView::Score(score)]
    })
}

/// The refusals of a dismissal.
pub open spec fn dismiss_issues(segment: Seq<char>) -> Seq<IssueView> {
    if is_segment_name(segment) {
        Seq::<IssueView>::empty()
    } else {
        seq![IssueView::Segment(segment)]
    }
}

/// The refusals of a dashboard query.
pub open spec fn query_issues(period: Option<i32>) -> Seq<IssueView> {
    if period_ok(period) {
        Seq::<IssueView>::empty()
    } else {
        seq![IssueView::Period(period->0)]
    }
}

impl NpsCreatePayload {
    /// Checks the segment name and the score range; on refusal lists every
    /// refused field.
    pub fn validate(&self) -> (r: Result<(), Vec<FieldIssue>>)
        ensures
            r is Ok <==> create_issues(self.segment@, self.score).len() == 0,
            r is Ok <==> (is_segment_name(self.segment@) && 0 <= self.score <= 10),
            r matches Err(v) ==> issue_views(v@) == create_issues(self.segment@, self.score),
    {
        let mut issues: Vec<FieldIssue> = Vec::new();
        match validate_segment(self.segment.as_str()) {
            Ok(()) => {},
            Err(e) => issues.push(FieldIssue::InvalidSegment(e)),
        }
        if self.score < SCORE_MIN || self.score > SCORE_MAX {
            issues.push(FieldIssue::ScoreOutOfRange { value: self.score });
        }
        assert(issue_views(issues@) =~= create_issues(self.segment@, self.score));
        if issues.len() == 0 {
            Ok(())
        } else {
            Err(issues)
        }
    }
}

impl NpsDismissPayload {
    /// Checks the segment name.
    pub fn validate(&self) -> (r: Result<(), Vec<FieldIssue>>)
        ensures
            r is Ok <==> dismiss_issues(self.segment@).len() == 0,
            r matches Err(v) ==> issue_views(v@) == dismiss_issues(self.segment@),
    {
        let mut issues: Vec<FieldIssue> = Vec::new();
        match validate_segment(self.segment.as_str()) {
            Ok(()) => {},
            Err(e) => issues.push(FieldIssue::InvalidSegment(e)),
        }
        assert(issue_views(issues@) =~= dismiss_issues(self.segment@));
        if issues.len() == 0 {
            Ok(())
        } else {
            Err(issues)
        }
    }
}

impl IndexQuery {
    /// Checks the period range.
    pub fn validate(&self) -> (r: Result<(), Vec<FieldIssue>>)
        ensures
            r is Ok <==> period_ok(self.period),
            r is Ok <==> (self.period matches Some(p) ==> 1 <= p <= 730),
            r matches Err(v) ==> issue_views(v@) == query_issues(self.period),
    {
        match self.period {
            Some(p) => {
                if p < PERIOD_MIN || p > PERIOD_MAX {
                    let mut issues: Vec<FieldIssue> = Vec::new();
                    issues.push(FieldIssue::PeriodOutOfRange { value: p });
                    assert(issue_views(issues@) =~= query_issues(self.period));
                    return Err(issues);
                }
                Ok(())
            },
            None => Ok(()),
        }
    }

    /// The period in days: the one asked for, or 90.
    pub fn period_days(&self) -> (r: i32)
        ensures
            r == match self.period {
                Some(p) => p,
                None => DEFAULT_PERIOD_DAYS,
            },
    {
        match self.period {
            Some(p) => p,
            None => DEFAULT_PERIOD_DAYS,
        }
    }
}

/// A period is accepted exactly when it is absent or between 1 and 730
/// days, every value of that range included.
pub proof fn lemma_period_range(period: Option<i32>)
    ensures
        period_ok(period) <==> (period matches Some(p) ==> 1 <= p <= 730),
        period is None ==> query_issues(period).len() == 0,
        period matches Some(p) ==> (query_issues(period).contains(IssueView::Period(p)) <==> !(1 <= p
            <= 730)),
{
    if let Some(p) = period {
        if !(1 <= p <= 730) {
            assert(query_issues(period)[0] == IssueView::Period(p));
        }
    }
}

/// The refusals of a new answer depend on each field alone: the score is
/// refused exactly when it lies outside 0 to 10, whatever the segment, and the
/// segment exactly when it is not one of the three names, whatever the score;
/// nothing else is refused.
pub proof fn lemma_create_issues_per_field(segment: Seq<char>, score: i32)
    ensures
        create_issues(segment, score).contains(IssueView::Score(score)) <==> !(0 <= score <= 10),
        create_issues(segment, score).contains(IssueView::Segment(segment)) <==> !is_segment_name(
            segment,
        ),
        create_issues(segment, score).len() == (if is_segment_name(segment) {
            0int
        } else {
            1int
        }) + (if 0 <= score <= 10 {
            0int
        } else {
            1int
        }),
        forall|k: int|
            0 <= k < create_issues(segment, score).len() ==> (#[trigger] create_issues(segment, score)[k]
                == IssueView::Score(score) || create_issues(segment, score)[k] == IssueView::Segment(
                segment,
            )),
{
    let issues = create_issues(segment, score);
    if !is_segment_name(segment) {
        assert(issues[0] == IssueView::Segment(segment));
    }
    if !(0 <= score <= 10) {
        assert(issues[issues.len() - 1] == IssueView::Score(score));
    }
}

} // verus!

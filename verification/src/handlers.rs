use vstd::prelude::*;

use crate::clock::{months_earlier_of, utc_now_millis};
use crate::db::NpsEntry;
use crate::payloads::{
    create_issues, dismiss_issues, issue_views, period_ok, query_issues, FieldIssue, IndexQuery,
    NpsCreatePayload, NpsDismissPayload, ObjectIdBytes, DEFAULT_PERIOD_DAYS,
};
use crate::segment::{segment_from_name, Segment};

verus! {

/// HTTP 200: a dismissal was applied.
pub const STATUS_OK: u16 = 200;

/// HTTP 201: an answer was stored.
pub const STATUS_CREATED: u16 = 201;

/// HTTP 404: no entry matched a dismissal.
pub const STATUS_NOT_FOUND: u16 = 404;

/// HTTP 422: a request was refused by its checks.
pub const STATUS_UNPROCESSABLE: u16 = 422;

/// HTTP 500: the store or the service failed.
pub const STATUS_INTERNAL: u16 = 500;

/// Milliseconds in a day.
pub const DAY_MS: i64 = 86_400_000;

/// The JSON body of a reply: `{"msg": ..}`, `{"error": ..}`,
/// `{"data": {"message": ..}}`, or the refused fields.
#[derive(Debug, Clone, PartialEq, Eq)]
pub enum ReplyBody {
    Msg(String),
    Error(String),
    DataMessage(String),
    Rejected(Vec<FieldIssue>),
}

/// A status code and a body.
#[derive(Debug, Clone, PartialEq, Eq)]
pub struct Reply {
    pub status: u16,
    pub body: ReplyBody,
}

/// `reply` refuses a request with `issues`.
pub open spec fn is_rejection(reply: Reply, issues: Seq<crate::payloads::IssueView>) -> bool {
    &&& reply.status == STATUS_UNPROCESSABLE
    &&& reply.body matches ReplyBody::Rejected(v) && issue_views(v@) == issues
}

/// The reply that refuses a request for the listed fields.
pub fn rejection(issues: Vec<FieldIssue>) -> (r: Reply)
    ensures
        is_rejection(r, issue_views(issues@)),
{
    Reply { status: STATUS_UNPROCESSABLE, body: ReplyBody::Rejected(issues) }
}

/// The reply for a failure of the service: status 500 and its text.
pub fn error_reply(error: &crate::error::NpsError) -> (r: Reply)
    ensures
        r.status == STATUS_INTERNAL,
        r.body matches ReplyBody::Error(m) && m@ == error.spec_message(),
{
    Reply { status: STATUS_INTERNAL, body: ReplyBody::Error(error.message()) }
}

/// Checks a new answer and, when it is accepted, makes the entry to store,
/// created at `now_ms`; otherwise the 422 reply that lists the refused fields.
pub fn plan_create_at(payload: NpsCreatePayload, now_ms: i64) -> (r: Result<NpsEntry, Reply>)
    ensures
        r is Ok <==> create_issues(payload.segment@, payload.score).len() == 0,
        r matches Ok(e) ==> {
            &&& e.made_from(payload)
            &&& e.segment.spec_name() == payload.segment@
            &&& e.created_at_ms == now_ms
        },
        r matches Err(reply) ==> is_rejection(reply, create_issues(payload.segment@, payload.score)),
{
    match payload.validate() {
        Ok(()) => {
            proof {
                crate::segment::lemma_segment_name_exact(payload.segment@);
            }
            Ok(NpsEntry::from_payload_at(payload, now_ms))
        },
        Err(issues) => Err(rejection(issues)),
    }
}

/// `plan_create_at` at the current time.
pub fn plan_create(payload: NpsCreatePayload) -> (r: Result<NpsEntry, Reply>)
    ensures
        r is Ok <==> create_issues(payload.segment@, payload.score).len() == 0,
        r matches Ok(e) ==> e.made_from(payload) && e.segment.spec_name() == payload.segment@,
        r matches Err(reply) ==> is_rejection(reply, create_issues(payload.segment@, payload.score)),
{
    let now_ms = utc_now_millis();
    plan_create_at(payload, now_ms)
}

/// The reply once the store has answered the insertion of a new entry:
/// 201 and `{"data": {"message": "Created"}}`, or 500 and
/// `{"error": <the store's error text>}`.
pub fn create_reply(outcome: Result<(), String>) -> (r: Reply)
    ensures
        outcome is Ok ==> r.status == STATUS_CREATED && (r.body matches ReplyBody::DataMessage(m)
            && m@ == "Created"@),
        outcome matches Err(e) ==> r.status == STATUS_INTERNAL && (r.body matches ReplyBody::Error(m)
            && m@ == e@),
{
    match outcome {
        Ok(()) => Reply {
            status: STATUS_CREATED,
            body: ReplyBody::DataMessage(String::from_str("Created")),
        },
        Err(e) => Reply { status: STATUS_INTERNAL, body: ReplyBody::Error(e) },
    }
}

/// The change that a dismissal makes to the entries of one user in one segment.
#[derive(Debug, Clone, PartialEq, Eq)]
pub struct DismissUpdate {
    pub user: ObjectIdBytes,
    pub segment: Segment,
    pub dismissed: bool,
    pub updated_at_ms: i64,
}

/// Checks a dismissal and, when it is accepted, gives the update to apply at
/// `now_ms`; otherwise the 422 reply that lists the refused fields.
pub fn plan_dismiss_at(payload: NpsDismissPayload, now_ms: i64) -> (r: Result<DismissUpdate, Reply>)
    ensures
        r is Ok <==> dismiss_issues(payload.segment@).len() == 0,
        r matches Ok(u) ==> {
            &&& u.user == payload.user
            &&& u.segment == segment_from_name(payload.segment@)
            &&& u.segment.spec_name() == payload.segment@
            &&& u.dismissed == payload.dismissed
            &&& u.updated_at_ms == now_ms
        },
        r matches Err(reply) ==> is_rejection(reply, dismiss_issues(payload.segment@)),
{
    match payload.validate() {
        Ok(()) => {
            proof {
                crate::segment::lemma_segment_name_exact(payload.segment@);
            }
            let segment = Segment::from_name(payload.segment.as_str());
            Ok(
                DismissUpdate {
                    user: payload.user,
                    segment,
                    dismissed: payload.dismissed,
                    updated_at_ms: now_ms,
                },
            )
        },
        Err(issues) => Err(rejection(issues)),
    }
}

/// `plan_dismiss_at` at the current time.
pub fn plan_dismiss(payload: NpsDismissPayload) -> (r: Result<DismissUpdate, Reply>)
    ensures
        r is Ok <==> dismiss_issues(payload.segment@).len() == 0,
        r matches Ok(u) ==> {
            &&& u.user == payload.user
            &&& u.segment.spec_name() == payload.segment@
            &&& u.dismissed == payload.dismissed
        },
        r matches Err(reply) ==> is_rejection(reply, dismiss_issues(payload.segment@)),
{
    let now_ms = utc_now_millis();
    plan_dismiss_at(payload, now_ms)
}

/// The reply once the store has answered the update of a dismissal: 404 and
/// `{"msg": "Not found"}` when no entry matched, 200 and `{"msg": "Updated"}`
/// when one did, 500 and `{"error": <the store's error text>}` when it failed.
pub fn dismiss_reply(outcome: Result<u64, String>) -> (r: Reply)
    ensures
        outcome matches Ok(n) ==> if n == 0 {
            r.status == STATUS_NOT_FOUND && (r.body matches ReplyBody::Msg(m) && m@ == "Not found"@)
        } else {
            r.status == STATUS_OK && (r.body matches ReplyBody::Msg(m) && m@ == "Updated"@)
        },
        outcome matches Err(e) ==> r.status == STATUS_INTERNAL && (r.body matches ReplyBody::Error(m)
            && m@ == e@),
{
    match outcome {
        Ok(matched) => {
            if matched == 0 {
                Reply { status: STATUS_NOT_FOUND, body: ReplyBody::Msg(String::from_str("Not found")) }
            } else {
                Reply { status: STATUS_OK, body: ReplyBody::Msg(String::from_str("Updated")) }
            }
        },
        Err(e) => Reply { status: STATUS_INTERNAL, body: ReplyBody::Error(e) },
    }
}

/// The period of a dashboard, the instant it is drawn at and the first
/// instant that it covers.
#[derive(Debug, Clone, PartialEq, Eq)]
pub struct DashboardPlan {
    pub period_days: i32,
    pub now_ms: i64,
    pub from_ms: i64,
}

/// Checks a dashboard query and gives its period (90 days unless asked
/// otherwise) and the instant that many days before `now_ms`; otherwise the
/// 422 reply for the refused period.
pub fn plan_dashboard_at(query: &IndexQuery, now_ms: i64) -> (r: Result<DashboardPlan, Reply>)
    requires
        now_ms >= i64::MIN + 730 * DAY_MS,
    ensures
        r is Ok <==> period_ok(query.period),
        r matches Ok(plan) ==> {
            &&& plan.period_days == match query.period {
                Some(p) => p,
                None => DEFAULT_PERIOD_DAYS,
            }
            &&& plan.now_ms == now_ms
            &&& plan.from_ms == now_ms - plan.period_days * DAY_MS
        },
        r matches Err(reply) ==> is_rejection(reply, query_issues(query.period)),
{
    match query.validate() {
        Ok(()) => {
            let period_days = query.period_days();
            let span: i64 = period_days as i64 * DAY_MS;
            Ok(DashboardPlan { period_days, now_ms, from_ms: now_ms - span })
        },
        Err(issues) => Err(rejection(issues)),
    }
}

/// `plan_dashboard_at` at the current time.
pub fn plan_dashboard(query: &IndexQuery) -> (r: Result<DashboardPlan, Reply>)
    ensures
        r is Ok <==> period_ok(query.period),
        r matches Ok(plan) ==> {
            &&& plan.period_days == match query.period {
                Some(p) => p,
                None => DEFAULT_PERIOD_DAYS,
            }
            &&& plan.from_ms == plan.now_ms - plan.period_days * DAY_MS
            &&& months_earlier_of(plan.now_ms, 5) is Some
        },
        r matches Err(reply) ==> is_rejection(reply, query_issues(query.period)),
{
    let now_ms = utc_now_millis();
    plan_dashboard_at(query, now_ms)
}

/// The entries that the dashboard counts, as a store query: those created at
/// or after `created_from_ms` whose dismissed flag is not `Some(excluded_dismissed)`.
#[derive(Debug, Clone, Copy, PartialEq, Eq)]
pub struct EntryFilter {
    pub created_from_ms: i64,
    pub excluded_dismissed: bool,
}

impl EntryFilter {
    pub open spec fn admits(self, created_at_ms: i64, dismissed: Option<bool>) -> bool {
        created_at_ms >= self.created_from_ms && dismissed != Some(self.excluded_dismissed)
    }
}

/// The dashboard counts an entry when it was created within the period and
/// has not been dismissed.
pub open spec fn on_dashboard(plan: DashboardPlan, created_at_ms: i64, dismissed: Option<bool>) -> bool {
    created_at_ms >= plan.from_ms && dismissed != Some(true)
}

/// The store query for the entries that a dashboard counts.
pub fn dashboard_filter(plan: &DashboardPlan) -> (f: EntryFilter)
    ensures
        f.created_from_ms == plan.from_ms,
        f.excluded_dismissed,
        forall|created_at_ms: i64, dismissed: Option<bool>|
            #[trigger] f.admits(created_at_ms, dismissed) == on_dashboard(*plan, created_at_ms, dismissed),
{
    EntryFilter { created_from_ms: plan.from_ms, excluded_dismissed: true }
}

/// Whether the dashboard counts an entry with this creation time and
/// dismissed flag.
pub fn counted_on_dashboard(plan: &DashboardPlan, created_at_ms: i64, dismissed: Option<bool>) -> (r: bool)
    ensures
        r == on_dashboard(*plan, created_at_ms, dismissed),
        r == (created_at_ms >= plan.from_ms && dismissed != Some(true)),
{
    let f = dashboard_filter(plan);
    assert(f.admits(created_at_ms, dismissed) == on_dashboard(*plan, created_at_ms, dismissed));
    let not_dismissed = match dismissed {
        Some(d) => d != f.excluded_dismissed,
        None => true,
    };
    created_at_ms >= f.created_from_ms && not_dismissed
}

/// A dashboard counts exactly the entries, not dismissed, created within its
/// period: at most `period_days` days before the instant it is drawn at.
pub proof fn lemma_dashboard_covers_its_period(plan: DashboardPlan, created_at_ms: i64, dismissed: Option<bool>)
    requires
        plan.from_ms == plan.now_ms - plan.period_days * DAY_MS,
    ensures
        on_dashboard(plan, created_at_ms, dismissed) <==> (plan.now_ms - created_at_ms
            <= plan.period_days * DAY_MS && dismissed != Some(true)),
{
}

/// A dismissed entry leaves the dashboard: once a dismissal with
/// `dismissed == true` is applied, the entry is counted in no period.
pub proof fn lemma_dismissed_leaves_dashboard(plan: DashboardPlan, created_at_ms: i64, update: DismissUpdate)
    requires
        update.dismissed,
    ensures
        !on_dashboard(plan, created_at_ms, Some(update.dismissed)),
{
}

/// A dismissal reaches the entry made from an answer of the same user in
/// the same segment: both name the same user and the same segment.
pub proof fn lemma_dismiss_targets_created_entry(
    answer: NpsCreatePayload,
    dismissal: NpsDismissPayload,
    entry: NpsEntry,
    update: DismissUpdate,
)
    requires
        entry.made_from(answer),
        update.user == dismissal.user,
        update.segment.spec_name() == dismissal.segment@,
        answer.user == dismissal.user,
        answer.segment@ == dismissal.segment@,
    ensures
        entry.user == update.user,
        entry.segment == update.segment,
{
    crate::segment::lemma_segment_name_round_trip(update.segment);
}

} // verus!

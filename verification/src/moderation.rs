//! Moderation: reports against users, messages and groups, and what
//! moderators do about them.

use vstd::prelude::*;
use vstd::string::StrSliceExecFns;
use crate::bus::{Route, Topic};
use crate::errors::ErrorKind;
use crate::ids::uuid_parsed;
use crate::models::{Report, ReportReason, ReportStatus, ReportTargetType};
use crate::text::copy_optional_text;

verus! {

/// Longest description of a report, in characters.
pub const MAX_DESCRIPTION_LEN: usize = 1000;

/// Number of spam reports within an hour at which a user is banned
/// without a moderator.
pub const AUTO_BAN_THRESHOLD: u64 = 5;

/// Seconds of a ban without a moderator.
pub const AUTO_BAN_SECS: i64 = 86_400;

/// Number of reports on one page where the caller names none.
pub const DEFAULT_PAGE_LIMIT: u64 = 50;

/// What somebody who files a report sends.
#[derive(Debug)]
pub struct CreateReportRequest {
    pub target_id: String,
    pub target_type: ReportTargetType,
    pub reason: ReportReason,
    pub description: Option<String>,
}

/// A report as it is shown.
#[derive(Debug)]
pub struct ReportResponse {
    pub id: u128,
    pub reporter_id: u128,
    pub target_id: u128,
    pub target_type: String,
    pub reason: String,
    pub description: Option<String>,
    pub status: String,
    pub created_at: i64,
    pub resolved_at: Option<i64>,
    pub resolved_by: Option<u128>,
}

/// What a moderator sends to change a report.
#[derive(Debug)]
pub struct UpdateReportRequest {
    pub status: ReportStatus,
    pub action_taken: Option<String>,
}

/// What a moderator can do.
#[derive(Debug, Clone, Copy, PartialEq, Eq, Structural)]
pub enum ModerationAction {
    BanUser,
    UnbanUser,
    MuteUser,
    DeleteMessage,
    DeleteGroup,
    RemoveMember,
}

/// What a moderator sends to act.
#[derive(Debug)]
pub struct ModerationActionRequest {
    pub action: ModerationAction,
    pub duration_seconds: Option<i64>,
    pub reason: String,
}

/// Notice of something that happened to a report.
#[derive(Debug)]
pub struct ModerationEvent {
    pub event_type: String,
    pub report_id: u128,
    pub user_id: u128,
    pub timestamp: i64,
}

/// Notice of something that a moderator did.
#[derive(Debug)]
pub struct ModerationActionEvent {
    pub moderator_id: u128,
    pub action: String,
    pub reason: String,
    pub timestamp: i64,
}

/// A restriction on a user.
#[derive(Debug)]
pub struct ActiveRestriction {
    pub restriction_type: String,
    /// The instant at which the restriction ends, if it ever does.
    pub expires_at: Option<i64>,
    pub reason: Option<String>,
}

/// How a user stands with the moderators.
#[derive(Debug)]
pub struct UserModerationStatus {
    pub user_id: u128,
    pub active_restrictions: Vec<ActiveRestriction>,
    pub total_reports: u32,
    pub is_restricted: bool,
}

/// Counts over all reports.
#[derive(Debug, Clone, Copy, PartialEq, Eq, Structural)]
pub struct ModerationStats {
    pub pending_reports: usize,
    pub investigating_reports: usize,
    pub resolved_reports: usize,
    /// Reports of the 24 hours before the count.
    pub last_24h_reports: usize,
    /// Number of reports that were resolved no earlier than they were filed,
    /// and the seconds from filing to resolution of all of them.
    pub timed_resolutions: usize,
    pub resolution_secs: u64,
}

/// What has to exist before a report on it is taken.
#[derive(Debug, Clone, Copy, PartialEq, Eq, Structural)]
pub enum TargetLookup {
    /// The reported user.
    User,
    /// The reported group, which must be a group conversation.
    Group,
    /// Nothing: messages are not looked up.
    Nothing,
}

/// A ban that is imposed without a moderator.
#[derive(Debug, Clone, Copy, PartialEq, Eq, Structural)]
pub struct AutoBan {
    pub user_id: u128,
    pub expires_at: i64,
}

impl ModerationAction {
    /// The name of the action.
    pub open spec fn spec_name(self) -> Seq<char> {
        match self {
            ModerationAction::BanUser => "BanUser"@,
            ModerationAction::UnbanUser => "UnbanUser"@,
            ModerationAction::MuteUser => "MuteUser"@,
            ModerationAction::DeleteMessage => "DeleteMessage"@,
            ModerationAction::DeleteGroup => "DeleteGroup"@,
            ModerationAction::RemoveMember => "RemoveMember"@,
        }
    }

    /// The name of the action as it stands in an event.
    pub fn name(&self) -> (s: &'static str)
        ensures
            s@ == self.spec_name(),
    {
        match self {
            ModerationAction::BanUser => "BanUser",
            ModerationAction::UnbanUser => "UnbanUser",
            ModerationAction::MuteUser => "MuteUser",
            ModerationAction::DeleteMessage => "DeleteMessage",
            ModerationAction::DeleteGroup => "DeleteGroup",
            ModerationAction::RemoveMember => "RemoveMember",
        }
    }
}

impl CreateReportRequest {
    /// Whether the request is acceptable in form: a description, if there
    /// is one, has at most 1000 characters.
    pub open spec fn acceptable(&self) -> bool {
        match self.description {
            Some(d) => d@.len() <= MAX_DESCRIPTION_LEN,
            None => true,
        }
    }

    /// Checks the form of the request.
    pub fn validate(&self) -> (result: Result<(), ErrorKind>)
        ensures
            result == if self.acceptable() {
                Ok::<(), ErrorKind>(())
            } else {
                Err::<(), ErrorKind>(ErrorKind::Validation)
            },
    {
        match &self.description {
            Some(d) => if d.as_str().unicode_len() <= MAX_DESCRIPTION_LEN {
                Ok(())
            } else {
                Err(ErrorKind::Validation)
            },
            None => Ok(()),
        }
    }
}

impl ReportResponse {
    /// Shows a report: ids and instants as they are, kinds by their names.
    pub fn from_report(report: Report) -> (shown: ReportResponse)
        ensures
            shown.id == report.id,
            shown.reporter_id == report.reporter_id,
            shown.target_id == report.target_id,
            shown.target_type@ == report.target_type.spec_name(),
            shown.reason@ == report.reason.spec_name(),
            shown.description == report.description,
            shown.status@ == report.status.spec_name(),
            shown.created_at == report.created_at,
            shown.resolved_at == report.resolved_at,
            shown.resolved_by == report.resolved_by,
    {
        ReportResponse {
            id: report.id,
            reporter_id: report.reporter_id,
            target_id: report.target_id,
            target_type: report.target_type.name().to_owned(),
            reason: report.reason.name().to_owned(),
            description: report.description,
            status: report.status.name().to_owned(),
            created_at: report.created_at,
            resolved_at: report.resolved_at,
            resolved_by: report.resolved_by,
        }
    }
}

/// Says what has to exist before a report on a target of this kind is
/// taken.
pub fn validate_report_target(target_type: ReportTargetType) -> (lookup: TargetLookup)
    ensures
        lookup == match target_type {
            ReportTargetType::User => TargetLookup::User,
            ReportTargetType::Message => TargetLookup::Nothing,
            ReportTargetType::Group => TargetLookup::Group,
        },
{
    match target_type {
        ReportTargetType::User => TargetLookup::User,
        ReportTargetType::Message => TargetLookup::Nothing,
        ReportTargetType::Group => TargetLookup::Group,
    }
}

/// What filing a report is answered, given what the store knows: whether
/// the target exists (where it has to) and whether the reporter has
/// reported it within the last 24 hours.
pub open spec fn report_verdict(
    request: CreateReportRequest,
    target: Option<u128>,
    target_exists: bool,
    reported_recently: bool,
) -> Result<u128, ErrorKind> {
    if !request.acceptable() {
        Err(ErrorKind::Validation)
    } else {
        match target {
            None => Err(ErrorKind::Validation),
            Some(id) => if request.target_type != ReportTargetType::Message && !target_exists {
                Err(ErrorKind::Validation)
            } else if reported_recently {
                Err(ErrorKind::Conflict)
            } else {
                Ok(id)
            },
        }
    }
}

/// Files a report whose target id was read as `target`. The new report is
/// pending.
pub fn create_report_for(
    request: CreateReportRequest,
    target: Option<u128>,
    report_id: u128,
    reporter_id: u128,
    target_exists: bool,
    reported_recently: bool,
    now: i64,
) -> (result: Result<Report, ErrorKind>)
    ensures
        match result {
            Ok(r) => report_verdict(request, target, target_exists, reported_recently) == Ok::<
                u128,
                ErrorKind,
            >(r.target_id) && r.id == report_id && r.reporter_id == reporter_id && r.target_type
                == request.target_type && r.reason == request.reason && r.description
                == request.description && r.status == ReportStatus::Pending && r.created_at == now
                && r.resolved_at is None && r.resolved_by is None,
            Err(e) => report_verdict(request, target, target_exists, reported_recently) == Err::<
                u128,
                ErrorKind,
            >(e),
        },
{
    if request.validate().is_err() {
        return Err(ErrorKind::Validation);
    }
    let target_id = match target {
        Some(id) => id,
        None => {
            return Err(ErrorKind::Validation);
        },
    };
    let needs_target = match validate_report_target(request.target_type) {
        TargetLookup::Nothing => false,
        _ => true,
    };
    if needs_target && !target_exists {
        return Err(ErrorKind::Validation);
    }
    if reported_recently {
        return Err(ErrorKind::Conflict);
    }
    Ok(
        Report {
            id: report_id,
            reporter_id,
            target_id,
            target_type: request.target_type,
            reason: request.reason,
            description: request.description,
            status: ReportStatus::Pending,
            created_at: now,
            resolved_at: None,
            resolved_by: None,
        },
    )
}

/// Files a report.
pub fn create_report(
    request: CreateReportRequest,
    report_id: u128,
    reporter_id: u128,
    target_exists: bool,
    reported_recently: bool,
    now: i64,
) -> (result: Result<Report, ErrorKind>)
    ensures
        match result {
            Ok(r) => report_verdict(
                request,
                uuid_parsed(request.target_id@),
                target_exists,
                reported_recently,
            ) == Ok::<u128, ErrorKind>(r.target_id) && r.id == report_id && r.reporter_id
                == reporter_id && r.target_type == request.target_type && r.reason
                == request.reason && r.description == request.description && r.status
                == ReportStatus::Pending && r.created_at == now && r.resolved_at is None
                && r.resolved_by is None,
            Err(e) => report_verdict(
                request,
                uuid_parsed(request.target_id@),
                target_exists,
                reported_recently,
            ) == Err::<u128, ErrorKind>(e),
        },
{
    let target = crate::ids::parse_id(request.target_id.as_str());
    create_report_for(
        request,
        target,
        report_id,
        reporter_id,
        target_exists,
        reported_recently,
        now,
    )
}

/// Whether somebody may moderate: administrators and moderators may.
pub fn verify_moderator_role(is_admin: bool, is_moderator: bool) -> (result: Result<
    (),
    ErrorKind,
>)
    ensures
        result == if is_admin || is_moderator {
            Ok::<(), ErrorKind>(())
        } else {
            Err::<(), ErrorKind>(ErrorKind::Forbidden)
        },
{
    if is_admin || is_moderator {
        Ok(())
    } else {
        Err(ErrorKind::Forbidden)
    }
}

/// Sets the status of a report on behalf of a moderator. A report that
/// becomes resolved notes when and by whom; any other status clears both.
pub fn update_report(report: &mut Report, status: ReportStatus, moderator_id: u128, now: i64)
    ensures
        final(report).status == status,
        final(report).resolved_at == if status == ReportStatus::Resolved {
            Some(now)
        } else {
            None
        },
        final(report).resolved_by == if status == ReportStatus::Resolved {
            Some(moderator_id)
        } else {
            None
        },
        final(report).id == old(report).id,
        final(report).reporter_id == old(report).reporter_id,
        final(report).target_id == old(report).target_id,
        final(report).target_type == old(report).target_type,
        final(report).reason == old(report).reason,
        final(report).description == old(report).description,
        final(report).created_at == old(report).created_at,
{
    report.status = status;
    match status {
        ReportStatus::Resolved => {
            report.resolved_at = Some(now);
            report.resolved_by = Some(moderator_id);
        },
        _ => {
            report.resolved_at = None;
            report.resolved_by = None;
        },
    }
}

/// Resolves a report on behalf of a moderator.
pub fn resolve_report(report: &mut Report, moderator_id: u128, now: i64)
    ensures
        final(report).status == ReportStatus::Resolved,
        final(report).resolved_at == Some(now),
        final(report).resolved_by == Some(moderator_id),
        final(report).id == old(report).id,
        final(report).reporter_id == old(report).reporter_id,
        final(report).target_id == old(report).target_id,
        final(report).target_type == old(report).target_type,
        final(report).reason == old(report).reason,
        final(report).description == old(report).description,
        final(report).created_at == old(report).created_at,
{
    update_report(report, ReportStatus::Resolved, moderator_id, now);
}

/// Decides whether a new report calls for a ban without a moderator: a
/// spam report does when the user has five or more spam reports within the
/// hour.
pub fn check_automated_actions(report: &Report, spam_reports_last_hour: u64, now: i64) -> (ban:
    Option<AutoBan>)
    ensures
        ban == if report.reason == ReportReason::Spam && spam_reports_last_hour
            >= AUTO_BAN_THRESHOLD && now + AUTO_BAN_SECS <= i64::MAX {
            Some(AutoBan { user_id: report.target_id, expires_at: (now + AUTO_BAN_SECS) as i64 })
        } else {
            None
        },
{
    if report.reason == ReportReason::Spam && spam_reports_last_hour >= AUTO_BAN_THRESHOLD && now
        <= i64::MAX - AUTO_BAN_SECS {
        Some(AutoBan { user_id: report.target_id, expires_at: now + AUTO_BAN_SECS })
    } else {
        None
    }
}

/// Builds the notice of something that happened to a report and says
/// where it goes: on `moderation-events`, under the report.
pub fn publish_moderation_event(event_type: &str, report_id: u128, user_id: u128, now: i64) -> (out:
    (ModerationEvent, Route))
    ensures
        out.0.event_type@ == event_type@,
        out.0.report_id == report_id,
        out.0.user_id == user_id,
        out.0.timestamp == now,
        out.1 == (Route { topic: Topic::ModerationEvents, key: report_id }),
{
    (
        ModerationEvent { event_type: event_type.to_owned(), report_id, user_id, timestamp: now },
        Route { topic: Topic::ModerationEvents, key: report_id },
    )
}

/// Builds the notice of what a moderator did and says where it goes: on
/// `moderation-actions`, under the moderator.
pub fn take_moderation_action(request: ModerationActionRequest, moderator_id: u128, now: i64) -> (out:
    (ModerationActionEvent, Route))
    ensures
        out.0.moderator_id == moderator_id,
        out.0.action@ == request.action.spec_name(),
        out.0.reason == request.reason,
        out.0.timestamp == now,
        out.1 == (Route { topic: Topic::ModerationActions, key: moderator_id }),
{
    (
        ModerationActionEvent {
            moderator_id,
            action: request.action.name().to_owned(),
            reason: request.reason,
            timestamp: now,
        },
        Route { topic: Topic::ModerationActions, key: moderator_id },
    )
}

/// Whether a restriction is in force at `now`: it never ends, or ends
/// later.
pub open spec fn in_force(r: ActiveRestriction, now: i64) -> bool {
    match r.expires_at {
        Some(t) => t > now,
        None => true,
    }
}

/// The restrictions of `all` that are in force at `now`, in their order.
pub open spec fn in_force_only(all: Seq<ActiveRestriction>, now: i64) -> Seq<ActiveRestriction>
    decreases all.len(),
{
    if all.len() == 0 {
        Seq::empty()
    } else if in_force(all.last(), now) {
        in_force_only(all.drop_last(), now).push(all.last())
    } else {
        in_force_only(all.drop_last(), now)
    }
}

/// Works out how a user stands with the moderators at `now`.
pub fn get_user_moderation_status(
    user_id: u128,
    restrictions: Vec<ActiveRestriction>,
    total_reports: u32,
    now: i64,
) -> (status: UserModerationStatus)
    ensures
        status.user_id == user_id,
        status.total_reports == total_reports,
        status.active_restrictions@ == in_force_only(restrictions@, now),
        status.is_restricted == (in_force_only(restrictions@, now).len() > 0),
{
    let mut active: Vec<ActiveRestriction> = Vec::new();
    let mut i: usize = 0;
    proof {
        assert(restrictions@.take(0) =~= Seq::empty());
    }
    while i < restrictions.len()
        invariant
            i <= restrictions.len(),
            active@ == in_force_only(restrictions@.take(i as int), now),
        decreases restrictions.len() - i,
    {
        proof {
            assert(restrictions@.take(i as int + 1).drop_last() =~= restrictions@.take(i as int));
        }
        let keep = match restrictions[i].expires_at {
            Some(t) => t > now,
            None => true,
        };
        if keep {
            active.push(
                ActiveRestriction {
                    restriction_type: restrictions[i].restriction_type.clone(),
                    expires_at: restrictions[i].expires_at,
                    reason: copy_optional_text(&restrictions[i].reason),
                },
            );
        }
        i = i + 1;
    }
    proof {
        assert(restrictions@.take(restrictions@.len() as int) =~= restrictions@);
    }
    let is_restricted = active.len() > 0;
    UserModerationStatus { user_id, active_restrictions: active, total_reports, is_restricted }
}

/// Number of reports with this status.
pub open spec fn count_status(reports: Seq<Report>, status: ReportStatus) -> nat
    decreases reports.len(),
{
    if reports.len() == 0 {
        0
    } else {
        count_status(reports.drop_last(), status) + if reports.last().status == status {
            1nat
        } else {
            0nat
        }
    }
}

/// Number of reports filed after `since`.
pub open spec fn count_since(reports: Seq<Report>, since: int) -> nat
    decreases reports.len(),
{
    if reports.len() == 0 {
        0
    } else {
        count_since(reports.drop_last(), since) + if reports.last().created_at > since {
            1nat
        } else {
            0nat
        }
    }
}

/// Whether a report was resolved no earlier than it was filed.
pub open spec fn is_timed(r: Report) -> bool {
    r.resolved_at matches Some(t) && t >= r.created_at
}

/// Number of reports that were resolved no earlier than they were filed.
pub open spec fn count_timed(reports: Seq<Report>) -> nat
    decreases reports.len(),
{
    if reports.len() == 0 {
        0
    } else {
        count_timed(reports.drop_last()) + if is_timed(reports.last()) {
            1nat
        } else {
            0nat
        }
    }
}

/// The seconds from filing to resolution of all reports that were resolved
/// no earlier than they were filed; the largest number that can be held
/// where the sum is larger.
pub open spec fn resolution_time(reports: Seq<Report>) -> nat
    decreases reports.len(),
{
    if reports.len() == 0 {
        0
    } else {
        let before = resolution_time(reports.drop_last());
        let r = reports.last();
        if is_timed(r) {
            let sum = before + (r.resolved_at->0 - r.created_at);
            if sum > u64::MAX {
                u64::MAX as nat
            } else {
                sum as nat
            }
        } else {
            before
        }
    }
}

/// Counts the reports by status, those of the 24 hours before `now`, and
/// the time that resolutions took.
pub fn get_moderation_stats(reports: &Vec<Report>, now: i64) -> (stats: ModerationStats)
    ensures
        stats.pending_reports == count_status(reports@, ReportStatus::Pending),
        stats.investigating_reports == count_status(reports@, ReportStatus::Investigating),
        stats.resolved_reports == count_status(reports@, ReportStatus::Resolved),
        stats.last_24h_reports == count_since(reports@, now - 86_400),
        stats.timed_resolutions == count_timed(reports@),
        stats.resolution_secs == resolution_time(reports@),
{
    let mut stats = ModerationStats {
        pending_reports: 0,
        investigating_reports: 0,
        resolved_reports: 0,
        last_24h_reports: 0,
        timed_resolutions: 0,
        resolution_secs: 0,
    };
    let mut i: usize = 0;
    proof {
        assert(reports@.take(0) =~= Seq::empty());
    }
    while i < reports.len()
        invariant
            i <= reports.len(),
            stats.pending_reports == count_status(reports@.take(i as int), ReportStatus::Pending),
            stats.investigating_reports == count_status(
                reports@.take(i as int),
                ReportStatus::Investigating,
            ),
            stats.resolved_reports == count_status(
                reports@.take(i as int),
                ReportStatus::Resolved,
            ),
            stats.last_24h_reports == count_since(reports@.take(i as int), now - 86_400),
            stats.timed_resolutions == count_timed(reports@.take(i as int)),
            stats.resolution_secs == resolution_time(reports@.take(i as int)),
            stats.pending_reports <= i,
            stats.investigating_reports <= i,
            stats.resolved_reports <= i,
            stats.last_24h_reports <= i,
            stats.timed_resolutions <= i,
        decreases reports.len() - i,
    {
        proof {
            assert(reports@.take(i as int + 1).drop_last() =~= reports@.take(i as int));
        }
        let r = &reports[i];
        match r.status {
            ReportStatus::Pending => {
                stats.pending_reports = stats.pending_reports + 1;
            },
            ReportStatus::Investigating => {
                stats.investigating_reports = stats.investigating_reports + 1;
            },
            ReportStatus::Resolved => {
                stats.resolved_reports = stats.resolved_reports + 1;
            },
            ReportStatus::Dismissed => {},
        }
        let recent = if now >= i64::MIN + 86_400 {
            r.created_at > now - 86_400
        } else {
            true
        };
        if recent {
            stats.last_24h_reports = stats.last_24h_reports + 1;
        }
        match r.resolved_at {
            Some(t) => {
                if t >= r.created_at {
                    let took = (t as i128 - r.created_at as i128) as u64;
                    stats.resolution_secs = stats.resolution_secs.saturating_add(took);
                    stats.timed_resolutions = stats.timed_resolutions + 1;
                }
            },
            None => {},
        }
        i = i + 1;
    }
    proof {
        assert(reports@.take(reports@.len() as int) =~= reports@);
    }
    stats
}

/// The number that a text of decimal digits denotes; nothing where the
/// text is empty, holds anything but digits or denotes too large a number.
pub open spec fn spec_parse_count(text: Seq<char>) -> Option<u64>
    decreases text.len(),
{
    if text.len() == 0 {
        None
    } else {
        let c = text.last();
        if !('0' <= c && c <= '9') {
            None
        } else {
            let digit = (c as u32 - '0' as u32) as int;
            if text.len() == 1 {
                Some(digit as u64)
            } else {
                match spec_parse_count(text.drop_last()) {
                    None => None,
                    Some(high) => if high * 10 + digit <= u64::MAX {
                        Some((high * 10 + digit) as u64)
                    } else {
                        None
                    },
                }
            }
        }
    }
}

/// Reads a count from a text of decimal digits.
pub fn parse_count(text: &str) -> (count: Option<u64>)
    ensures
        count == spec_parse_count(text@),
{
    let n = text.unicode_len();
    if n == 0 {
        return None;
    }
    let mut value: u64 = 0;
    let mut i: usize = 0;
    while i < n
        invariant
            n == text@.len(),
            i <= n,
            i > 0 ==> spec_parse_count(text@.take(i as int)) == Some(value),
            i == 0 ==> value == 0,
        decreases n - i,
    {
        let c = text.get_char(i);
        proof {
            assert(text@.take(i as int + 1).drop_last() =~= text@.take(i as int));
            assert(text@.take(i as int + 1).last() == c);
        }
        if !('0' <= c && c <= '9') {
            proof {
                lemma_parse_count_prefix(text@, i as int + 1);
            }
            return None;
        }
        let digit = (c as u32 - '0' as u32) as u64;
        if value > (u64::MAX - digit) / 10 {
            proof {
                lemma_parse_count_prefix(text@, i as int + 1);
            }
            return None;
        }
        value = value * 10 + digit;
        i = i + 1;
    }
    proof {
        assert(text@.take(n as int) =~= text@);
    }
    Some(value)
}

/// A text with a prefix that denotes no number denotes none.
pub proof fn lemma_parse_count_prefix(text: Seq<char>, k: int)
    requires
        0 < k <= text.len(),
        spec_parse_count(text.take(k)) is None,
    ensures
        spec_parse_count(text) is None,
    decreases text.len() - k,
{
    if k < text.len() {
        assert(text.take(k + 1).drop_last() =~= text.take(k));
        lemma_parse_count_prefix(text, k + 1);
    } else {
        assert(text.take(k) =~= text);
    }
}

/// Which reports a listing asks for.
#[derive(Debug)]
pub struct ListQuery {
    pub status: Option<String>,
    pub target_type: Option<String>,
    pub limit: u64,
    pub offset: u64,
}

/// Reads the parameters of a listing. A limit or an offset that is
/// missing or is no number gives way to 50 and 0.
pub fn list_reports(
    status: Option<String>,
    target_type: Option<String>,
    limit: Option<&str>,
    offset: Option<&str>,
) -> (query: ListQuery)
    ensures
        query.status == status,
        query.target_type == target_type,
        query.limit == match limit {
            Some(t) => match spec_parse_count(t@) {
                Some(n) => n,
                None => DEFAULT_PAGE_LIMIT,
            },
            None => DEFAULT_PAGE_LIMIT,
        },
        query.offset == match offset {
            Some(t) => match spec_parse_count(t@) {
                Some(n) => n,
                None => 0,
            },
            None => 0,
        },
{
    let limit = match limit {
        Some(t) => match parse_count(t) {
            Some(n) => n,
            None => DEFAULT_PAGE_LIMIT,
        },
        None => DEFAULT_PAGE_LIMIT,
    };
    let offset = match offset {
        Some(t) => match parse_count(t) {
            Some(n) => n,
            None => 0,
        },
        None => 0,
    };
    ListQuery { status, target_type, limit, offset }
}

} // verus!

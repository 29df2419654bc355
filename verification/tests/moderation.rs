use messaging_core::bus::{Route, Topic};
use messaging_core::errors::ErrorKind;
use messaging_core::models::{
    Conversation, ConversationType, GroupMember, GroupRole, Permission, Report, ReportReason,
    ReportStatus, ReportTargetType, User,
};
use messaging_core::moderation::{
    check_automated_actions, create_report, get_moderation_stats, get_user_moderation_status,
    list_reports, parse_count, publish_moderation_event, resolve_report, take_moderation_action,
    update_report, validate_report_target, verify_moderator_role, ActiveRestriction, AutoBan,
    CreateReportRequest, ModerationAction, ModerationActionRequest, ReportResponse, TargetLookup,
};

const TARGET: &str = "550e8400-e29b-41d4-a716-446655440000";
const TARGET_ID: u128 = 0x550e8400_e29b_41d4_a716_446655440000;

fn request(target_type: ReportTargetType, description: Option<String>) -> CreateReportRequest {
    CreateReportRequest {
        target_id: TARGET.to_string(),
        target_type,
        reason: ReportReason::Spam,
        description,
    }
}

fn report(status: ReportStatus, created_at: i64, resolved_at: Option<i64>) -> Report {
    Report {
        id: 1,
        reporter_id: 2,
        target_id: 3,
        target_type: ReportTargetType::User,
        reason: ReportReason::Harassment,
        description: Some("rude".to_string()),
        status,
        created_at,
        resolved_at,
        resolved_by: None,
    }
}

#[test]
fn reports_are_created_pending() {
    let r = create_report(request(ReportTargetType::User, None), 9, 8, true, false, 100).unwrap();
    assert_eq!(r.id, 9);
    assert_eq!(r.reporter_id, 8);
    assert_eq!(r.target_id, TARGET_ID);
    assert_eq!(r.target_type, ReportTargetType::User);
    assert_eq!(r.reason, ReportReason::Spam);
    assert_eq!(r.status, ReportStatus::Pending);
    assert_eq!(r.created_at, 100);
    assert_eq!(r.resolved_at, None);
    assert_eq!(r.resolved_by, None);
}

#[test]
fn reports_are_refused() {
    let long = Some("x".repeat(1001));
    assert_eq!(
        create_report(request(ReportTargetType::User, long), 9, 8, true, false, 1).err(),
        Some(ErrorKind::Validation)
    );
    assert!(create_report(request(ReportTargetType::User, Some("x".repeat(1000))), 9, 8, true, false, 1).is_ok());
    assert_eq!(
        create_report(request(ReportTargetType::User, None), 9, 8, false, false, 1).err(),
        Some(ErrorKind::Validation)
    );
    assert_eq!(
        create_report(request(ReportTargetType::Group, None), 9, 8, false, false, 1).err(),
        Some(ErrorKind::Validation)
    );
    // messages are not looked up
    assert!(create_report(request(ReportTargetType::Message, None), 9, 8, false, false, 1).is_ok());
    assert_eq!(
        create_report(request(ReportTargetType::User, None), 9, 8, true, true, 1).err(),
        Some(ErrorKind::Conflict)
    );
    let mut bad = request(ReportTargetType::Message, None);
    bad.target_id = "nothing".to_string();
    assert_eq!(create_report(bad, 9, 8, true, false, 1).err(), Some(ErrorKind::Validation));
    assert_eq!(validate_report_target(ReportTargetType::User), TargetLookup::User);
    assert_eq!(validate_report_target(ReportTargetType::Group), TargetLookup::Group);
    assert_eq!(validate_report_target(ReportTargetType::Message), TargetLookup::Nothing);
}

#[test]
fn report_is_shown_by_names() {
    let shown = ReportResponse::from_report(report(ReportStatus::Investigating, 5, None));
    assert_eq!(shown.id, 1);
    assert_eq!(shown.reporter_id, 2);
    assert_eq!(shown.target_id, 3);
    assert_eq!(shown.target_type, "User");
    assert_eq!(shown.reason, "Harassment");
    assert_eq!(shown.status, "Investigating");
    assert_eq!(shown.description.as_deref(), Some("rude"));
    assert_eq!(shown.created_at, 5);
    assert_eq!(ReportReason::HateSpeech.name(), "HateSpeech");
    assert_eq!(ReportStatus::Dismissed.name(), "Dismissed");
    assert_eq!(ReportTargetType::Group.name(), "Group");
    assert_eq!(ModerationAction::RemoveMember.name(), "RemoveMember");
}

#[test]
fn updates_note_who_resolved_and_when() {
    let mut r = report(ReportStatus::Pending, 5, None);
    update_report(&mut r, ReportStatus::Investigating, 77, 10);
    assert_eq!(r.status, ReportStatus::Investigating);
    assert_eq!(r.resolved_at, None);
    update_report(&mut r, ReportStatus::Resolved, 77, 11);
    assert_eq!(r.resolved_at, Some(11));
    assert_eq!(r.resolved_by, Some(77));
    update_report(&mut r, ReportStatus::Dismissed, 78, 12);
    assert_eq!(r.resolved_at, None);
    assert_eq!(r.resolved_by, None);
    resolve_report(&mut r, 79, 13);
    assert_eq!(r.status, ReportStatus::Resolved);
    assert_eq!(r.resolved_at, Some(13));
    assert_eq!(r.resolved_by, Some(79));
    assert_eq!(r.description.as_deref(), Some("rude"));
}

#[test]
fn moderators_only() {
    assert_eq!(verify_moderator_role(true, false), Ok(()));
    assert_eq!(verify_moderator_role(false, true), Ok(()));
    assert_eq!(verify_moderator_role(false, false), Err(ErrorKind::Forbidden));
}

#[test]
fn five_spam_reports_in_an_hour_ban_for_a_day() {
    let mut spam = report(ReportStatus::Pending, 5, None);
    spam.reason = ReportReason::Spam;
    assert_eq!(check_automated_actions(&spam, 4, 1_000), None);
    assert_eq!(
        check_automated_actions(&spam, 5, 1_000),
        Some(AutoBan { user_id: 3, expires_at: 87_400 })
    );
    assert_eq!(check_automated_actions(&spam, 5, i64::MAX), None);
    let other = report(ReportStatus::Pending, 5, None);
    assert_eq!(check_automated_actions(&other, 50, 1_000), None);
}

#[test]
fn events_are_keyed() {
    let (event, route) = publish_moderation_event("report_created", 5, 6, 7);
    assert_eq!(event.event_type, "report_created");
    assert_eq!(event.report_id, 5);
    assert_eq!(event.user_id, 6);
    assert_eq!(event.timestamp, 7);
    assert_eq!(route, Route { topic: Topic::ModerationEvents, key: 5 });
    let request = ModerationActionRequest {
        action: ModerationAction::BanUser,
        duration_seconds: Some(60),
        reason: "spam".to_string(),
    };
    let (event, route) = take_moderation_action(request, 9, 10);
    assert_eq!(event.moderator_id, 9);
    assert_eq!(event.action, "BanUser");
    assert_eq!(event.reason, "spam");
    assert_eq!(event.timestamp, 10);
    assert_eq!(route, Route { topic: Topic::ModerationActions, key: 9 });
}

#[test]
fn status_lists_restrictions_in_force() {
    let restrictions = vec![
        ActiveRestriction { restriction_type: "ban".to_string(), expires_at: Some(100), reason: None },
        ActiveRestriction { restriction_type: "mute".to_string(), expires_at: None, reason: Some("x".to_string()) },
        ActiveRestriction { restriction_type: "ban".to_string(), expires_at: Some(101), reason: None },
    ];
    let status = get_user_moderation_status(5, restrictions, 12, 100);
    assert_eq!(status.user_id, 5);
    assert_eq!(status.total_reports, 12);
    assert!(status.is_restricted);
    let kinds: Vec<&str> =
        status.active_restrictions.iter().map(|r| r.restriction_type.as_str()).collect();
    assert_eq!(kinds, vec!["mute", "ban"]);
    assert_eq!(status.active_restrictions[1].expires_at, Some(101));
    let none = get_user_moderation_status(5, vec![], 0, 100);
    assert!(!none.is_restricted);
    assert!(none.active_restrictions.is_empty());
}

#[test]
fn stats_count_by_status_and_age() {
    let now = 1_000_000;
    let reports = vec![
        report(ReportStatus::Pending, now - 10, None),
        report(ReportStatus::Pending, now - 86_400, None),
        report(ReportStatus::Investigating, now - 86_399, None),
        report(ReportStatus::Resolved, now - 200_000, Some(now - 199_000)),
        report(ReportStatus::Resolved, now - 500, Some(now - 200)),
        report(ReportStatus::Dismissed, now - 5, None),
    ];
    let stats = get_moderation_stats(&reports, now);
    assert_eq!(stats.pending_reports, 2);
    assert_eq!(stats.investigating_reports, 1);
    assert_eq!(stats.resolved_reports, 2);
    assert_eq!(stats.last_24h_reports, 4);
    assert_eq!(stats.timed_resolutions, 2);
    assert_eq!(stats.resolution_secs, 1_300);
    let empty = get_moderation_stats(&vec![], now);
    assert_eq!(empty.pending_reports, 0);
    assert_eq!(empty.resolution_secs, 0);
}

#[test]
fn counts_are_read_from_digits() {
    assert_eq!(parse_count("0"), Some(0));
    assert_eq!(parse_count("50"), Some(50));
    assert_eq!(parse_count("007"), Some(7));
    assert_eq!(parse_count("18446744073709551615"), Some(u64::MAX));
    assert_eq!(parse_count("18446744073709551616"), None);
    assert_eq!(parse_count("99999999999999999999999"), None);
    assert_eq!(parse_count(""), None);
    assert_eq!(parse_count("-1"), None);
    assert_eq!(parse_count("+1"), None);
    assert_eq!(parse_count("1a"), None);
    assert_eq!(parse_count(" 1"), None);
    assert_eq!(parse_count("١"), None);
}

#[test]
fn listing_defaults_to_fifty_from_the_start() {
    let q = list_reports(None, None, None, None);
    assert_eq!(q.limit, 50);
    assert_eq!(q.offset, 0);
    assert_eq!(q.status, None);
    let q = list_reports(Some("pending".to_string()), Some("user".to_string()), Some("10"), Some("20"));
    assert_eq!(q.limit, 10);
    assert_eq!(q.offset, 20);
    assert_eq!(q.status.as_deref(), Some("pending"));
    assert_eq!(q.target_type.as_deref(), Some("user"));
    let q = list_reports(None, None, Some("many"), Some("-3"));
    assert_eq!(q.limit, 50);
    assert_eq!(q.offset, 0);
}

#[test]
fn model_helpers() {
    let user = |name: &str| User {
        id: 1,
        username: name.to_string(),
        email: "e".to_string(),
        created_at: 0,
        updated_at: 0,
        is_active: true,
        is_verified: false,
        last_seen: None,
    };
    assert!(!user("ab").validate());
    assert!(user("abc").validate());
    assert!(user(&"a".repeat(32)).validate());
    assert!(!user(&"a".repeat(33)).validate());
    let member = GroupMember {
        user_id: 1,
        group_id: 2,
        role: GroupRole::Member,
        joined_at: 0,
        permissions: vec![Permission::SendMessages, Permission::PinMessages],
    };
    assert!(member.has_permission(Permission::PinMessages));
    assert!(!member.has_permission(Permission::DeleteMessages));
    let mut c = Conversation {
        id: 1,
        conversation_type: ConversationType::Group,
        name: None,
        avatar_url: None,
        created_at: 0,
        last_message_at: None,
        is_encrypted: true,
    };
    c.touch(10);
    assert_eq!(c.last_message_at, Some(10));
    c.touch(5);
    assert_eq!(c.last_message_at, Some(10));
    c.touch(11);
    assert_eq!(c.last_message_at, Some(11));
}

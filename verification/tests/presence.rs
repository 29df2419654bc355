use messaging_core::bus::{Route, Topic};
use messaging_core::errors::ErrorKind;
use messaging_core::presence::{
    aggregate_presence, bulk_presence_update, get_online_friends, rank_of, retain_live,
    update_presence, PresenceState, PresenceTable, UpdatePresenceRequest, UserPresence,
    PRESENCE_TTL_SECS,
};

const ALICE: u128 = 0x550e8400_e29b_41d4_a716_446655440000;

fn state(user: u128, device: &str, status: &str, last_active: i64, expires_at: i64) -> PresenceState {
    PresenceState {
        user_id: user,
        status: status.to_string(),
        device_id: device.to_string(),
        ip_address: None,
        user_agent: None,
        custom_status: Some(format!("on {}", device)),
        last_active,
        expires_at,
    }
}

#[test]
fn ranks() {
    assert_eq!(rank_of("online"), 2);
    assert_eq!(rank_of("away"), 1);
    assert_eq!(rank_of("busy"), 1);
    assert_eq!(rank_of(""), 1);
    assert_eq!(rank_of("offline"), 0);
    assert_eq!(PRESENCE_TTL_SECS, 300);
}

#[test]
fn online_beats_custom_beats_offline() {
    let states = vec![
        state(1, "a", "offline", 90, 500),
        state(1, "b", "away", 50, 500),
        state(1, "c", "online", 10, 500),
        state(1, "d", "busy", 99, 500),
    ];
    let p = aggregate_presence(&states, 1, 100);
    assert_eq!(p.status, "online");
    assert_eq!(p.last_active, 10);
    assert_eq!(p.custom_status.as_deref(), Some("on c"));
    assert_eq!(p.devices, 4);
    let no_online = vec![
        state(1, "a", "offline", 90, 500),
        state(1, "b", "away", 50, 500),
        state(1, "d", "busy", 99, 500),
    ];
    let p = aggregate_presence(&no_online, 1, 100);
    assert_eq!(p.status, "busy");
    assert_eq!(p.last_active, 99);
    let only_offline = vec![state(1, "a", "offline", 90, 500), state(1, "b", "offline", 95, 500)];
    let p = aggregate_presence(&only_offline, 1, 100);
    assert_eq!(p.status, "offline");
    assert_eq!(p.last_active, 95);
    assert_eq!(p.devices, 2);
}

#[test]
fn ties_go_to_the_most_recently_active_and_then_to_the_first() {
    let states = vec![
        state(1, "a", "online", 10, 500),
        state(1, "b", "online", 30, 500),
        state(1, "c", "online", 30, 500),
    ];
    let p = aggregate_presence(&states, 1, 100);
    assert_eq!(p.custom_status.as_deref(), Some("on b"));
    assert_eq!(p.last_active, 30);
}

#[test]
fn expired_and_foreign_reports_do_not_count() {
    let states = vec![
        state(1, "a", "online", 10, 100),
        state(2, "b", "online", 10, 500),
        state(1, "c", "away", 5, 101),
    ];
    let p = aggregate_presence(&states, 1, 100);
    assert_eq!(p.status, "away");
    assert_eq!(p.devices, 1);
    let nobody = aggregate_presence(&states, 3, 100);
    assert_eq!(nobody.status, "offline");
    assert_eq!(nobody.last_active, 0);
    assert_eq!(nobody.custom_status, None);
    assert_eq!(nobody.devices, 0);
    let late = aggregate_presence(&states, 1, 101);
    assert_eq!(late.status, "offline");
    assert_eq!(late.devices, 0);
}

#[test]
fn update_refreshes_the_device_and_drops_what_expired() {
    let mut t = PresenceTable::new();
    let (event, route) = t
        .update_presence(
            1,
            "online".to_string(),
            "d1".to_string(),
            Some("10.0.0.1".to_string()),
            None,
            None,
            1_000,
        )
        .unwrap();
    assert_eq!(event.user_id, 1);
    assert_eq!(event.status, "online");
    assert_eq!(event.device_id, "d1");
    assert_eq!(event.timestamp, 1_000);
    assert_eq!(route, Route { topic: Topic::PresenceEvents, key: 1 });
    t.update_presence(1, "away".to_string(), "d2".to_string(), None, None, None, 1_100).unwrap();
    t.update_presence(2, "online".to_string(), "d1".to_string(), None, None, None, 1_100).unwrap();
    assert_eq!(t.len(), 3);
    assert_eq!(t.get_presence(1, 1_200).status, "online");
    assert!(t.is_online(1, 1_200));
    assert!(!t.is_online(3, 1_200));
    assert!(!t.is_online(1, 1_400));
    assert_eq!(t.get_presence(1, 1_299).devices, 2);
    // the first report ends at 1300
    assert_eq!(t.get_presence(1, 1_300).status, "away");
    // a new report of d2 at 1350 refreshes it and drops the expired d1 of user 1
    t.update_presence(1, "busy".to_string(), "d2".to_string(), None, None, Some("x".to_string()), 1_350)
        .unwrap();
    assert_eq!(t.len(), 2);
    let p = t.get_presence(1, 1_400);
    assert_eq!(p.status, "busy");
    assert_eq!(p.last_active, 1_350);
    assert_eq!(p.custom_status.as_deref(), Some("x"));
    assert_eq!(p.devices, 1);
    // user 2 was left alone although its report ended at 1400
    assert_eq!(t.get_presence(2, 1_399).status, "online");
    t.cleanup(1_400);
    assert_eq!(t.len(), 1);
    t.cleanup(1_650);
    assert_eq!(t.len(), 0);
}

#[test]
fn update_from_the_wire_needs_a_uuid() {
    let mut t = PresenceTable::new();
    let good = UpdatePresenceRequest {
        user_id: "550e8400-e29b-41d4-a716-446655440000".to_string(),
        status: "online".to_string(),
        device_id: "d1".to_string(),
        ip_address: None,
        user_agent: Some("agent".to_string()),
        custom_status: None,
    };
    let (event, route) = update_presence(&mut t, good, 50).unwrap();
    assert_eq!(event.user_id, ALICE);
    assert_eq!(route.key, ALICE);
    assert_eq!(t.get_presence(ALICE, 60).status, "online");
    let bad = UpdatePresenceRequest {
        user_id: "not-a-uuid".to_string(),
        status: "online".to_string(),
        device_id: "d1".to_string(),
        ip_address: None,
        user_agent: None,
        custom_status: None,
    };
    assert_eq!(update_presence(&mut t, bad, 50).err(), Some(ErrorKind::Validation));
    assert_eq!(t.len(), 1);
    let late = t.update_presence(1, "online".to_string(), "d".to_string(), None, None, None, i64::MAX);
    assert_eq!(late.err(), Some(ErrorKind::Validation));
    assert_eq!(t.len(), 1);
}

#[test]
fn retain_live_keeps_other_users_when_asked() {
    let mut states = vec![
        state(1, "a", "online", 1, 10),
        state(2, "b", "online", 1, 10),
        state(1, "c", "online", 1, 30),
    ];
    retain_live(&mut states, Some(1), 20);
    let devices: Vec<&str> = states.iter().map(|s| s.device_id.as_str()).collect();
    assert_eq!(devices, vec!["b", "c"]);
    retain_live(&mut states, None, 20);
    let devices: Vec<&str> = states.iter().map(|s| s.device_id.as_str()).collect();
    assert_eq!(devices, vec!["c"]);
}

#[test]
fn online_friends_and_tally() {
    let friends = vec![
        (1, UserPresence { status: "online".to_string(), last_active: 5, custom_status: None, devices: 1 }),
        (2, UserPresence { status: "away".to_string(), last_active: 6, custom_status: None, devices: 1 }),
        (3, UserPresence { status: "online".to_string(), last_active: 7, custom_status: Some("hi".to_string()), devices: 2 }),
    ];
    let online = get_online_friends(friends);
    assert_eq!(online.len(), 2);
    assert_eq!(online[0].user_id, 1);
    assert_eq!(online[1].user_id, 3);
    assert_eq!(online[1].custom_status.as_deref(), Some("hi"));
    assert_eq!(online[1].last_active, 7);
    assert_eq!(bulk_presence_update(&vec![true, false, true, true]), (3, 1));
    assert_eq!(bulk_presence_update(&vec![]), (0, 0));
}

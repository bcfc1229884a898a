use lurelands_server::players::{
    choose_spawn_point, join_world, leave_world, update_player_name, Arrival,
};
use lurelands_server::sessions::{
    add_xp, end_session, get_active_session_id, get_player_stats, log_game_event,
    log_item_bought, log_item_sold, seconds_between, start_session,
};
use lurelands_server::store::{GameEventType, Rejection, World};

const NOW: i64 = 1_700_000_000_000_000;

#[test]
fn starting_a_session_closes_the_ones_left_running() {
    let mut w = World::new();
    start_session(&mut w, "p", NOW);
    start_session(&mut w, "q", NOW + 1);
    start_session(&mut w, "p", NOW + 90_500_000);
    assert_eq!(w.sessions.len(), 3);
    assert!(!w.sessions[0].is_active);
    assert_eq!(w.sessions[0].ended_at, Some(NOW + 90_500_000));
    assert_eq!(w.sessions[0].duration_seconds, 90);
    assert!(w.sessions[1].is_active);
    assert!(w.sessions[2].is_active);
    assert_eq!(w.sessions[2].started_at, NOW + 90_500_000);
    assert_eq!(get_active_session_id(&w, "p"), Some(3));
    assert_eq!(get_active_session_id(&w, "q"), Some(2));
    assert_eq!(get_active_session_id(&w, "r"), None);
    assert_eq!(w.sessions.iter().filter(|s| s.player_id == "p" && s.is_active).count(), 1);
    let started: Vec<_> = w.events.iter().map(|e| (e.event_type.as_str(), e.session_id)).collect();
    assert_eq!(
        started,
        vec![("session_started", Some(1)), ("session_started", Some(2)), ("session_started", Some(3))]
    );
}

#[test]
fn first_session_creates_the_stats() {
    let mut w = World::new();
    start_session(&mut w, "p", NOW);
    let stats = get_player_stats(&w, "p").unwrap();
    assert_eq!(stats.total_sessions, 1);
    assert_eq!((stats.level, stats.xp, stats.xp_to_next_level), (1, 0, 283));
    assert_eq!((stats.first_seen_at, stats.last_seen_at), (NOW, NOW));
    start_session(&mut w, "p", NOW + 5);
    let stats = get_player_stats(&w, "p").unwrap();
    assert_eq!(stats.total_sessions, 2);
    assert_eq!((stats.first_seen_at, stats.last_seen_at), (NOW, NOW + 5));
    assert_eq!(w.stats.len(), 1);
    assert_eq!(get_player_stats(&w, "q"), None);
}

#[test]
fn ending_a_session_counts_the_playtime() {
    let mut w = World::new();
    assert_eq!(end_session(&mut w, "p", NOW), Err(Rejection::NoActiveSession));
    start_session(&mut w, "p", NOW);
    assert_eq!(end_session(&mut w, "p", NOW + 61_999_999), Ok(61));
    assert!(!w.sessions[0].is_active);
    assert_eq!(w.sessions[0].duration_seconds, 61);
    assert_eq!(w.stats[0].total_playtime_seconds, 61);
    assert_eq!(w.stats[0].last_seen_at, NOW + 61_999_999);
    let e = w.events.last().unwrap();
    assert_eq!(e.event_type, "session_ended");
    assert_eq!(e.session_id, None);
    assert_eq!(e.metadata.as_deref(), Some("{\"duration_seconds\":61}"));
    let before = w.clone();
    assert_eq!(end_session(&mut w, "p", NOW), Err(Rejection::NoActiveSession));
    assert_eq!(w, before);
}

#[test]
fn seconds_are_whole_and_wrap_when_negative() {
    assert_eq!(seconds_between(0, 0), 0);
    assert_eq!(seconds_between(0, 999_999), 0);
    assert_eq!(seconds_between(0, 1_000_000), 1);
    assert_eq!(seconds_between(5, 3_600_000_005), 3600);
    assert_eq!(seconds_between(999_999, 0), 0);
    assert_eq!(seconds_between(1_000_000, 0), u64::MAX);
    assert_eq!(seconds_between(2_500_000, 0), u64::MAX - 1);
}

#[test]
fn events_are_numbered_and_bear_what_they_are_given() {
    let mut w = World::new();
    log_item_sold(&mut w, "p", "fish_pond_1", 2, 3, 60, NOW);
    log_item_bought(&mut w, "p", "lure_1", 2, 40, NOW + 1);
    log_game_event(
        &mut w,
        "p".to_string(),
        GameEventType::PoleEquipped.to_string(),
        Some("pole_2".to_string()),
        None,
        None,
        None,
        Some("pond_1".to_string()),
        Some("{}".to_string()),
        NOW + 2,
    );
    assert_eq!(w.events.iter().map(|e| e.id).collect::<Vec<_>>(), vec![1, 2, 3]);
    assert_eq!(w.next_event_id, 4);
    assert_eq!(w.events[0].event_type, "item_sold");
    assert_eq!((w.events[0].quantity, w.events[0].gold_amount, w.events[0].rarity), (Some(3), Some(60), Some(2)));
    assert_eq!(w.events[1].event_type, "item_bought");
    assert_eq!((w.events[1].quantity, w.events[1].gold_amount, w.events[1].rarity), (Some(2), Some(40), Some(0)));
    assert_eq!(w.events[2].event_type, "pole_equipped");
    assert_eq!(w.events[2].water_body_id.as_deref(), Some("pond_1"));
    assert_eq!(w.events[2].metadata.as_deref(), Some("{}"));
    assert_eq!(w.events[2].created_at, NOW + 2);
}

#[test]
fn event_types_have_names() {
    let names = [
        (GameEventType::FishCaught, "fish_caught"),
        (GameEventType::ItemBought, "item_bought"),
        (GameEventType::ItemSold, "item_sold"),
        (GameEventType::SessionStarted, "session_started"),
        (GameEventType::SessionEnded, "session_ended"),
        (GameEventType::PoleEquipped, "pole_equipped"),
        (GameEventType::PoleUnequipped, "pole_unequipped"),
    ];
    for (kind, name) in names {
        assert_eq!(kind.to_string(), name);
        assert_eq!(kind.as_str(), name);
    }
}

#[test]
fn experience_is_gained_by_players_with_stats() {
    let mut w = World::new();
    assert_eq!(add_xp(&mut w, "p", 10), Err(Rejection::PlayerNotFound));
    start_session(&mut w, "p", NOW);
    assert_eq!(add_xp(&mut w, "p", 1000), Ok(()));
    assert_eq!((w.stats[0].level, w.stats[0].xp, w.stats[0].xp_to_next_level), (3, 197, 800));
    w.stats[0].level = 0;
    w.stats[0].xp = 0;
    w.stats[0].xp_to_next_level = 0;
    assert_eq!(add_xp(&mut w, "p", 5), Ok(()));
    assert_eq!((w.stats[0].level, w.stats[0].xp, w.stats[0].xp_to_next_level), (1, 5, 283));
}

#[test]
fn joining_creates_the_account_once() {
    let mut w = World::new();
    assert_eq!(
        join_world(&mut w, "ab", "Ann", 0xFF112233, 5, NOW),
        Arrival::Spawned { spawn_point: Some((97 + 98) % 5) }
    );
    let p = &w.players[0];
    assert_eq!((p.id.as_str(), p.name.as_str(), p.color, p.is_online, p.gold), ("ab", "Ann", 0xFF112233, true, 0));
    assert_eq!(p.equipped_pole_id, None);
    assert_eq!(p.last_updated, NOW);
    assert_eq!(w.sessions.len(), 1);
    assert_eq!(leave_world(&mut w, "ab", NOW + 2_000_000), Ok(()));
    assert!(!w.players[0].is_online);
    assert_eq!(w.sessions[0].duration_seconds, 2);
    w.players[0].gold = 9;
    assert_eq!(join_world(&mut w, "ab", "Other", 1, 5, NOW + 3_000_000), Arrival::Returned);
    assert_eq!(w.players.len(), 1);
    assert_eq!(w.players[0].name, "Ann");
    assert_eq!(w.players[0].color, 0xFF112233);
    assert_eq!(w.players[0].gold, 9);
    assert!(w.players[0].is_online);
    assert_eq!(w.sessions.len(), 2);
    assert_eq!(leave_world(&mut w, "nobody", NOW), Err(Rejection::PlayerNotFound));
}

#[test]
fn leaving_without_a_session_only_marks_offline() {
    let mut w = World::new();
    assert_eq!(update_player_name(&mut w, "p", "Ann", 0, NOW), Arrival::Spawned { spawn_point: None });
    assert!(!w.players[0].is_online);
    assert_eq!(w.players[0].color, 0xFFE74C3C);
    assert!(w.sessions.is_empty());
    assert_eq!(leave_world(&mut w, "p", NOW + 1), Ok(()));
    assert_eq!(w.players[0].last_updated, NOW + 1);
    assert!(w.events.is_empty());
    assert_eq!(update_player_name(&mut w, "p", "Bea", 3, NOW + 2), Arrival::Returned);
    assert_eq!(w.players[0].name, "Bea");
    assert_eq!(w.players[0].last_updated, NOW + 2);
}

#[test]
fn spawn_point_is_the_byte_sum_of_the_id() {
    assert_eq!(choose_spawn_point("", 5), Some(0));
    assert_eq!(choose_spawn_point("a", 5), Some(97 % 5));
    assert_eq!(choose_spawn_point("player_1", 5), Some("player_1".bytes().map(|b| b as usize).sum::<usize>() % 5));
    assert_eq!(choose_spawn_point("é", 7), Some((0xC3 + 0xA9) % 7));
    assert_eq!(choose_spawn_point("a", 0), None);
    assert_eq!(choose_spawn_point("a", 1), Some(0));
}

use lurelands_server::economy::{
    add_to_inventory, can_add_to_inventory, can_buy, can_earn_gold, can_sell, can_spend_gold,
    purchase_verdict, sale_verdict,
};
use lurelands_server::fishing::can_catch_fish;
use lurelands_server::items::checked_fish_xp;
use lurelands_server::leveling::can_gain_experience;
use lurelands_server::npcs::can_record_npc_interaction;
use lurelands_server::players::join_world;
use lurelands_server::quests::{
    accept_quest, accept_verdict, can_accept_quest, can_complete_quest, can_count_catch,
    can_grant_rewards, completion_verdict,
};
use lurelands_server::seeds::admin_seed_quests;
use lurelands_server::sessions::{can_add_xp, can_end_session, can_start_session};
use lurelands_server::store::{Rejection, World};

const NOW: i64 = 1_700_000_000_000_000;

fn world() -> World {
    let mut w = World::new();
    admin_seed_quests(&mut w);
    join_world(&mut w, "p", "Ann", 1, 0, NOW);
    w
}

#[test]
fn stacks_need_room_in_the_counter() {
    let mut w = world();
    assert!(can_add_to_inventory(&w, "p", "fish_pond_1", 1, 11));
    w.next_inventory_id = u64::MAX - 2;
    assert!(!can_add_to_inventory(&w, "p", "fish_pond_1", 1, 11));
    assert!(can_add_to_inventory(&w, "p", "fish_pond_1", 1, 10));
    assert!(can_add_to_inventory(&w, "p", "lure_1", 0, u32::MAX));
    assert!(!can_add_to_inventory(&w, "p", "pole_1", 0, 3));
    w.next_inventory_id = u64::MAX;
    assert!(can_add_to_inventory(&w, "p", "pole_1", 0, 0));
    assert!(!can_add_to_inventory(&w, "p", "pole_1", 0, 1));
    w.next_inventory_id = 1;
    add_to_inventory(&mut w, "p", "fish_pond_1", 1, 3);
    w.next_inventory_id = u64::MAX;
    assert!(can_add_to_inventory(&w, "p", "fish_pond_1", 1, 2));
    assert!(!can_add_to_inventory(&w, "p", "fish_pond_1", 1, 3));
}

#[test]
fn gold_needs_room_in_the_account() {
    let mut w = world();
    assert!(can_earn_gold(&w, "p", u32::MAX));
    assert!(can_earn_gold(&w, "nobody", u32::MAX));
    w.players[0].gold = 1;
    assert!(!can_earn_gold(&w, "p", u32::MAX));
    assert!(can_earn_gold(&w, "p", u32::MAX - 1));
    w.stats[0].total_gold_earned = u64::MAX;
    assert!(!can_earn_gold(&w, "p", 1));
    assert!(can_earn_gold(&w, "p", 0));
    assert!(can_spend_gold(&w, "p", 5));
    w.stats[0].total_gold_spent = u64::MAX - 4;
    assert!(!can_spend_gold(&w, "p", 5));
}

#[test]
fn sale_verdicts_and_room() {
    let mut w = world();
    assert_eq!(sale_verdict(&w, "p", "lure_4", 0, 0), Some(Rejection::ZeroQuantity));
    assert_eq!(sale_verdict(&w, "q", "lure_4", 0, 1), Some(Rejection::PlayerNotFound));
    assert_eq!(sale_verdict(&w, "p", "lure_4", 0, 1), Some(Rejection::InsufficientQuantity));
    assert!(can_sell(&w, "p", "lure_4", 0, 1));
    add_to_inventory(&mut w, "p", "lure_4", 0, 20_000_000);
    assert_eq!(sale_verdict(&w, "p", "lure_4", 0, 20_000_000), None);
    assert!(!can_sell(&w, "p", "lure_4", 0, 20_000_000));
    assert!(can_sell(&w, "p", "lure_4", 0, 17_000_000));
    w.players[0].gold = 100_000_000;
    assert!(!can_sell(&w, "p", "lure_4", 0, 17_000_000));
    w.players[0].gold = 0;
    w.next_event_id = u64::MAX;
    assert!(!can_sell(&w, "p", "lure_4", 0, 1));
    assert!(can_sell(&w, "p", "lure_4", 0, 0));
}

#[test]
fn purchase_verdicts_and_room() {
    let mut w = world();
    assert_eq!(purchase_verdict(&w, "p", "boot"), Some(Rejection::NotPurchasable));
    assert_eq!(purchase_verdict(&w, "q", "pole_1"), Some(Rejection::PlayerNotFound));
    assert_eq!(purchase_verdict(&w, "p", "pole_2"), Some(Rejection::InsufficientGold));
    assert_eq!(purchase_verdict(&w, "p", "pole_1"), None);
    assert!(can_buy(&w, "p", "pole_1"));
    assert!(can_buy(&w, "p", "pole_2"));
    w.next_inventory_id = u64::MAX;
    assert!(!can_buy(&w, "p", "pole_1"));
    assert!(can_buy(&w, "p", "pole_2"));
}

#[test]
fn experience_needs_room_in_the_level() {
    assert!(can_gain_experience(1, 0, 283, 1_000_000));
    assert!(!can_gain_experience(1, u64::MAX, 283, 1));
    assert!(can_gain_experience(u32::MAX, 0, 10, 5));
    assert!(!can_gain_experience(u32::MAX, 0, 10, 10));
    assert!(!can_gain_experience(u32::MAX - 1, 0, 10, 10));
    assert!(can_gain_experience(u32::MAX - 2, 0, 10, 10));
    assert!(can_gain_experience(u32::MAX, 0, 0, u64::MAX));
    let mut w = world();
    assert!(can_add_xp(&w, "p", 500));
    assert!(can_add_xp(&w, "nobody", u64::MAX));
    w.stats[0].xp = u64::MAX;
    assert!(!can_add_xp(&w, "p", 1));
}

#[test]
fn fish_xp_needs_room() {
    assert_eq!(checked_fish_xp("fish_pond_2", 3), Some(40));
    assert_eq!(checked_fish_xp("fish_1844674407370955159", 1), Some(18446744073709551600));
    assert_eq!(checked_fish_xp("fish_1844674407370955160", 1), Some(u64::MAX - 5));
    assert_eq!(checked_fish_xp("fish_1844674407370955160", 2), Some(u64::MAX));
    assert_eq!(checked_fish_xp("fish_1844674407370955160", 3), None);
    assert_eq!(checked_fish_xp("fish_1844674407370955161", 1), None);
    assert_eq!(checked_fish_xp("fish_18446744073709551615", 1), None);
    let w = world();
    assert!(can_catch_fish(&w, "p", "fish_pond_1", 1));
    assert!(!can_catch_fish(&w, "p", "fish_18446744073709551615", 1));
}

#[test]
fn catch_needs_room_in_every_counter() {
    let w = world();
    for change in 0..5 {
        let mut w = w.clone();
        match change {
            0 => w.next_fish_catch_id = u64::MAX,
            1 => w.next_event_id = u64::MAX,
            2 => w.next_inventory_id = u64::MAX,
            3 => w.stats[0].total_fish_caught = u32::MAX,
            _ => {
                assert_eq!(accept_quest(&mut w, "p", "guild_1", NOW), Ok(1));
                w.player_quests[0].progress = "{\"total\":4294967295}".to_string();
            }
        }
        assert!(!can_catch_fish(&w, "p", "fish_pond_1", 1), "{}", change);
    }
}

#[test]
fn progress_needs_room_in_active_quests() {
    let mut w = world();
    assert!(can_count_catch(&w, "p", "fish_pond_1"));
    assert_eq!(accept_quest(&mut w, "p", "guild_1", NOW), Ok(1));
    assert_eq!(accept_quest(&mut w, "p", "daily_haul", NOW), Ok(2));
    w.player_quests[0].progress = "{\"fish_pond_1\":4294967295}".to_string();
    assert!(!can_count_catch(&w, "p", "fish_pond_1"));
    assert!(can_count_catch(&w, "p", "fish_pond_2"));
    assert!(can_count_catch(&w, "q", "fish_pond_1"));
    w.player_quests[0].status = "completed".to_string();
    assert!(can_count_catch(&w, "p", "fish_pond_1"));
}

#[test]
fn rewards_need_room() {
    let mut w = world();
    let rewards = "{\"gold\": 10, \"items\": [{\"item_id\": \"a\"}, {\"x\": 1}, {\"item_id\": \"b\"}, {\"item_id\": \"c\", \"quantity\": 0}]}";
    assert!(can_grant_rewards(&w, "p", rewards));
    w.next_inventory_id = u64::MAX - 1;
    assert!(!can_grant_rewards(&w, "p", rewards));
    w.next_inventory_id = u64::MAX - 2;
    assert!(can_grant_rewards(&w, "p", rewards));
    w.players[0].gold = u32::MAX - 9;
    assert!(!can_grant_rewards(&w, "p", rewards));
    assert!(can_grant_rewards(&w, "nobody", rewards));
}

#[test]
fn quest_verdicts_and_room() {
    let mut w = world();
    assert_eq!(accept_verdict(&w, "p", "nope"), Some(Rejection::QuestNotFound));
    assert_eq!(accept_verdict(&w, "p", "guild_2"), Some(Rejection::PrerequisiteNotMet));
    assert_eq!(accept_verdict(&w, "p", "guild_1"), None);
    assert_eq!(completion_verdict(&w, "p", "guild_1"), Some(Rejection::QuestNotActive));
    assert_eq!(completion_verdict(&w, "q", "guild_1"), Some(Rejection::PlayerNotFound));
    w.next_player_quest_id = u64::MAX;
    assert!(!can_accept_quest(&w, "p", "guild_1"));
    assert!(can_accept_quest(&w, "p", "guild_2"));
    w.next_player_quest_id = 1;
    assert_eq!(accept_quest(&mut w, "p", "guild_1", NOW), Ok(1));
    assert_eq!(accept_verdict(&w, "p", "guild_1"), Some(Rejection::QuestAlreadyActive));
    assert_eq!(completion_verdict(&w, "p", "guild_1"), Some(Rejection::RequirementsNotMet));
    assert!(can_complete_quest(&w, "p", "guild_1"));
    w.player_quests[0].progress = "{\"total\":2}".to_string();
    assert_eq!(completion_verdict(&w, "p", "guild_1"), None);
    assert!(can_complete_quest(&w, "p", "guild_1"));
    w.players[0].gold = u32::MAX - 49;
    assert!(!can_complete_quest(&w, "p", "guild_1"));
    w.players[0].gold = u32::MAX - 50;
    assert!(can_complete_quest(&w, "p", "guild_1"));
    w.next_event_id = u64::MAX;
    assert!(!can_complete_quest(&w, "p", "guild_1"));
    w.player_quests[0].status = "completed".to_string();
    assert_eq!(accept_verdict(&w, "p", "guild_1"), Some(Rejection::QuestAlreadyCompleted));
    assert_eq!(accept_verdict(&w, "p", "guild_2"), None);
}

#[test]
fn daily_quest_that_asks_for_itself_is_turned_down_whole() {
    let mut w = world();
    let daily = w.quests.iter().position(|q| q.id == "daily_haul").unwrap();
    w.quests[daily].prerequisite_quest_id = Some("daily_haul".to_string());
    assert_eq!(accept_verdict(&w, "p", "daily_haul"), Some(Rejection::PrerequisiteNotMet));
    w.quests[daily].prerequisite_quest_id = None;
    assert_eq!(accept_quest(&mut w, "p", "daily_haul", NOW), Ok(1));
    w.player_quests[0].status = "completed".to_string();
    w.quests[daily].prerequisite_quest_id = Some("daily_haul".to_string());
    let before = w.clone();
    assert_eq!(accept_verdict(&w, "p", "daily_haul"), Some(Rejection::PrerequisiteNotMet));
    assert_eq!(accept_quest(&mut w, "p", "daily_haul", NOW), Err(Rejection::PrerequisiteNotMet));
    assert_eq!(w, before);
}

#[test]
fn sessions_and_meetings_need_room() {
    let mut w = world();
    assert!(can_start_session(&w, "p"));
    assert!(can_end_session(&w, "p", NOW + 5));
    w.stats[0].total_playtime_seconds = u64::MAX - 4;
    assert!(!can_end_session(&w, "p", NOW + 5_000_000));
    assert!(can_end_session(&w, "p", NOW + 4_999_999));
    assert!(can_end_session(&w, "q", NOW + 5_000_000));
    w.stats[0].total_sessions = u32::MAX;
    assert!(!can_start_session(&w, "p"));
    assert!(can_start_session(&w, "q"));
    w.next_session_id = u64::MAX;
    assert!(!can_start_session(&w, "q"));
    assert!(can_record_npc_interaction(&w, "p", "nobody", "talked"));
}

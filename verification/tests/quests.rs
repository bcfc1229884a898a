use lurelands_server::document::get_progress_count;
use lurelands_server::economy::total_owned;
use lurelands_server::fishing::{catch_fish, release_fish};
use lurelands_server::players::join_world;
use lurelands_server::quests::{
    accept_quest, complete_quest, get_available_quests, grant_quest_rewards,
    update_quest_progress_for_fish, QuestCounts,
};
use lurelands_server::seeds::admin_seed_quests;
use lurelands_server::store::{Rejection, World};

const NOW: i64 = 1_700_000_000_000_000;

fn seeded_world() -> World {
    let mut w = World::new();
    let seeded = admin_seed_quests(&mut w);
    assert_eq!((seeded.added, seeded.skipped), (6, 0));
    join_world(&mut w, "p", "Ann", 7, 0, NOW);
    w
}

fn catch(w: &mut World, item: &str, rarity: u8) {
    catch_fish(w, "p", item, "sunfish", "12.5", rarity, "pond_1", NOW + 10);
}

#[test]
fn guild_initiation_is_completed_after_two_catches() {
    let mut w = seeded_world();
    assert_eq!(accept_quest(&mut w, "p", "guild_1", NOW + 1), Ok(1));
    assert_eq!(w.player_quests[0].status, "active");
    assert_eq!(w.player_quests[0].progress, "{}");
    assert_eq!(w.player_quests[0].accepted_at, Some(NOW + 1));
    assert_eq!(complete_quest(&mut w, "p", "guild_1", NOW + 2), Err(Rejection::RequirementsNotMet));
    catch(&mut w, "fish_pond_1", 1);
    assert_eq!(complete_quest(&mut w, "p", "guild_1", NOW + 2), Err(Rejection::RequirementsNotMet));
    catch(&mut w, "fish_river_2", 2);
    assert_eq!(get_progress_count(&w.player_quests[0].progress, "total"), 2);
    assert_eq!(
        w.player_quests[0].progress,
        "{\"fish_pond_1\":1,\"total\":2,\"max_rarity\":2,\"fish_river_2\":1}"
    );
    let gold = w.players[0].gold;
    let xp = w.stats[0].xp;
    assert_eq!(complete_quest(&mut w, "p", "guild_1", NOW + 3), Ok(()));
    assert_eq!(w.players[0].gold, gold + 50);
    assert_eq!(w.stats[0].xp, xp + 150);
    assert_eq!(w.stats[0].level, 1);
    assert_eq!(w.player_quests[0].status, "completed");
    assert_eq!(w.player_quests[0].completed_at, Some(NOW + 3));
    let e = w.events.last().unwrap();
    assert_eq!(e.event_type, "quest_completed");
    assert_eq!(e.item_id.as_deref(), Some("guild_1"));
    assert_eq!(e.metadata.as_deref(), Some("{\"rewards\":{\"gold\": 50}}"));
}

#[test]
fn catch_is_logged_stocked_recorded_and_rewarded() {
    let mut w = seeded_world();
    catch(&mut w, "fish_pond_2", 3);
    assert_eq!(w.fish_catches.len(), 1);
    let c = &w.fish_catches[0];
    assert_eq!((c.id, c.fish_id.as_str(), c.player_id.as_str()), (1, "fish_pond_2", "p"));
    assert_eq!(c.fish_type, "sunfish");
    assert_eq!(c.rarity, "3star");
    assert_eq!(c.water_body_id, "pond_1");
    assert!(!c.released);
    assert_eq!(c.caught_at, NOW + 10);
    assert_eq!(total_owned(&w, "p", "fish_pond_2", 3), 1);
    assert_eq!(w.stats[0].total_fish_caught, 1);
    assert_eq!(w.stats[0].xp, 40);
    let e = w.events.last().unwrap();
    assert_eq!(e.event_type, "fish_caught");
    assert_eq!(e.quantity, Some(1));
    assert_eq!(e.gold_amount, None);
    assert_eq!(e.rarity, Some(3));
    assert_eq!(e.water_body_id.as_deref(), Some("pond_1"));
    assert_eq!(e.metadata.as_deref(), Some("{\"fish_type\":\"sunfish\",\"size\":12.5}"));
    assert_eq!(release_fish(&mut w, 1), Ok(()));
    assert!(w.fish_catches[0].released);
    assert_eq!(release_fish(&mut w, 2), Err(Rejection::CatchNotFound));
}

#[test]
fn catches_raise_the_level() {
    let mut w = seeded_world();
    for _ in 0..8 {
        catch(&mut w, "fish_pond_4", 3);
    }
    assert_eq!(w.stats[0].total_fish_caught, 8);
    assert_eq!((w.stats[0].level, w.stats[0].xp, w.stats[0].xp_to_next_level), (2, 197, 520));
    assert_eq!(w.inventory.iter().map(|s| s.quantity).collect::<Vec<_>>(), vec![5, 3]);
}

#[test]
fn progress_counts_in_active_quests_only() {
    let mut w = seeded_world();
    assert_eq!(accept_quest(&mut w, "p", "guild_1", NOW), Ok(1));
    assert_eq!(accept_quest(&mut w, "p", "daily_haul", NOW), Ok(2));
    join_world(&mut w, "q", "Bob", 7, 0, NOW);
    assert_eq!(accept_quest(&mut w, "q", "guild_1", NOW), Ok(3));
    catch(&mut w, "fish_pond_1", 1);
    catch(&mut w, "fish_pond_1", 1);
    assert_eq!(complete_quest(&mut w, "p", "guild_1", NOW), Ok(()));
    update_quest_progress_for_fish(&mut w, "p", "fish_pond_1", 3);
    assert_eq!(w.player_quests[0].progress, "{\"fish_pond_1\":2,\"total\":2,\"max_rarity\":1}");
    assert_eq!(w.player_quests[1].progress, "{\"fish_pond_1\":3,\"total\":3,\"max_rarity\":3}");
    assert_eq!(w.player_quests[2].progress, "{}");
}

#[test]
fn quest_cannot_be_accepted_twice() {
    let mut w = seeded_world();
    assert_eq!(accept_quest(&mut w, "p", "guild_1", NOW), Ok(1));
    let before = w.clone();
    assert_eq!(accept_quest(&mut w, "p", "guild_1", NOW), Err(Rejection::QuestAlreadyActive));
    assert_eq!(accept_quest(&mut w, "p", "no_such_quest", NOW), Err(Rejection::QuestNotFound));
    assert_eq!(w, before);
}

#[test]
fn story_quest_stays_completed_and_opens_the_next() {
    let mut w = seeded_world();
    let before = w.clone();
    assert_eq!(accept_quest(&mut w, "p", "guild_2", NOW), Err(Rejection::PrerequisiteNotMet));
    assert_eq!(w, before);
    assert_eq!(accept_quest(&mut w, "p", "guild_1", NOW), Ok(1));
    assert_eq!(accept_quest(&mut w, "p", "guild_2", NOW), Err(Rejection::PrerequisiteNotMet));
    catch(&mut w, "fish_pond_1", 1);
    catch(&mut w, "fish_pond_1", 1);
    assert_eq!(complete_quest(&mut w, "p", "guild_1", NOW), Ok(()));
    assert_eq!(accept_quest(&mut w, "p", "guild_1", NOW), Err(Rejection::QuestAlreadyCompleted));
    assert_eq!(accept_quest(&mut w, "p", "guild_2", NOW), Ok(2));
}

#[test]
fn daily_quest_can_be_taken_again() {
    let mut w = seeded_world();
    assert_eq!(accept_quest(&mut w, "p", "daily_haul", NOW), Ok(1));
    for _ in 0..5 {
        catch(&mut w, "fish_pond_1", 1);
    }
    assert_eq!(complete_quest(&mut w, "p", "daily_haul", NOW + 1), Ok(()));
    assert_eq!(w.players[0].gold, 25);
    assert_eq!(w.stats[0].xp, 150);
    assert_eq!(accept_quest(&mut w, "p", "daily_haul", NOW + 2), Ok(2));
    assert_eq!(w.player_quests.len(), 1);
    assert_eq!(w.player_quests[0].id, 2);
    assert_eq!(w.player_quests[0].status, "active");
    assert_eq!(w.player_quests[0].progress, "{}");
    assert_eq!(w.player_quests[0].completed_at, None);
}

#[test]
fn completing_takes_an_active_quest_with_a_definition() {
    let mut w = seeded_world();
    assert_eq!(complete_quest(&mut w, "p", "guild_1", NOW), Err(Rejection::QuestNotActive));
    assert_eq!(accept_quest(&mut w, "p", "guild_1", NOW), Ok(1));
    w.quests.remove(0);
    let before = w.clone();
    assert_eq!(complete_quest(&mut w, "p", "guild_1", NOW), Err(Rejection::QuestDefinitionMissing));
    assert_eq!(w, before);
}

#[test]
fn rewards_grant_gold_and_capped_stacks() {
    let mut w = seeded_world();
    assert_eq!(
        grant_quest_rewards(
            &mut w,
            "p",
            "{\"gold\": 100, \"items\": [{\"item_id\": \"pole_2\", \"quantity\": 3}, {\"item_id\": \"fish_pond_1\", \"quantity\": 9}, {\"quantity\": 2}, {\"item_id\": \"lure_2\"}]}",
            NOW + 4,
        ),
        Ok(())
    );
    assert_eq!(w.players[0].gold, 100);
    assert_eq!(w.players[0].last_updated, NOW + 4);
    assert_eq!(w.stats[0].total_gold_earned, 0);
    let stacks: Vec<(u64, &str, u8, u32)> =
        w.inventory.iter().map(|s| (s.id, s.item_id.as_str(), s.rarity, s.quantity)).collect();
    assert_eq!(stacks, vec![(1, "pole_2", 0, 1), (2, "fish_pond_1", 0, 5), (3, "lure_2", 0, 1)]);
}

#[test]
fn reward_of_no_units_grants_no_stack() {
    let mut w = seeded_world();
    assert_eq!(
        grant_quest_rewards(
            &mut w,
            "p",
            "{\"items\": [{\"item_id\": \"lure_1\", \"quantity\": 0}, {\"item_id\": \"lure_2\", \"quantity\": 2}]}",
            NOW,
        ),
        Ok(())
    );
    let stacks: Vec<(u64, &str, u32)> =
        w.inventory.iter().map(|s| (s.id, s.item_id.as_str(), s.quantity)).collect();
    assert_eq!(stacks, vec![(1, "lure_2", 2)]);
    assert_eq!(w.next_inventory_id, 2);
    assert_eq!(w.players[0].gold, 0);
}

#[test]
fn rewards_take_an_account() {
    let mut w = seeded_world();
    let before = w.clone();
    assert_eq!(
        grant_quest_rewards(&mut w, "nobody", "{\"gold\": 100, \"items\": [{\"item_id\": \"lure_1\"}]}", NOW),
        Err(Rejection::PlayerNotFound)
    );
    assert_eq!(w, before);
}

#[test]
fn completing_takes_an_account() {
    let mut w = seeded_world();
    assert_eq!(accept_quest(&mut w, "ghost", "guild_1", NOW), Ok(1));
    w.player_quests[0].progress = "{\"total\":2}".to_string();
    let before = w.clone();
    assert_eq!(complete_quest(&mut w, "ghost", "guild_1", NOW + 1), Err(Rejection::PlayerNotFound));
    assert_eq!(complete_quest(&mut w, "ghost", "guild_2", NOW + 1), Err(Rejection::PlayerNotFound));
    assert_eq!(w, before);
}

#[test]
fn quest_board_counts() {
    let mut w = seeded_world();
    assert_eq!(get_available_quests(&w, "p"), QuestCounts { available: 3, active: 0, completed: 0 });
    assert_eq!(accept_quest(&mut w, "p", "guild_1", NOW), Ok(1));
    assert_eq!(accept_quest(&mut w, "p", "daily_haul", NOW), Ok(2));
    assert_eq!(get_available_quests(&w, "p"), QuestCounts { available: 1, active: 2, completed: 0 });
    catch(&mut w, "fish_pond_1", 1);
    catch(&mut w, "fish_pond_1", 1);
    assert_eq!(complete_quest(&mut w, "p", "guild_1", NOW), Ok(()));
    assert_eq!(get_available_quests(&w, "p"), QuestCounts { available: 2, active: 1, completed: 1 });
    assert_eq!(get_available_quests(&w, "q"), QuestCounts { available: 3, active: 0, completed: 0 });
}

#[test]
fn every_catch_raises_the_counts() {
    let mut w = seeded_world();
    assert_eq!(accept_quest(&mut w, "p", "guild_1", NOW + 1), Ok(1));
    update_quest_progress_for_fish(&mut w, "p", "fish_pond_1", 3);
    assert_eq!(w.player_quests[0].progress, "{\"fish_pond_1\":1,\"total\":1,\"max_rarity\":3}");
    update_quest_progress_for_fish(&mut w, "p", "fish_river_1", 1);
    assert_eq!(
        w.player_quests[0].progress,
        "{\"fish_pond_1\":1,\"total\":2,\"max_rarity\":3,\"fish_river_1\":1}"
    );
    update_quest_progress_for_fish(&mut w, "p", "fish_pond_1", 2);
    let progress = w.player_quests[0].progress.clone();
    assert_eq!(progress, "{\"fish_pond_1\":2,\"total\":3,\"max_rarity\":3,\"fish_river_1\":1}");
    assert_eq!(get_progress_count(&progress, "fish_pond_1"), 2);
    assert_eq!(get_progress_count(&progress, "fish_river_1"), 1);
    assert_eq!(get_progress_count(&progress, "total"), 3);
    assert_eq!(get_progress_count(&progress, "max_rarity"), 3);
    assert_eq!(get_progress_count(&progress, "fish_ocean_1"), 0);
}

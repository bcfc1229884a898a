use lurelands_server::admin::{
    admin_create_item, admin_create_quest, admin_create_storyline, admin_delete_item,
    admin_delete_quest, admin_delete_storyline, admin_reset_quest_progress, admin_update_item,
    admin_update_quest, admin_update_storyline,
};
use lurelands_server::npcs::{
    admin_create_npc, admin_delete_npc, admin_update_npc, record_npc_interaction,
};
use lurelands_server::quests::accept_quest;
use lurelands_server::seeds::{admin_seed_items, admin_seed_quests, default_items, default_quests, seed_item};
use lurelands_server::store::{ItemDefinition, Npc, Quest, Rejection, Storyline, World};

const NOW: i64 = 1_700_000_000_000_000;

fn quest(id: &str, title: &str) -> Quest {
    Quest {
        id: id.to_string(),
        title: title.to_string(),
        description: String::new(),
        quest_type: "daily".to_string(),
        storyline: None,
        story_order: None,
        prerequisite_quest_id: None,
        requirements: "{}".to_string(),
        rewards: "{}".to_string(),
        quest_giver_type: None,
        quest_giver_id: None,
    }
}

fn npc(id: &str, name: &str) -> Npc {
    Npc {
        id: id.to_string(),
        name: name.to_string(),
        title: None,
        description: None,
        sprite_id: None,
        can_give_quests: true,
        can_trade: false,
        is_active: true,
    }
}

#[test]
fn stock_quests_are_seeded_once() {
    let mut w = World::new();
    assert_eq!(admin_create_quest(&mut w, quest("guild_2", "Mine")), Ok(()));
    let seeded = admin_seed_quests(&mut w);
    assert_eq!((seeded.added, seeded.skipped), (5, 1));
    let ids: Vec<&str> = w.quests.iter().map(|q| q.id.as_str()).collect();
    assert_eq!(ids, vec!["guild_2", "guild_1", "guild_3", "ocean_1", "ocean_2", "daily_haul"]);
    assert_eq!(w.quests[0].title, "Mine");
    let seeded = admin_seed_quests(&mut w);
    assert_eq!((seeded.added, seeded.skipped), (0, 6));
    assert_eq!(w.quests.len(), 6);
    let stock = default_quests();
    assert_eq!(stock[0].requirements, "{\"total_fish\": 2}");
    assert_eq!(stock[0].rewards, "{\"gold\": 50}");
    assert_eq!(stock[1].prerequisite_quest_id.as_deref(), Some("guild_1"));
    assert_eq!(stock[5].quest_type, "daily");
}

#[test]
fn stock_items_are_seeded_once() {
    let mut w = World::new();
    admin_seed_items(&mut w);
    assert_eq!(w.items.len(), 24);
    assert_eq!(w.items, default_items());
    let marlin = w.items.iter().find(|i| i.id == "fish_ocean_3").unwrap();
    assert_eq!((marlin.name.as_str(), marlin.tier, marlin.buy_price, marlin.sell_price, marlin.stack_size), ("Ocean Marlin", 3, 0, 80, 5));
    assert_eq!(marlin.sprite_id, "fish_ocean_3");
    assert_eq!(marlin.water_type.as_deref(), Some("ocean"));
    assert_eq!(marlin.rarity_multipliers.as_deref(), Some("{\"2\": 2.0, \"3\": 4.0}"));
    let lure = w.items.iter().find(|i| i.id == "lure_4").unwrap();
    assert_eq!((lure.buy_price, lure.sell_price, lure.stack_size), (500, 250, 99));
    assert_eq!(lure.rarity_multipliers, None);
    w.items[0].name = "Changed".to_string();
    admin_seed_items(&mut w);
    assert_eq!(w.items.len(), 24);
    assert_eq!(w.items[0].name, "Changed");
    assert!(!seed_item(&mut w, default_items().remove(3)));
}

#[test]
fn quests_are_created_changed_and_removed() {
    let mut w = World::new();
    assert_eq!(admin_create_quest(&mut w, quest("a", "A")), Ok(()));
    assert_eq!(admin_create_quest(&mut w, quest("b", "B")), Ok(()));
    assert_eq!(admin_create_quest(&mut w, quest("a", "Again")), Err(Rejection::AlreadyExists));
    assert_eq!(admin_update_quest(&mut w, quest("b", "Better")), Ok(()));
    assert_eq!(admin_update_quest(&mut w, quest("c", "C")), Err(Rejection::NotFound));
    assert_eq!(w.quests.iter().map(|q| q.title.as_str()).collect::<Vec<_>>(), vec!["A", "Better"]);
    assert_eq!(accept_quest(&mut w, "p", "a", NOW), Ok(1));
    assert_eq!(accept_quest(&mut w, "q", "a", NOW), Ok(2));
    assert_eq!(accept_quest(&mut w, "p", "b", NOW), Ok(3));
    assert_eq!(admin_delete_quest(&mut w, "a"), Ok(()));
    assert_eq!(admin_delete_quest(&mut w, "a"), Err(Rejection::NotFound));
    assert_eq!(w.quests.len(), 1);
    assert_eq!(w.player_quests.iter().map(|r| r.id).collect::<Vec<_>>(), vec![3]);
    assert_eq!(admin_reset_quest_progress(&mut w, "b"), 1);
    assert_eq!(admin_reset_quest_progress(&mut w, "b"), 0);
    assert!(w.player_quests.is_empty());
}

#[test]
fn items_and_storylines_are_created_changed_and_removed() {
    let mut w = World::new();
    let mut item: ItemDefinition = default_items().remove(0);
    assert_eq!(admin_create_item(&mut w, item.clone()), Ok(()));
    assert_eq!(admin_create_item(&mut w, item.clone()), Err(Rejection::AlreadyExists));
    item.sell_price = 11;
    assert_eq!(admin_update_item(&mut w, item.clone()), Ok(()));
    assert_eq!(w.items[0].sell_price, 11);
    item.id = "other".to_string();
    assert_eq!(admin_update_item(&mut w, item), Err(Rejection::NotFound));
    assert_eq!(admin_delete_item(&mut w, "other"), Err(Rejection::NotFound));
    assert_eq!(admin_delete_item(&mut w, "fish_pond_1"), Ok(()));
    assert!(w.items.is_empty());

    let mut line = Storyline {
        id: "fishermans_guild".to_string(),
        name: "Guild".to_string(),
        description: String::new(),
        icon: None,
        category: "main".to_string(),
        display_order: 1,
        unlock_conditions: None,
        is_active: true,
        total_quests: 3,
    };
    assert_eq!(admin_create_storyline(&mut w, line.clone()), Ok(()));
    assert_eq!(admin_create_storyline(&mut w, line.clone()), Err(Rejection::AlreadyExists));
    line.total_quests = 4;
    assert_eq!(admin_update_storyline(&mut w, line.clone()), Ok(()));
    assert_eq!(w.storylines[0].total_quests, 4);
    assert_eq!(admin_delete_storyline(&mut w, "nope"), Err(Rejection::NotFound));
    assert_eq!(admin_delete_storyline(&mut w, "fishermans_guild"), Ok(()));
    assert_eq!(admin_update_storyline(&mut w, line), Err(Rejection::NotFound));
}

#[test]
fn meetings_with_characters_are_counted() {
    let mut w = World::new();
    assert_eq!(record_npc_interaction(&mut w, "p", "guild_master", "talked", NOW), Err(Rejection::NotFound));
    assert_eq!(admin_create_npc(&mut w, npc("guild_master", "Gus")), Ok(()));
    assert_eq!(admin_create_npc(&mut w, npc("guild_master", "Gus")), Err(Rejection::AlreadyExists));
    assert_eq!(admin_create_npc(&mut w, npc("dock_worker", "Dee")), Ok(()));
    assert_eq!(record_npc_interaction(&mut w, "p", "guild_master", "talked", NOW), Ok(()));
    assert_eq!(record_npc_interaction(&mut w, "p", "guild_master", "talked", NOW + 1), Ok(()));
    assert_eq!(record_npc_interaction(&mut w, "p", "guild_master", "traded", NOW + 2), Ok(()));
    assert_eq!(record_npc_interaction(&mut w, "p", "guild_master", "waved", NOW + 3), Ok(()));
    assert_eq!(record_npc_interaction(&mut w, "p", "dock_worker", "traded", NOW + 4), Ok(()));
    assert_eq!(record_npc_interaction(&mut w, "q", "dock_worker", "waved", NOW + 5), Ok(()));
    let rows: Vec<_> = w
        .npc_interactions
        .iter()
        .map(|r| (r.id, r.player_id.as_str(), r.npc_id.as_str(), r.has_talked, r.has_traded, r.talk_count, r.first_interaction_at, r.last_interaction_at))
        .collect();
    assert_eq!(
        rows,
        vec![
            (1, "p", "guild_master", true, true, 2, NOW, NOW + 3),
            (2, "p", "dock_worker", false, true, 0, NOW + 4, NOW + 4),
            (3, "q", "dock_worker", false, false, 0, NOW + 5, NOW + 5),
        ]
    );
    assert_eq!(admin_update_npc(&mut w, npc("dock_worker", "Dora")), Ok(()));
    assert_eq!(w.npcs[1].name, "Dora");
    assert_eq!(admin_update_npc(&mut w, npc("nobody", "No")), Err(Rejection::NotFound));
    assert_eq!(admin_delete_npc(&mut w, "dock_worker"), Ok(()));
    assert_eq!(admin_delete_npc(&mut w, "dock_worker"), Err(Rejection::NotFound));
    assert_eq!(w.npcs.len(), 1);
    assert_eq!(w.npc_interactions.iter().map(|r| r.id).collect::<Vec<_>>(), vec![1]);
}

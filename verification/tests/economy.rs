use lurelands_server::economy::{
    add_gold, add_to_inventory, buy_item, equip_pole, sell_item, set_gold, spend_gold,
    total_owned, unequip_pole,
};
use lurelands_server::players::{join_world, Arrival};
use lurelands_server::store::{Rejection, World};

const NOW: i64 = 1_700_000_000_000_000;

fn world_with(player: &str, gold: u32) -> World {
    let mut w = World::new();
    assert_eq!(
        join_world(&mut w, player, "Ann", 0xFF00FF00, 0, NOW),
        Arrival::Spawned { spawn_point: None }
    );
    if gold > 0 {
        assert_eq!(add_gold(&mut w, player, gold, NOW), Ok(()));
    }
    w
}

#[test]
fn selling_more_than_owned_is_turned_down() {
    let mut w = world_with("p", 0);
    add_to_inventory(&mut w, "p", "fish_pond_1", 1, 3);
    let before = w.clone();
    assert_eq!(sell_item(&mut w, "p", "fish_pond_1", 1, 5, NOW + 1), Err(Rejection::InsufficientQuantity));
    assert_eq!(w, before);
    assert_eq!(sell_item(&mut w, "p", "fish_pond_1", 1, 3, NOW + 2), Ok(30));
    assert_eq!(total_owned(&w, "p", "fish_pond_1", 1), 0);
    assert_eq!(w.players[0].gold, 30);
    assert_eq!(w.players[0].last_updated, NOW + 2);
    assert_eq!(w.stats[0].total_gold_earned, 30);
}

#[test]
fn sale_is_recorded_in_the_running_session() {
    let mut w = world_with("p", 0);
    add_to_inventory(&mut w, "p", "fish_ocean_3", 3, 2);
    let events = w.events.len();
    assert_eq!(sell_item(&mut w, "p", "fish_ocean_3", 3, 2, NOW + 5), Ok(640));
    assert_eq!(w.events.len(), events + 1);
    let e = w.events.last().unwrap();
    assert_eq!(e.event_type, "item_sold");
    assert_eq!(e.player_id, "p");
    assert_eq!(e.session_id, Some(w.sessions[0].id));
    assert_eq!(e.item_id.as_deref(), Some("fish_ocean_3"));
    assert_eq!(e.quantity, Some(2));
    assert_eq!(e.gold_amount, Some(640));
    assert_eq!(e.rarity, Some(3));
    assert_eq!(e.water_body_id, None);
    assert_eq!(e.metadata, None);
    assert_eq!(e.created_at, NOW + 5);
    assert_eq!(e.id + 1, w.next_event_id);
}

#[test]
fn selling_nothing_is_turned_down() {
    let mut w = world_with("p", 0);
    add_to_inventory(&mut w, "p", "fish_pond_1", 1, 3);
    let before = w.clone();
    assert_eq!(sell_item(&mut w, "p", "fish_pond_1", 1, 0, NOW), Err(Rejection::ZeroQuantity));
    assert_eq!(w, before);
}

#[test]
fn equipped_pole_cannot_be_sold() {
    let mut w = world_with("p", 0);
    add_to_inventory(&mut w, "p", "pole_2", 0, 1);
    add_to_inventory(&mut w, "p", "pole_3", 0, 1);
    assert_eq!(equip_pole(&mut w, "p", "pole_2", NOW), Ok(()));
    let before = w.clone();
    assert_eq!(sell_item(&mut w, "p", "pole_2", 0, 1, NOW), Err(Rejection::PoleEquipped));
    assert_eq!(w, before);
    assert_eq!(sell_item(&mut w, "p", "pole_3", 0, 1, NOW), Ok(500));
    assert_eq!(unequip_pole(&mut w, "p", NOW), Ok(()));
    assert_eq!(sell_item(&mut w, "p", "pole_2", 0, 1, NOW), Ok(200));
    assert_eq!(w.players[0].gold, 700);
}

#[test]
fn seller_without_account_keeps_the_items() {
    let mut w = World::new();
    add_to_inventory(&mut w, "ghost", "fish_pond_1", 1, 2);
    let before = w.clone();
    assert_eq!(sell_item(&mut w, "ghost", "fish_pond_1", 1, 2, NOW), Err(Rejection::PlayerNotFound));
    assert_eq!(sell_item(&mut w, "ghost", "fish_pond_1", 1, 9, NOW), Err(Rejection::PlayerNotFound));
    assert_eq!(sell_item(&mut w, "ghost", "fish_pond_1", 1, 0, NOW), Err(Rejection::ZeroQuantity));
    assert_eq!(w, before);
    assert_eq!(total_owned(&w, "ghost", "fish_pond_1", 1), 2);
    assert!(w.events.is_empty());
}

#[test]
fn buying_without_the_gold_is_turned_down() {
    let mut w = world_with("p", 100);
    let before = w.clone();
    assert_eq!(buy_item(&mut w, "p", "pole_2", NOW + 1), Err(Rejection::InsufficientGold));
    assert_eq!(w, before);
    assert_eq!(w.players[0].gold, 100);
    assert!(w.inventory.is_empty());
}

#[test]
fn buying_pays_the_price_and_adds_one_unit() {
    let mut w = world_with("p", 250);
    assert_eq!(buy_item(&mut w, "p", "pole_2", NOW + 1), Ok(200));
    assert_eq!(w.players[0].gold, 50);
    assert_eq!(w.stats[0].total_gold_spent, 200);
    assert_eq!(total_owned(&w, "p", "pole_2", 0), 1);
    let e = w.events.last().unwrap();
    assert_eq!(e.event_type, "item_bought");
    assert_eq!(e.item_id.as_deref(), Some("pole_2"));
    assert_eq!(e.quantity, Some(1));
    assert_eq!(e.gold_amount, Some(200));
    assert_eq!(e.rarity, Some(0));
    assert_eq!(buy_item(&mut w, "p", "lure_1", NOW + 2), Ok(20));
    assert_eq!(buy_item(&mut w, "p", "lure_1", NOW + 3), Ok(20));
    assert_eq!(w.players[0].gold, 10);
    assert_eq!(w.inventory.iter().filter(|s| s.item_id == "lure_1").map(|s| s.quantity).collect::<Vec<_>>(), vec![2]);
}

#[test]
fn starter_pole_is_free_and_fish_are_not_for_sale() {
    let mut w = world_with("p", 0);
    assert_eq!(buy_item(&mut w, "p", "pole_1", NOW), Ok(0));
    assert_eq!(total_owned(&w, "p", "pole_1", 0), 1);
    let before = w.clone();
    assert_eq!(buy_item(&mut w, "p", "fish_pond_1", NOW), Err(Rejection::NotPurchasable));
    assert_eq!(buy_item(&mut w, "p", "pole_9", NOW), Err(Rejection::NotPurchasable));
    assert_eq!(buy_item(&mut w, "nobody", "pole_1", NOW), Err(Rejection::PlayerNotFound));
    assert_eq!(buy_item(&mut w, "nobody", "boot", NOW), Err(Rejection::NotPurchasable));
    assert_eq!(w, before);
}

#[test]
fn equipping_takes_owning() {
    let mut w = world_with("p", 0);
    let before = w.clone();
    assert_eq!(equip_pole(&mut w, "p", "pole_2", NOW), Err(Rejection::NotOwned));
    assert_eq!(w, before);
    w.inventory.push(lurelands_server::store::Inventory {
        id: 1,
        player_id: "p".to_string(),
        item_id: "pole_2".to_string(),
        rarity: 0,
        quantity: 0,
    });
    w.next_inventory_id = 2;
    assert_eq!(equip_pole(&mut w, "p", "pole_2", NOW), Err(Rejection::NotOwned));
    add_to_inventory(&mut w, "p", "pole_2", 2, 1);
    add_to_inventory(&mut w, "ghost", "pole_2", 0, 1);
    assert_eq!(equip_pole(&mut w, "ghost", "pole_2", NOW), Err(Rejection::PlayerNotFound));
    assert_eq!(equip_pole(&mut w, "p", "pole_2", NOW + 9), Ok(()));
    assert_eq!(w.players[0].equipped_pole_id.as_deref(), Some("pole_2"));
    assert_eq!(w.players[0].last_updated, NOW + 9);
    assert_eq!(w.events.last().unwrap().event_type, "pole_equipped");
    assert_eq!(w.events.last().unwrap().item_id.as_deref(), Some("pole_2"));
}

#[test]
fn unequipping_is_recorded_only_if_a_pole_was_equipped() {
    let mut w = world_with("p", 0);
    let events = w.events.len();
    assert_eq!(unequip_pole(&mut w, "p", NOW + 1), Ok(()));
    assert_eq!(w.events.len(), events);
    assert_eq!(w.players[0].last_updated, NOW + 1);
    add_to_inventory(&mut w, "p", "pole_1", 0, 1);
    assert_eq!(equip_pole(&mut w, "p", "pole_1", NOW + 2), Ok(()));
    assert_eq!(unequip_pole(&mut w, "p", NOW + 3), Ok(()));
    assert_eq!(w.players[0].equipped_pole_id, None);
    assert_eq!(w.events.last().unwrap().event_type, "pole_unequipped");
    assert_eq!(w.events.last().unwrap().item_id.as_deref(), Some("pole_1"));
    assert_eq!(total_owned(&w, "p", "pole_1", 0), 1);
    assert_eq!(unequip_pole(&mut w, "nobody", NOW), Err(Rejection::PlayerNotFound));
}

#[test]
fn gold_is_added_spent_and_set() {
    let mut w = world_with("p", 0);
    assert_eq!(add_gold(&mut w, "p", 70, NOW + 1), Ok(()));
    assert_eq!(w.players[0].gold, 70);
    assert_eq!(w.stats[0].total_gold_earned, 70);
    assert_eq!(spend_gold(&mut w, "p", 71, NOW + 2), Err(Rejection::InsufficientGold));
    assert_eq!(w.players[0].gold, 70);
    assert_eq!(spend_gold(&mut w, "p", 70, NOW + 3), Ok(()));
    assert_eq!(w.players[0].gold, 0);
    assert_eq!(w.stats[0].total_gold_spent, 70);
    assert_eq!(set_gold(&mut w, "p", 5, NOW + 4), Ok(()));
    assert_eq!(w.players[0].gold, 5);
    assert_eq!(w.players[0].last_updated, NOW + 4);
    assert_eq!(w.stats[0].total_gold_earned, 70);
    let before = w.clone();
    assert_eq!(add_gold(&mut w, "nobody", 1, NOW), Err(Rejection::PlayerNotFound));
    assert_eq!(spend_gold(&mut w, "nobody", 1, NOW), Err(Rejection::PlayerNotFound));
    assert_eq!(set_gold(&mut w, "nobody", 1, NOW), Err(Rejection::PlayerNotFound));
    assert_eq!(w, before);
}

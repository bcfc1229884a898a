use lurelands_server::economy::{
    add_to_inventory, get_player_inventory, remove_from_inventory, total_owned,
};
use lurelands_server::items::get_max_stack_size;
use lurelands_server::store::{Inventory, Rejection, World};

fn quantities(w: &World, player: &str, item: &str, rarity: u8) -> Vec<u32> {
    w.inventory
        .iter()
        .filter(|s| s.player_id == player && s.item_id == item && s.rarity == rarity)
        .map(|s| s.quantity)
        .collect()
}

fn assert_valid(w: &World) {
    for stack in &w.inventory {
        assert!(stack.quantity >= 1, "{:?}", stack);
        assert!(stack.quantity <= get_max_stack_size(&stack.item_id), "{:?}", stack);
    }
}

#[test]
fn seven_fish_make_a_full_stack_and_a_stack_of_two() {
    let mut w = World::new();
    add_to_inventory(&mut w, "p", "fish_pond_1", 1, 7);
    assert_eq!(quantities(&w, "p", "fish_pond_1", 1), vec![5, 2]);
    assert_eq!(total_owned(&w, "p", "fish_pond_1", 1), 7);
    assert_eq!(w.inventory[0].id, 1);
    assert_eq!(w.inventory[1].id, 2);
    assert_eq!(w.next_inventory_id, 3);
    assert_eq!(remove_from_inventory(&mut w, "p", "fish_pond_1", 1, 7), Ok(()));
    assert_eq!(total_owned(&w, "p", "fish_pond_1", 1), 0);
    assert!(w.inventory.is_empty());
    assert_eq!(w.next_inventory_id, 3);
}

#[test]
fn adding_tops_up_before_it_opens_stacks() {
    let mut w = World::new();
    add_to_inventory(&mut w, "p", "fish_pond_1", 1, 3);
    add_to_inventory(&mut w, "p", "fish_pond_1", 1, 4);
    assert_eq!(quantities(&w, "p", "fish_pond_1", 1), vec![5, 2]);
    add_to_inventory(&mut w, "p", "fish_pond_1", 1, 9);
    assert_eq!(quantities(&w, "p", "fish_pond_1", 1), vec![5, 5, 5, 1]);
    assert_valid(&w);
}

#[test]
fn fragmented_stacks_are_topped_up_in_order() {
    let mut w = World::new();
    for (id, quantity) in [(1u64, 4u32), (2, 5), (3, 2)] {
        w.inventory.push(Inventory {
            id,
            player_id: "p".to_string(),
            item_id: "fish_pond_1".to_string(),
            rarity: 1,
            quantity,
        });
    }
    w.next_inventory_id = 4;
    add_to_inventory(&mut w, "p", "fish_pond_1", 1, 3);
    assert_eq!(quantities(&w, "p", "fish_pond_1", 1), vec![5, 5, 4]);
    add_to_inventory(&mut w, "p", "fish_pond_1", 1, 2);
    assert_eq!(quantities(&w, "p", "fish_pond_1", 1), vec![5, 5, 5, 1]);
}

#[test]
fn stacks_are_kept_apart_by_owner_item_and_rarity() {
    let mut w = World::new();
    add_to_inventory(&mut w, "p", "fish_pond_1", 1, 2);
    add_to_inventory(&mut w, "p", "fish_pond_1", 2, 2);
    add_to_inventory(&mut w, "q", "fish_pond_1", 1, 2);
    add_to_inventory(&mut w, "p", "fish_pond_2", 1, 2);
    assert_eq!(w.inventory.len(), 4);
    assert_eq!(total_owned(&w, "p", "fish_pond_1", 1), 2);
    assert_eq!(total_owned(&w, "p", "fish_pond_1", 3), 0);
    assert_eq!(get_player_inventory(&w, "p"), 3);
    assert_eq!(get_player_inventory(&w, "q"), 1);
    assert_eq!(get_player_inventory(&w, "r"), 0);
}

#[test]
fn poles_do_not_stack_and_lures_stack_freely() {
    let mut w = World::new();
    add_to_inventory(&mut w, "p", "pole_2", 0, 3);
    assert_eq!(quantities(&w, "p", "pole_2", 0), vec![1, 1, 1]);
    add_to_inventory(&mut w, "p", "lure_1", 0, 1000);
    add_to_inventory(&mut w, "p", "lure_1", 0, 500);
    assert_eq!(quantities(&w, "p", "lure_1", 0), vec![1500]);
    assert_valid(&w);
}

#[test]
fn adding_nothing_changes_nothing() {
    let mut w = World::new();
    add_to_inventory(&mut w, "p", "fish_pond_1", 1, 0);
    assert_eq!(w, World::new());
}

#[test]
fn removing_more_than_owned_is_turned_down_whole() {
    let mut w = World::new();
    add_to_inventory(&mut w, "p", "fish_pond_1", 1, 7);
    let before = w.clone();
    assert_eq!(
        remove_from_inventory(&mut w, "p", "fish_pond_1", 1, 8),
        Err(Rejection::InsufficientQuantity)
    );
    assert_eq!(w, before);
    assert_eq!(total_owned(&w, "p", "fish_pond_1", 1), 7);
    assert_eq!(
        remove_from_inventory(&mut w, "p", "fish_pond_1", 2, 1),
        Err(Rejection::InsufficientQuantity)
    );
    assert_eq!(
        remove_from_inventory(&mut w, "nobody", "fish_pond_1", 1, 1),
        Err(Rejection::InsufficientQuantity)
    );
    assert_eq!(w, before);
}

#[test]
fn removing_nothing_succeeds() {
    let mut w = World::new();
    assert_eq!(remove_from_inventory(&mut w, "p", "fish_pond_1", 1, 0), Ok(()));
    add_to_inventory(&mut w, "p", "fish_pond_1", 1, 2);
    let before = w.clone();
    assert_eq!(remove_from_inventory(&mut w, "p", "fish_pond_1", 1, 0), Ok(()));
    assert_eq!(w, before);
}

#[test]
fn removing_takes_from_stacks_in_order() {
    let mut w = World::new();
    add_to_inventory(&mut w, "p", "fish_pond_1", 1, 12);
    add_to_inventory(&mut w, "q", "fish_pond_1", 1, 1);
    assert_eq!(remove_from_inventory(&mut w, "p", "fish_pond_1", 1, 6), Ok(()));
    assert_eq!(quantities(&w, "p", "fish_pond_1", 1), vec![4, 2]);
    assert_eq!(total_owned(&w, "q", "fish_pond_1", 1), 1);
    assert_eq!(remove_from_inventory(&mut w, "p", "fish_pond_1", 1, 4), Ok(()));
    assert_eq!(quantities(&w, "p", "fish_pond_1", 1), vec![2]);
    assert_eq!(remove_from_inventory(&mut w, "p", "fish_pond_1", 1, 1), Ok(()));
    assert_eq!(quantities(&w, "p", "fish_pond_1", 1), vec![1]);
    assert_valid(&w);
}

#[test]
fn every_stack_stays_within_capacity() {
    let mut w = World::new();
    let items = ["fish_pond_1", "pole_2", "lure_3", "fish_night_4"];
    let mut seed: u32 = 12345;
    for _ in 0..400 {
        seed = seed.wrapping_mul(1_103_515_245).wrapping_add(12_345);
        let item = items[(seed >> 16) as usize % items.len()];
        let rarity = ((seed >> 8) % 3) as u8;
        let quantity = (seed >> 20) % 9;
        if seed % 2 == 0 {
            let owned = total_owned(&w, "p", item, rarity);
            add_to_inventory(&mut w, "p", item, rarity, quantity);
            assert_eq!(total_owned(&w, "p", item, rarity), owned + quantity as u128);
        } else {
            let owned = total_owned(&w, "p", item, rarity);
            let result = remove_from_inventory(&mut w, "p", item, rarity, quantity);
            if owned >= quantity as u128 {
                assert_eq!(result, Ok(()));
                assert_eq!(total_owned(&w, "p", item, rarity), owned - quantity as u128);
            } else {
                assert_eq!(result, Err(Rejection::InsufficientQuantity));
                assert_eq!(total_owned(&w, "p", item, rarity), owned);
            }
        }
        assert_valid(&w);
    }
}

use lurelands_server::items::{
    calculate_fish_xp, calculate_sell_price, get_item_base_sell_price, get_item_buy_price,
    get_max_stack_size, is_fish_item, is_pole_item, item_tier_of,
};
use lurelands_server::leveling::{calculate_xp_for_level, gain_experience, quest_completion_xp};

#[test]
fn sell_price_of_a_three_star_ocean_marlin() {
    assert_eq!(calculate_sell_price("fish_ocean_3", 3), 320);
    assert_eq!(calculate_sell_price("fish_ocean_3", 1), 80);
}

#[test]
fn sell_price_multiplier_by_rarity() {
    assert_eq!(calculate_sell_price("fish_pond_1", 0), 10);
    assert_eq!(calculate_sell_price("fish_pond_1", 1), 10);
    assert_eq!(calculate_sell_price("fish_pond_1", 2), 20);
    assert_eq!(calculate_sell_price("fish_pond_1", 3), 40);
    assert_eq!(calculate_sell_price("fish_pond_1", 4), 10);
    assert_eq!(calculate_sell_price("fish_pond_1", 255), 10);
    assert_eq!(calculate_sell_price("pole_4", 3), 6000);
}

#[test]
fn base_sell_price_table() {
    let table = [
        ("fish_pond_1", 10), ("fish_pond_2", 25), ("fish_pond_3", 50), ("fish_pond_4", 150),
        ("fish_river_1", 12), ("fish_river_2", 30), ("fish_river_3", 60), ("fish_river_4", 180),
        ("fish_ocean_1", 15), ("fish_ocean_2", 40), ("fish_ocean_3", 80), ("fish_ocean_4", 250),
        ("fish_night_1", 20), ("fish_night_2", 45), ("fish_night_3", 90), ("fish_night_4", 300),
        ("pole_1", 0), ("pole_2", 200), ("pole_3", 500), ("pole_4", 1500),
        ("lure_1", 10), ("lure_2", 30), ("lure_3", 80), ("lure_4", 250),
    ];
    for (id, price) in table {
        assert_eq!(get_item_base_sell_price(id), price, "{}", id);
    }
}

#[test]
fn unknown_item_sells_for_five() {
    assert_eq!(get_item_base_sell_price("boot"), 5);
    assert_eq!(get_item_base_sell_price(""), 5);
    assert_eq!(get_item_base_sell_price("fish_pond_5"), 5);
    assert_eq!(get_item_base_sell_price("Fish_pond_1"), 5);
}

#[test]
fn buy_price_table() {
    let table = [
        ("pole_1", 0), ("pole_2", 200), ("pole_3", 500), ("pole_4", 1500),
        ("lure_1", 20), ("lure_2", 60), ("lure_3", 160), ("lure_4", 500),
        ("fish_pond_1", 0), ("boot", 0),
    ];
    for (id, price) in table {
        assert_eq!(get_item_buy_price(id), price, "{}", id);
    }
}

#[test]
fn items_are_told_apart_by_prefix() {
    assert!(is_pole_item("pole_1"));
    assert!(is_pole_item("pole_"));
    assert!(!is_pole_item("pole"));
    assert!(!is_pole_item("a_pole_1"));
    assert!(is_fish_item("fish_ocean_2"));
    assert!(!is_fish_item("fishy"));
    assert!(!is_fish_item(""));
}

#[test]
fn capacity_by_kind() {
    assert_eq!(get_max_stack_size("pole_2"), 1);
    assert_eq!(get_max_stack_size("fish_pond_1"), 5);
    assert_eq!(get_max_stack_size("lure_1"), u32::MAX);
    assert_eq!(get_max_stack_size(""), u32::MAX);
}

#[test]
fn tier_is_the_trailing_number() {
    assert_eq!(item_tier_of("fish_pond_2"), 2);
    assert_eq!(item_tier_of("fish_pond_04"), 4);
    assert_eq!(item_tier_of("fish_+3"), 3);
    assert_eq!(item_tier_of("17"), 17);
    assert_eq!(item_tier_of("fish_pond"), 1);
    assert_eq!(item_tier_of("fish_pond_"), 1);
    assert_eq!(item_tier_of("fish_-2"), 1);
    assert_eq!(item_tier_of("fish_2a"), 1);
    assert_eq!(item_tier_of(""), 1);
    assert_eq!(item_tier_of("fish_18446744073709551615"), u64::MAX);
    assert_eq!(item_tier_of("fish_18446744073709551616"), 1);
}

#[test]
fn fish_xp_formula() {
    assert_eq!(calculate_fish_xp("fish_pond_1", 1), 20);
    assert_eq!(calculate_fish_xp("fish_pond_1", 0), 20);
    assert_eq!(calculate_fish_xp("fish_pond_2", 3), 40);
    assert_eq!(calculate_fish_xp("fish_night_4", 2), 55);
    assert_eq!(calculate_fish_xp("boot", 1), 20);
    assert_eq!(calculate_fish_xp("fish_pond_0", 1), 10);
}

#[test]
fn xp_thresholds() {
    assert_eq!(calculate_xp_for_level(0), 0);
    assert_eq!(calculate_xp_for_level(1), 0);
    assert_eq!(calculate_xp_for_level(2), 283);
    assert_eq!(calculate_xp_for_level(3), 520);
    assert_eq!(calculate_xp_for_level(4), 800);
    assert_eq!(calculate_xp_for_level(5), 1118);
    assert_eq!(calculate_xp_for_level(10), 3162);
    assert_eq!(calculate_xp_for_level(100), 100_000);
    assert_eq!(calculate_xp_for_level(10_000), 100_000_000);
}

#[test]
fn xp_thresholds_never_fall() {
    let mut previous = 0;
    for level in 0..2000u32 {
        let xp = calculate_xp_for_level(level);
        assert!(xp >= previous, "level {}", level);
        previous = xp;
    }
    assert!(calculate_xp_for_level(u32::MAX) >= calculate_xp_for_level(u32::MAX - 1));
}

#[test]
fn xp_threshold_is_the_nearest_integer() {
    for level in 2..500u128 {
        let r = calculate_xp_for_level(level as u32) as u128;
        let m = 10_000 * level * level * level;
        assert!(r * r - r < m && m <= r * r + r, "level {}", level);
    }
}

#[test]
fn quest_xp_by_type() {
    assert_eq!(quest_completion_xp(true), 150);
    assert_eq!(quest_completion_xp(false), 50);
}

#[test]
fn gaining_experience_resolves_levels() {
    assert_eq!(gain_experience(1, 0, 283, 100), (1, 100, 283));
    assert_eq!(gain_experience(1, 0, 283, 283), (2, 0, 520));
    assert_eq!(gain_experience(1, 200, 283, 700), (3, 97, 800));
    assert_eq!(gain_experience(0, 0, 0, 10), (1, 10, 283));
    assert_eq!(gain_experience(5, 7, 0, 10), (5, 17, 0));
}

//! Item rules: what kind an item id names, how many units one stack can hold,
//! what an item sells and buys for, and the experience a caught fish is worth.

use crate::text::{parse_unsigned, read_unsigned, same_chars, slice_of, to_chars};
use vstd::prelude::*;

verus! {

/// Largest stack of a fish.
pub const MAX_FISH_STACK_SIZE: u32 = 5;

/// Largest stack of a pole: poles do not stack.
pub const MAX_POLE_STACK_SIZE: u32 = 1;

/// Experience for any caught fish.
pub const XP_PER_FISH_BASE: u64 = 10;

/// Experience per tier of the caught fish.
pub const XP_PER_FISH_TIER: u64 = 10;

/// Experience per star of rarity above the first.
pub const XP_PER_RARITY_STAR: u64 = 5;

/// `s` begins with `prefix`.
pub open spec fn has_prefix(s: Seq<char>, prefix: Seq<char>) -> bool {
    s.len() >= prefix.len() && s.take(prefix.len() as int) == prefix
}

/// The id names a fishing pole.
pub open spec fn is_pole(item_id: Seq<char>) -> bool {
    has_prefix(item_id, "pole_"@)
}

/// The id names a fish.
pub open spec fn is_fish(item_id: Seq<char>) -> bool {
    has_prefix(item_id, "fish_"@)
}

/// The most units of an item that one stack can hold: 1 for a pole, 5 for a
/// fish, and no limit below the range of the quantity for anything else.
pub open spec fn capacity(item_id: Seq<char>) -> nat {
    if is_pole(item_id) {
        1
    } else if is_fish(item_id) {
        5
    } else {
        u32::MAX as nat
    }
}

/// The price that one unit of an item sells for before rarity counts.
pub open spec fn base_sell_price(item_id: Seq<char>) -> nat {
    if item_id == "fish_pond_1"@ {
        10
    } else if item_id == "fish_pond_2"@ {
        25
    } else if item_id == "fish_pond_3"@ {
        50
    } else if item_id == "fish_pond_4"@ {
        150
    } else if item_id == "fish_river_1"@ {
        12
    } else if item_id == "fish_river_2"@ {
        30
    } else if item_id == "fish_river_3"@ {
        60
    } else if item_id == "fish_river_4"@ {
        180
    } else if item_id == "fish_ocean_1"@ {
        15
    } else if item_id == "fish_ocean_2"@ {
        40
    } else if item_id == "fish_ocean_3"@ {
        80
    } else if item_id == "fish_ocean_4"@ {
        250
    } else if item_id == "fish_night_1"@ {
        20
    } else if item_id == "fish_night_2"@ {
        45
    } else if item_id == "fish_night_3"@ {
        90
    } else if item_id == "fish_night_4"@ {
        300
    } else if item_id == "pole_1"@ {
        0
    } else if item_id == "pole_2"@ {
        200
    } else if item_id == "pole_3"@ {
        500
    } else if item_id == "pole_4"@ {
        1500
    } else if item_id == "lure_1"@ {
        10
    } else if item_id == "lure_2"@ {
        30
    } else if item_id == "lure_3"@ {
        80
    } else if item_id == "lure_4"@ {
        250
    } else {
        5
    }
}

/// The price that the shop asks for an item; 0 for what it does not sell.
pub open spec fn buy_price(item_id: Seq<char>) -> nat {
    if item_id == "pole_1"@ {
        0
    } else if item_id == "pole_2"@ {
        200
    } else if item_id == "pole_3"@ {
        500
    } else if item_id == "pole_4"@ {
        1500
    } else if item_id == "lure_1"@ {
        20
    } else if item_id == "lure_2"@ {
        60
    } else if item_id == "lure_3"@ {
        160
    } else if item_id == "lure_4"@ {
        500
    } else {
        0
    }
}

/// The factor by which rarity raises the sell price: 2 for two stars, 4 for
/// three, and 1 for every other value.
pub open spec fn rarity_multiplier(rarity: u8) -> nat {
    if rarity == 2 {
        2
    } else if rarity == 3 {
        4
    } else {
        1
    }
}

/// The price that one unit of an item of the given rarity sells for.
pub open spec fn sell_price(item_id: Seq<char>, rarity: u8) -> nat {
    base_sell_price(item_id) * rarity_multiplier(rarity)
}

/// Where the last `_`-separated segment of `s` starts, looking back from `j`.
pub open spec fn segment_start(s: Seq<char>, j: int) -> int
    decreases j,
{
    if 0 < j <= s.len() && s[j - 1] != '_' {
        segment_start(s, j - 1)
    } else {
        j
    }
}

/// What follows the last `_` of `s`; all of `s` if it holds none.
pub open spec fn last_segment(s: Seq<char>) -> Seq<char> {
    s.skip(segment_start(s, s.len() as int))
}

/// The tier that an item id ends in, 1 where its last segment is no number.
pub open spec fn item_tier(item_id: Seq<char>) -> nat {
    match parse_unsigned(last_segment(item_id), u64::MAX as nat) {
        Some(t) => t,
        None => 1,
    }
}

/// The experience that catching a fish is worth.
pub open spec fn fish_xp(item_id: Seq<char>, rarity: u8) -> nat {
    let stars: nat = if rarity >= 1 {
        (rarity - 1) as nat
    } else {
        0
    };
    10 + 10 * item_tier(item_id) + 5 * stars
}

/// No item sells for more than 6000 a unit.
pub proof fn lemma_sell_price_bound(item_id: Seq<char>, rarity: u8)
    ensures
        base_sell_price(item_id) <= 1500,
        sell_price(item_id, rarity) <= 6000,
{
    assert(base_sell_price(item_id) * rarity_multiplier(rarity) <= 6000) by (nonlinear_arith)
        requires
            base_sell_price(item_id) <= 1500,
            rarity_multiplier(rarity) <= 4,
    ;
}

/// No stack can be empty or hold more than a `u32` counts.
pub proof fn lemma_capacity_bounds(item_id: Seq<char>)
    ensures
        1 <= capacity(item_id) <= u32::MAX,
{
}

fn starts_with(s: &Vec<char>, prefix: &str) -> (r: bool)
    ensures
        r == has_prefix(s@, prefix@),
{
    let p = to_chars(prefix);
    if s.len() < p.len() {
        return false;
    }
    let head = slice_of(s, 0, p.len());
    assert(s@.take(p.len() as int) =~= s@.subrange(0, p.len() as int));
    same_chars(&head, &p)
}

fn is_literal(s: &Vec<char>, literal: &str) -> (r: bool)
    ensures
        r == (s@ == literal@),
{
    let l = to_chars(literal);
    same_chars(s, &l)
}

/// Whether the id names a fishing pole.
pub fn is_pole_item(item_id: &str) -> (r: bool)
    ensures
        r == is_pole(item_id@),
{
    let id = to_chars(item_id);
    starts_with(&id, "pole_")
}

/// Whether the id names a fish.
pub fn is_fish_item(item_id: &str) -> (r: bool)
    ensures
        r == is_fish(item_id@),
{
    let id = to_chars(item_id);
    starts_with(&id, "fish_")
}

/// The most units of the item that one stack can hold.
pub fn get_max_stack_size(item_id: &str) -> (r: u32)
    ensures
        r == capacity(item_id@),
        r >= 1,
{
    if is_pole_item(item_id) {
        MAX_POLE_STACK_SIZE
    } else if is_fish_item(item_id) {
        MAX_FISH_STACK_SIZE
    } else {
        u32::MAX
    }
}

/// The price that one unit of the item sells for before rarity counts.
pub fn get_item_base_sell_price(item_id: &str) -> (r: u32)
    ensures
        r == base_sell_price(item_id@),
        r <= 1500,
{
    let id = to_chars(item_id);
    if is_literal(&id, "fish_pond_1") {
        10
    } else if is_literal(&id, "fish_pond_2") {
        25
    } else if is_literal(&id, "fish_pond_3") {
        50
    } else if is_literal(&id, "fish_pond_4") {
        150
    } else if is_literal(&id, "fish_river_1") {
        12
    } else if is_literal(&id, "fish_river_2") {
        30
    } else if is_literal(&id, "fish_river_3") {
        60
    } else if is_literal(&id, "fish_river_4") {
        180
    } else if is_literal(&id, "fish_ocean_1") {
        15
    } else if is_literal(&id, "fish_ocean_2") {
        40
    } else if is_literal(&id, "fish_ocean_3") {
        80
    } else if is_literal(&id, "fish_ocean_4") {
        250
    } else if is_literal(&id, "fish_night_1") {
        20
    } else if is_literal(&id, "fish_night_2") {
        45
    } else if is_literal(&id, "fish_night_3") {
        90
    } else if is_literal(&id, "fish_night_4") {
        300
    } else if is_literal(&id, "pole_1") {
        0
    } else if is_literal(&id, "pole_2") {
        200
    } else if is_literal(&id, "pole_3") {
        500
    } else if is_literal(&id, "pole_4") {
        1500
    } else if is_literal(&id, "lure_1") {
        10
    } else if is_literal(&id, "lure_2") {
        30
    } else if is_literal(&id, "lure_3") {
        80
    } else if is_literal(&id, "lure_4") {
        250
    } else {
        5
    }
}

/// The price that the shop asks for the item; 0 for what it does not sell.
pub fn get_item_buy_price(item_id: &str) -> (r: u32)
    ensures
        r == buy_price(item_id@),
        r <= 1500,
{
    let id = to_chars(item_id);
    if is_literal(&id, "pole_1") {
        0
    } else if is_literal(&id, "pole_2") {
        200
    } else if is_literal(&id, "pole_3") {
        500
    } else if is_literal(&id, "pole_4") {
        1500
    } else if is_literal(&id, "lure_1") {
        20
    } else if is_literal(&id, "lure_2") {
        60
    } else if is_literal(&id, "lure_3") {
        160
    } else if is_literal(&id, "lure_4") {
        500
    } else {
        0
    }
}

/// The price that one unit of the item sells for at the given rarity.
pub fn calculate_sell_price(item_id: &str, rarity: u8) -> (r: u32)
    ensures
        r == sell_price(item_id@, rarity),
        r <= 6000,
{
    let base_price = get_item_base_sell_price(item_id);
    let multiplier: u32 = if rarity == 2 {
        2
    } else if rarity == 3 {
        4
    } else {
        1
    };
    proof {
        lemma_sell_price_bound(item_id@, rarity);
    }
    base_price * multiplier
}

/// The tier that the item id ends in, 1 where its last segment is no number.
pub fn item_tier_of(item_id: &str) -> (r: u64)
    ensures
        r == item_tier(item_id@),
{
    let id = to_chars(item_id);
    let mut start: usize = id.len();
    while start > 0 && id[start - 1] != '_'
        invariant
            start <= id.len(),
            segment_start(id@, id.len() as int) == segment_start(id@, start as int),
        decreases start,
    {
        start -= 1;
    }
    let segment = slice_of(&id, start, id.len());
    assert(id@.skip(start as int) =~= id@.subrange(start as int, id.len() as int));
    match read_unsigned(&segment, u64::MAX) {
        Some(t) => t,
        None => 1,
    }
}

/// The experience that catching the fish is worth: 10, and 10 for each tier
/// of the fish, and 5 for each star of rarity above the first.
pub fn calculate_fish_xp(item_id: &str, rarity: u8) -> (r: u64)
    requires
        fish_xp(item_id@, rarity) <= u64::MAX,
    ensures
        r == fish_xp(item_id@, rarity),
{
    let tier = item_tier_of(item_id);
    let stars: u64 = if rarity >= 1 {
        (rarity - 1) as u64
    } else {
        0
    };
    XP_PER_FISH_BASE + tier * XP_PER_FISH_TIER + stars * XP_PER_RARITY_STAR
}

/// The experience that catching the fish is worth, if a `u64` holds it.
pub fn checked_fish_xp(item_id: &str, rarity: u8) -> (r: Option<u64>)
    ensures
        match r {
            Some(xp) => xp == fish_xp(item_id@, rarity),
            None => fish_xp(item_id@, rarity) > u64::MAX,
        },
{
    let tier = item_tier_of(item_id);
    let stars: u64 = if rarity >= 1 {
        (rarity - 1) as u64
    } else {
        0
    };
    let xp: u128 = XP_PER_FISH_BASE as u128 + tier as u128 * XP_PER_FISH_TIER as u128 + stars as u128
        * XP_PER_RARITY_STAR as u128;
    if xp > u64::MAX as u128 {
        None
    } else {
        Some(xp as u64)
    }
}

} // verus!

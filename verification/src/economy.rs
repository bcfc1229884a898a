//! Gold, the inventory, and the trades that couple them: selling, buying and
//! equipping. A trade is checked in full before anything changes, so that
//! one that is turned down leaves the world as it was.

use crate::items::{
    buy_price, calculate_sell_price, get_item_buy_price, is_pole, is_pole_item, sell_price,
};
use crate::ledger::{
    after_add, can_put_units, consumed, count_stacks, count_units, has_item, ledger_valid,
    lemma_add_conserves, lemma_add_valid, lemma_consumed_total, lemma_consumed_valid, owns_item,
    put_units, stacks_of_player, take_units, units_owned, StackKey,
};
use crate::sessions::{event, log_event_internal, with_event};
use crate::store::{
    find_player, find_stats, player_index, stats_index, string_is, PlayerStatsView, PlayerView,
    Rejection, World, WorldView,
};
use vstd::prelude::*;

verus! {

/// The key of the stacks of a player, an item and a rarity.
pub open spec fn stack_key(player_id: Seq<char>, item_id: Seq<char>, rarity: u8) -> StackKey {
    StackKey { player_id, item_id, rarity }
}

// ---------------------------------------------------------------------------
// Gold
// ---------------------------------------------------------------------------
/// The world after the player earns gold at `now`: the account holds more,
/// and the stats of the player, if any, count it as earned. Nothing changes
/// where the player has no account.
pub open spec fn with_gold_earned(w: WorldView, player_id: Seq<char>, amount: u32, now: i64) -> WorldView {
    match player_index(w.players, player_id) {
        Some(i) => WorldView {
            players: w.players.update(
                i,
                PlayerView {
                    gold: (w.players[i].gold + amount) as u32,
                    last_updated: now,
                    ..w.players[i]
                },
            ),
            stats: match stats_index(w.stats, player_id) {
                Some(j) => w.stats.update(
                    j,
                    PlayerStatsView {
                        total_gold_earned: (w.stats[j].total_gold_earned + amount) as u64,
                        ..w.stats[j]
                    },
                ),
                None => w.stats,
            },
            ..w
        },
        None => w,
    }
}

/// The account and the stats have room for the gold earned.
pub open spec fn gold_earned_fits(w: WorldView, player_id: Seq<char>, amount: u32) -> bool {
    match player_index(w.players, player_id) {
        Some(i) => {
            &&& w.players[i].gold + amount <= u32::MAX
            &&& match stats_index(w.stats, player_id) {
                Some(j) => w.stats[j].total_gold_earned + amount <= u64::MAX,
                None => true,
            }
        },
        None => true,
    }
}

/// The world after the player at index `i` spends gold at `now`: the account
/// holds less, and the stats of the player, if any, count it as spent.
pub open spec fn with_gold_spent(w: WorldView, i: int, amount: u32, now: i64) -> WorldView {
    WorldView {
        players: w.players.update(
            i,
            PlayerView {
                gold: (w.players[i].gold - amount) as u32,
                last_updated: now,
                ..w.players[i]
            },
        ),
        stats: match stats_index(w.stats, w.players[i].id) {
            Some(j) => w.stats.update(
                j,
                PlayerStatsView {
                    total_gold_spent: (w.stats[j].total_gold_spent + amount) as u64,
                    ..w.stats[j]
                },
            ),
            None => w.stats,
        },
        ..w
    }
}

/// The stats have room for the gold spent.
pub open spec fn gold_spent_fits(w: WorldView, player_id: Seq<char>, amount: u32) -> bool {
    match stats_index(w.stats, player_id) {
        Some(j) => w.stats[j].total_gold_spent + amount <= u64::MAX,
        None => true,
    }
}

/// The world after the gold of the player at index `i` is set at `now`.
pub open spec fn with_gold_set(w: WorldView, i: int, amount: u32, now: i64) -> WorldView {
    WorldView {
        players: w.players.update(
            i,
            PlayerView { gold: amount, last_updated: now, ..w.players[i] },
        ),
        ..w
    }
}

fn credit_gold(w: &mut World, player_id: &String, amount: u32, now: i64) -> (found: bool)
    requires
        gold_earned_fits(old(w)@, player_id@, amount),
    ensures
        final(w)@ == with_gold_earned(old(w)@, player_id@, amount, now),
        found == player_index(old(w)@.players, player_id@).is_some(),
{
    match find_player(&w.players, player_id) {
        Some(i) => {
            let ghost players_before = w@.players;
            assert(players_before[i as int] == w.players[i as int]@);
            w.players[i].gold = w.players[i].gold + amount;
            w.players[i].last_updated = now;
            assert(w@.players =~= players_before.update(
                i as int,
                PlayerView {
                    gold: (players_before[i as int].gold + amount) as u32,
                    last_updated: now,
                    ..players_before[i as int]
                },
            ));
            let ghost stats_before = w@.stats;
            match find_stats(&w.stats, player_id) {
                Some(j) => {
                    assert(stats_before[j as int] == w.stats[j as int]@);
                    w.stats[j].total_gold_earned = w.stats[j].total_gold_earned + amount as u64;
                    assert(w@.stats =~= stats_before.update(
                        j as int,
                        PlayerStatsView {
                            total_gold_earned: (stats_before[j as int].total_gold_earned
                                + amount) as u64,
                            ..stats_before[j as int]
                        },
                    ));
                },
                None => {},
            }
            true
        },
        None => false,
    }
}

fn debit_gold(w: &mut World, i: usize, amount: u32, now: i64)
    requires
        i < old(w).players.len(),
        old(w).players[i as int].gold >= amount,
        gold_spent_fits(old(w)@, old(w).players[i as int].id@, amount),
    ensures
        final(w)@ == with_gold_spent(old(w)@, i as int, amount, now),
{
    let ghost players_before = w@.players;
    assert(players_before[i as int] == w.players[i as int]@);
    w.players[i].gold = w.players[i].gold - amount;
    w.players[i].last_updated = now;
    assert(w@.players =~= players_before.update(
        i as int,
        PlayerView {
            gold: (players_before[i as int].gold - amount) as u32,
            last_updated: now,
            ..players_before[i as int]
        },
    ));
    let ghost stats_before = w@.stats;
    match find_stats(&w.stats, &w.players[i].id) {
        Some(j) => {
            assert(stats_before[j as int] == w.stats[j as int]@);
            w.stats[j].total_gold_spent = w.stats[j].total_gold_spent + amount as u64;
            assert(w@.stats =~= stats_before.update(
                j as int,
                PlayerStatsView {
                    total_gold_spent: (stats_before[j as int].total_gold_spent + amount) as u64,
                    ..stats_before[j as int]
                },
            ));
        },
        None => {},
    }
}

/// Gives the player gold. Turned down where the player has no account.
pub fn add_gold(w: &mut World, player_id: &str, amount: u32, now: i64) -> (r: Result<
    (),
    Rejection,
>)
    requires
        gold_earned_fits(old(w)@, player_id@, amount),
    ensures
        final(w)@ == with_gold_earned(old(w)@, player_id@, amount, now),
        match r {
            Ok(_) => player_index(old(w)@.players, player_id@) is Some,
            Err(e) => e == Rejection::PlayerNotFound && player_index(old(w)@.players, player_id@)
                is None && final(w)@ == old(w)@,
        },
{
    let pid = player_id.to_owned();
    if credit_gold(w, &pid, amount, now) {
        Ok(())
    } else {
        Err(Rejection::PlayerNotFound)
    }
}

/// Takes gold from the player. Turned down where the player has no account
/// or less gold than the amount.
pub fn spend_gold(w: &mut World, player_id: &str, amount: u32, now: i64) -> (r: Result<
    (),
    Rejection,
>)
    requires
        gold_spent_fits(old(w)@, player_id@, amount),
    ensures
        match r {
            Ok(_) => match player_index(old(w)@.players, player_id@) {
                Some(i) => old(w)@.players[i].gold >= amount && final(w)@ == with_gold_spent(
                    old(w)@,
                    i,
                    amount,
                    now,
                ),
                None => false,
            },
            Err(e) => final(w)@ == old(w)@ && match player_index(old(w)@.players, player_id@) {
                Some(i) => e == Rejection::InsufficientGold && old(w)@.players[i].gold < amount,
                None => e == Rejection::PlayerNotFound,
            },
        },
{
    let pid = player_id.to_owned();
    match find_player(&w.players, &pid) {
        Some(i) => {
            assert(w@.players[i as int] == w.players[i as int]@);
            if w.players[i].gold >= amount {
                debit_gold(w, i, amount, now);
                Ok(())
            } else {
                Err(Rejection::InsufficientGold)
            }
        },
        None => Err(Rejection::PlayerNotFound),
    }
}

/// Sets the gold of the player. Turned down where the player has no account.
pub fn set_gold(w: &mut World, player_id: &str, amount: u32, now: i64) -> (r: Result<
    (),
    Rejection,
>)
    ensures
        match r {
            Ok(_) => match player_index(old(w)@.players, player_id@) {
                Some(i) => final(w)@ == with_gold_set(old(w)@, i, amount, now),
                None => false,
            },
            Err(e) => e == Rejection::PlayerNotFound && player_index(old(w)@.players, player_id@)
                is None && final(w)@ == old(w)@,
        },
{
    let pid = player_id.to_owned();
    match find_player(&w.players, &pid) {
        Some(i) => {
            let ghost players_before = w@.players;
            assert(players_before[i as int] == w.players[i as int]@);
            w.players[i].gold = amount;
            w.players[i].last_updated = now;
            assert(w@.players =~= players_before.update(
                i as int,
                PlayerView { gold: amount, last_updated: now, ..players_before[i as int] },
            ));
            Ok(())
        },
        None => Err(Rejection::PlayerNotFound),
    }
}

// ---------------------------------------------------------------------------
// Inventory
// ---------------------------------------------------------------------------
/// The world after units are added to the inventory of a player.
pub open spec fn with_units_added(
    w: WorldView,
    player_id: Seq<char>,
    item_id: Seq<char>,
    rarity: u8,
    quantity: u32,
) -> WorldView {
    let ledger = after_add(
        w.inventory,
        w.next_inventory_id as nat,
        stack_key(player_id, item_id, rarity),
        quantity as nat,
    );
    WorldView { inventory: ledger.stacks, next_inventory_id: ledger.next_id as u64, ..w }
}

/// The counter of stacks has room for the stacks that adding the units opens.
pub open spec fn units_added_fit(
    w: WorldView,
    player_id: Seq<char>,
    item_id: Seq<char>,
    rarity: u8,
    quantity: u32,
) -> bool {
    after_add(
        w.inventory,
        w.next_inventory_id as nat,
        stack_key(player_id, item_id, rarity),
        quantity as nat,
    ).next_id <= u64::MAX
}

/// Adds units of an item to the inventory of a player: stacks of the item
/// and rarity that have room are topped up in order, and new stacks are
/// opened for the rest. No stack exceeds the capacity of the item, and none
/// is opened empty.
pub fn add_to_inventory(w: &mut World, player_id: &str, item_id: &str, rarity: u8, quantity: u32)
    requires
        units_added_fit(old(w)@, player_id@, item_id@, rarity, quantity),
    ensures
        final(w)@ == with_units_added(old(w)@, player_id@, item_id@, rarity, quantity),
        ledger_valid(old(w)@.inventory) ==> ledger_valid(final(w)@.inventory),
{
    let pid = player_id.to_owned();
    let iid = item_id.to_owned();
    proof {
        if ledger_valid(w@.inventory) {
            lemma_add_valid(
                w@.inventory,
                w@.next_inventory_id as nat,
                stack_key(player_id@, item_id@, rarity),
                quantity as nat,
            );
        }
    }
    put_units(&mut w.inventory, &mut w.next_inventory_id, &pid, &iid, rarity, quantity);
}

/// Removes units of an item from the inventory of a player, taking them from
/// the stacks of the item and rarity in order. A stack that is used up is
/// removed. Turned down, with nothing removed, where the player owns fewer
/// units than asked for. Removing no units succeeds and changes nothing.
pub fn remove_from_inventory(
    w: &mut World,
    player_id: &str,
    item_id: &str,
    rarity: u8,
    quantity: u32,
) -> (r: Result<(), Rejection>)
    ensures
        match r {
            Ok(_) => units_owned(old(w)@.inventory, stack_key(player_id@, item_id@, rarity))
                >= quantity && final(w)@ == (WorldView {
                inventory: consumed(
                    old(w)@.inventory,
                    stack_key(player_id@, item_id@, rarity),
                    0,
                    quantity as nat,
                ),
                ..old(w)@
            }),
            Err(e) => e == Rejection::InsufficientQuantity && units_owned(
                old(w)@.inventory,
                stack_key(player_id@, item_id@, rarity),
            ) < quantity && final(w)@ == old(w)@,
        },
        ledger_valid(old(w)@.inventory) ==> ledger_valid(final(w)@.inventory),
{
    let pid = player_id.to_owned();
    let iid = item_id.to_owned();
    proof {
        if ledger_valid(w@.inventory) {
            lemma_consumed_valid(
                w@.inventory,
                stack_key(player_id@, item_id@, rarity),
                0,
                quantity as nat,
            );
        }
    }
    take_units(&mut w.inventory, &pid, &iid, rarity, quantity)
}

/// The units that the player owns of the item at the rarity.
pub fn total_owned(w: &World, player_id: &str, item_id: &str, rarity: u8) -> (r: u128)
    ensures
        r == units_owned(w@.inventory, stack_key(player_id@, item_id@, rarity)),
{
    let pid = player_id.to_owned();
    let iid = item_id.to_owned();
    count_units(&w.inventory, &pid, &iid, rarity)
}

/// The number of stacks in the inventory of the player.
pub fn get_player_inventory(w: &World, player_id: &str) -> (r: usize)
    ensures
        r == stacks_of_player(w@.inventory, player_id@),
{
    let pid = player_id.to_owned();
    count_stacks(&w.inventory, &pid)
}

// ---------------------------------------------------------------------------
// Selling
// ---------------------------------------------------------------------------
/// Why a sale is turned down, if it is: nothing is sold, the seller has no
/// account to be paid into, the item is the pole that the seller has
/// equipped, or the seller owns too few units.
pub open spec fn sale_rejection(
    w: WorldView,
    player_id: Seq<char>,
    item_id: Seq<char>,
    rarity: u8,
    quantity: u32,
) -> Option<Rejection> {
    if quantity == 0 {
        Some(Rejection::ZeroQuantity)
    } else {
        match player_index(w.players, player_id) {
            None => Some(Rejection::PlayerNotFound),
            Some(i) => if is_pole(item_id) && w.players[i].equipped_pole_id == Some(item_id) {
                Some(Rejection::PoleEquipped)
            } else if units_owned(w.inventory, stack_key(player_id, item_id, rarity))
                < quantity {
                Some(Rejection::InsufficientQuantity)
            } else {
                None
            },
        }
    }
}

/// The gold that a sale brings: the unit price times the quantity.
pub open spec fn sale_proceeds(item_id: Seq<char>, rarity: u8, quantity: u32) -> nat {
    sell_price(item_id, rarity) * (quantity as nat)
}

/// The world after a sale at `now`: the units are out of the inventory, the
/// seller has earned the proceeds, and the sale is recorded. Items leave the
/// inventory only together with the gold that pays for them.
pub open spec fn after_sale(
    w: WorldView,
    player_id: Seq<char>,
    item_id: Seq<char>,
    rarity: u8,
    quantity: u32,
    now: i64,
) -> WorldView {
    let proceeds = sale_proceeds(item_id, rarity, quantity) as u32;
    let sold = WorldView {
        inventory: consumed(
            w.inventory,
            stack_key(player_id, item_id, rarity),
            0,
            quantity as nat,
        ),
        ..w
    };
    with_event(
        with_gold_earned(sold, player_id, proceeds, now),
        event(
            player_id,
            "item_sold"@,
            Some(item_id),
            Some(quantity),
            Some(proceeds),
            Some(rarity),
            None,
            None,
        ),
        now,
    )
}

/// A sale that is not turned down can be computed in machine integers.
pub open spec fn sale_fits(
    w: WorldView,
    player_id: Seq<char>,
    item_id: Seq<char>,
    rarity: u8,
    quantity: u32,
) -> bool {
    sale_rejection(w, player_id, item_id, rarity, quantity) is None ==> {
        &&& sale_proceeds(item_id, rarity, quantity) <= u32::MAX
        &&& gold_earned_fits(w, player_id, sale_proceeds(item_id, rarity, quantity) as u32)
        &&& w.next_event_id < u64::MAX
    }
}

/// Sells units of an item from the inventory of a player, at the price that
/// the item and rarity fetch. Returns the gold earned. Turned down, with
/// nothing sold, where the seller has no account.
pub fn sell_item(
    w: &mut World,
    player_id: &str,
    item_id: &str,
    rarity: u8,
    quantity: u32,
    now: i64,
) -> (r: Result<u32, Rejection>)
    requires
        sale_fits(old(w)@, player_id@, item_id@, rarity, quantity),
    ensures
        match r {
            Ok(gold) => sale_rejection(old(w)@, player_id@, item_id@, rarity, quantity) is None
                && gold == sale_proceeds(item_id@, rarity, quantity) && final(w)@ == after_sale(
                old(w)@,
                player_id@,
                item_id@,
                rarity,
                quantity,
                now,
            ),
            Err(e) => sale_rejection(old(w)@, player_id@, item_id@, rarity, quantity) == Some(e)
                && final(w)@ == old(w)@,
        },
        ledger_valid(old(w)@.inventory) ==> ledger_valid(final(w)@.inventory),
{
    if quantity == 0 {
        return Err(Rejection::ZeroQuantity);
    }
    let pid = player_id.to_owned();
    let iid = item_id.to_owned();
    let seller = match find_player(&w.players, &pid) {
        Some(i) => i,
        None => {
            return Err(Rejection::PlayerNotFound);
        },
    };
    assert(w@.players[seller as int] == w.players[seller as int]@);
    if is_pole_item(item_id) {
        let equipped = match &w.players[seller].equipped_pole_id {
            Some(pole) => *pole == iid,
            None => false,
        };
        if equipped {
            return Err(Rejection::PoleEquipped);
        }
    }
    proof {
        if ledger_valid(w@.inventory) {
            lemma_consumed_valid(
                w@.inventory,
                stack_key(player_id@, item_id@, rarity),
                0,
                quantity as nat,
            );
        }
    }
    match take_units(&mut w.inventory, &pid, &iid, rarity, quantity) {
        Err(e) => {
            return Err(e);
        },
        Ok(_) => {},
    }
    let unit_price = calculate_sell_price(item_id, rarity);
    let gold: u32 = unit_price * quantity;
    credit_gold(w, &pid, gold, now);
    log_event_internal(
        w,
        pid,
        "item_sold".to_owned(),
        Some(iid),
        Some(quantity),
        Some(gold),
        Some(rarity),
        None,
        None,
        now,
    );
    Ok(gold)
}

// ---------------------------------------------------------------------------
// Buying
// ---------------------------------------------------------------------------
/// Why a purchase is turned down, if it is: the shop does not sell the item
/// (it has no price and is not the free starter pole), the player has no
/// account, or the player cannot pay.
pub open spec fn purchase_rejection(w: WorldView, player_id: Seq<char>, item_id: Seq<char>) -> Option<
    Rejection,
> {
    if buy_price(item_id) == 0 && item_id != "pole_1"@ {
        Some(Rejection::NotPurchasable)
    } else {
        match player_index(w.players, player_id) {
            None => Some(Rejection::PlayerNotFound),
            Some(i) => if w.players[i].gold < buy_price(item_id) {
                Some(Rejection::InsufficientGold)
            } else {
                None
            },
        }
    }
}

/// The world after the player at index `i` buys one unit of the item at
/// `now`: the price is paid, the unit is in the inventory at rarity 0, and
/// the purchase is recorded.
pub open spec fn after_purchase(w: WorldView, i: int, item_id: Seq<char>, now: i64) -> WorldView {
    let player_id = w.players[i].id;
    let price = buy_price(item_id) as u32;
    with_event(
        with_units_added(with_gold_spent(w, i, price, now), player_id, item_id, 0, 1),
        event(player_id, "item_bought"@, Some(item_id), Some(1u32), Some(price), Some(0u8), None, None),
        now,
    )
}

/// A purchase that is not turned down can be computed in machine integers.
pub open spec fn purchase_fits(w: WorldView, player_id: Seq<char>, item_id: Seq<char>) -> bool {
    purchase_rejection(w, player_id, item_id) is None ==> {
        &&& gold_spent_fits(w, player_id, buy_price(item_id) as u32)
        &&& units_added_fit(w, player_id, item_id, 0, 1)
        &&& w.next_event_id < u64::MAX
    }
}

/// Buys one unit of an item for a player, at the price that the shop asks.
/// Returns the gold paid.
pub fn buy_item(w: &mut World, player_id: &str, item_id: &str, now: i64) -> (r: Result<
    u32,
    Rejection,
>)
    requires
        purchase_fits(old(w)@, player_id@, item_id@),
    ensures
        match r {
            Ok(price) => purchase_rejection(old(w)@, player_id@, item_id@) is None && price
                == buy_price(item_id@) && match player_index(old(w)@.players, player_id@) {
                Some(i) => final(w)@ == after_purchase(old(w)@, i, item_id@, now),
                None => false,
            },
            Err(e) => purchase_rejection(old(w)@, player_id@, item_id@) == Some(e) && final(w)@
                == old(w)@,
        },
        ledger_valid(old(w)@.inventory) ==> ledger_valid(final(w)@.inventory),
{
    let price = get_item_buy_price(item_id);
    let iid = item_id.to_owned();
    if price == 0 && !string_is(&iid, "pole_1") {
        return Err(Rejection::NotPurchasable);
    }
    let pid = player_id.to_owned();
    let i = match find_player(&w.players, &pid) {
        Some(i) => i,
        None => {
            return Err(Rejection::PlayerNotFound);
        },
    };
    assert(w@.players[i as int] == w.players[i as int]@);
    if w.players[i].gold < price {
        return Err(Rejection::InsufficientGold);
    }
    debit_gold(w, i, price, now);
    proof {
        if ledger_valid(w@.inventory) {
            lemma_add_valid(
                w@.inventory,
                w@.next_inventory_id as nat,
                stack_key(player_id@, item_id@, 0),
                1,
            );
        }
    }
    put_units(&mut w.inventory, &mut w.next_inventory_id, &pid, &iid, 0, 1);
    log_event_internal(
        w,
        pid,
        "item_bought".to_owned(),
        Some(iid),
        Some(1),
        Some(price),
        Some(0),
        None,
        None,
        now,
    );
    Ok(price)
}

// ---------------------------------------------------------------------------
// Poles
// ---------------------------------------------------------------------------
/// The world after the player at index `i` equips the pole at `now`.
pub open spec fn after_equip(w: WorldView, i: int, pole_item_id: Seq<char>, now: i64) -> WorldView {
    with_event(
        WorldView {
            players: w.players.update(
                i,
                PlayerView {
                    equipped_pole_id: Some(pole_item_id),
                    last_updated: now,
                    ..w.players[i]
                },
            ),
            ..w
        },
        event(w.players[i].id, "pole_equipped"@, Some(pole_item_id), None, None, None, None, None),
        now,
    )
}

/// The world after the player at index `i` puts the pole away at `now`. The
/// change is recorded if a pole was equipped.
pub open spec fn after_unequip(w: WorldView, i: int, now: i64) -> WorldView {
    let recorded = match w.players[i].equipped_pole_id {
        Some(pole) => with_event(
            w,
            event(w.players[i].id, "pole_unequipped"@, Some(pole), None, None, None, None, None),
            now,
        ),
        None => w,
    };
    WorldView {
        players: w.players.update(
            i,
            PlayerView { equipped_pole_id: None, last_updated: now, ..w.players[i] },
        ),
        ..recorded
    }
}

/// Equips a pole that the player owns, at whatever rarity. Turned down where
/// the player owns none or has no account.
pub fn equip_pole(w: &mut World, player_id: &str, pole_item_id: &str, now: i64) -> (r: Result<
    (),
    Rejection,
>)
    requires
        old(w).next_event_id < u64::MAX,
    ensures
        match r {
            Ok(_) => owns_item(old(w)@.inventory, player_id@, pole_item_id@) && match player_index(
                old(w)@.players,
                player_id@,
            ) {
                Some(i) => final(w)@ == after_equip(old(w)@, i, pole_item_id@, now),
                None => false,
            },
            Err(e) => final(w)@ == old(w)@ && if !owns_item(
                old(w)@.inventory,
                player_id@,
                pole_item_id@,
            ) {
                e == Rejection::NotOwned
            } else {
                e == Rejection::PlayerNotFound && player_index(old(w)@.players, player_id@)
                    is None
            },
        },
{
    let pid = player_id.to_owned();
    let pole = pole_item_id.to_owned();
    if !has_item(&w.inventory, &pid, &pole) {
        return Err(Rejection::NotOwned);
    }
    match find_player(&w.players, &pid) {
        Some(i) => {
            let ghost players_before = w@.players;
            assert(players_before[i as int] == w.players[i as int]@);
            w.players[i].equipped_pole_id = Some(pole.clone());
            w.players[i].last_updated = now;
            assert(w@.players =~= players_before.update(
                i as int,
                PlayerView {
                    equipped_pole_id: Some(pole_item_id@),
                    last_updated: now,
                    ..players_before[i as int]
                },
            ));
            log_event_internal(
                w,
                pid,
                "pole_equipped".to_owned(),
                Some(pole),
                None,
                None,
                None,
                None,
                None,
                now,
            );
            Ok(())
        },
        None => Err(Rejection::PlayerNotFound),
    }
}

/// Puts the equipped pole of the player away. The pole stays in the
/// inventory. Turned down where the player has no account.
pub fn unequip_pole(w: &mut World, player_id: &str, now: i64) -> (r: Result<(), Rejection>)
    requires
        old(w).next_event_id < u64::MAX,
    ensures
        match r {
            Ok(_) => match player_index(old(w)@.players, player_id@) {
                Some(i) => final(w)@ == after_unequip(old(w)@, i, now),
                None => false,
            },
            Err(e) => e == Rejection::PlayerNotFound && player_index(old(w)@.players, player_id@)
                is None && final(w)@ == old(w)@,
        },
{
    let pid = player_id.to_owned();
    match find_player(&w.players, &pid) {
        Some(i) => {
            assert(w@.players[i as int] == w.players[i as int]@);
            let pole = w.players[i].equipped_pole_id.clone();
            match pole {
                Some(pole) => {
                    log_event_internal(
                        w,
                        pid,
                        "pole_unequipped".to_owned(),
                        Some(pole),
                        None,
                        None,
                        None,
                        None,
                        None,
                        now,
                    );
                },
                None => {},
            }
            let ghost players_before = w@.players;
            assert(players_before[i as int] == w.players[i as int]@);
            w.players[i].equipped_pole_id = None;
            w.players[i].last_updated = now;
            assert(w@.players =~= players_before.update(
                i as int,
                PlayerView { equipped_pole_id: None, last_updated: now, ..players_before[i as int] },
            ));
            Ok(())
        },
        None => Err(Rejection::PlayerNotFound),
    }
}

// ---------------------------------------------------------------------------
// Laws
// ---------------------------------------------------------------------------
/// A sale that is carried out takes exactly the units sold out of what the
/// seller owns of the item at the rarity, leaves what is owned under every
/// other key as it was, and raises the gold of the seller by the proceeds.
pub proof fn lemma_sale_moves_units_and_gold(
    w: WorldView,
    player_id: Seq<char>,
    item_id: Seq<char>,
    rarity: u8,
    quantity: u32,
    now: i64,
    probe: StackKey,
)
    requires
        sale_rejection(w, player_id, item_id, rarity, quantity) is None,
        sale_fits(w, player_id, item_id, rarity, quantity),
    ensures
        ({
            let after = after_sale(w, player_id, item_id, rarity, quantity, now);
            let key = stack_key(player_id, item_id, rarity);
            &&& units_owned(after.inventory, probe) == units_owned(w.inventory, probe) - (
            if probe == key {
                quantity as int
            } else {
                0
            })
            &&& match player_index(w.players, player_id) {
                Some(i) => after.players.len() == w.players.len() && after.players[i].gold
                    == w.players[i].gold + sale_proceeds(item_id, rarity, quantity),
                None => false,
            }
        }),
{
    lemma_consumed_total(
        w.inventory,
        stack_key(player_id, item_id, rarity),
        0,
        quantity as nat,
        probe,
    );
    crate::store::lemma_player_index_found(w.players, player_id, 0);
    let sold = WorldView {
        inventory: consumed(
            w.inventory,
            stack_key(player_id, item_id, rarity),
            0,
            quantity as nat,
        ),
        ..w
    };
    let proceeds = sale_proceeds(item_id, rarity, quantity) as u32;
    let paid = with_gold_earned(sold, player_id, proceeds, now);
    assert(paid.inventory == sold.inventory);
    assert(after_sale(w, player_id, item_id, rarity, quantity, now).inventory == paid.inventory);
    assert(after_sale(w, player_id, item_id, rarity, quantity, now).players == paid.players);
}

/// A purchase that is carried out adds exactly one unit to what the buyer
/// owns of the item at rarity 0, leaves what is owned under every other key
/// as it was, and lowers the gold of the buyer by the price.
pub proof fn lemma_purchase_moves_unit_and_gold(
    w: WorldView,
    player_id: Seq<char>,
    item_id: Seq<char>,
    now: i64,
    probe: StackKey,
)
    requires
        purchase_rejection(w, player_id, item_id) is None,
    ensures
        ({
            let i = player_index(w.players, player_id)->0;
            let after = after_purchase(w, i, item_id, now);
            let key = stack_key(w.players[i].id, item_id, 0);
            &&& units_owned(after.inventory, probe) == units_owned(w.inventory, probe) + (
            if probe == key {
                1int
            } else {
                0
            })
            &&& after.players.len() == w.players.len()
            &&& after.players[i].gold == w.players[i].gold - buy_price(item_id)
        }),
{
    let i = player_index(w.players, player_id)->0;
    crate::store::lemma_player_index_found(w.players, player_id, 0);
    lemma_add_conserves(
        w.inventory,
        w.next_inventory_id as nat,
        stack_key(w.players[i].id, item_id, 0),
        1,
        probe,
    );
}

// ---------------------------------------------------------------------------
// Room for the numbers
// ---------------------------------------------------------------------------
/// Whether the account and the stats have room for the gold earned.
pub fn can_earn_gold(w: &World, player_id: &str, amount: u32) -> (r: bool)
    ensures
        r == gold_earned_fits(w@, player_id@, amount),
{
    let pid = player_id.to_owned();
    match find_player(&w.players, &pid) {
        Some(i) => {
            assert(w@.players[i as int] == w.players[i as int]@);
            if w.players[i].gold > u32::MAX - amount {
                return false;
            }
            match find_stats(&w.stats, &pid) {
                Some(j) => {
                    assert(w@.stats[j as int] == w.stats[j as int]@);
                    w.stats[j].total_gold_earned <= u64::MAX - amount as u64
                },
                None => true,
            }
        },
        None => true,
    }
}

/// Whether the stats have room for the gold spent.
pub fn can_spend_gold(w: &World, player_id: &str, amount: u32) -> (r: bool)
    ensures
        r == gold_spent_fits(w@, player_id@, amount),
{
    let pid = player_id.to_owned();
    match find_stats(&w.stats, &pid) {
        Some(j) => {
            assert(w@.stats[j as int] == w.stats[j as int]@);
            w.stats[j].total_gold_spent <= u64::MAX - amount as u64
        },
        None => true,
    }
}

/// Whether the counter of stacks has room for the stacks that adding the
/// units opens.
pub fn can_add_to_inventory(
    w: &World,
    player_id: &str,
    item_id: &str,
    rarity: u8,
    quantity: u32,
) -> (r: bool)
    ensures
        r == units_added_fit(w@, player_id@, item_id@, rarity, quantity),
{
    let pid = player_id.to_owned();
    let iid = item_id.to_owned();
    can_put_units(&w.inventory, w.next_inventory_id, &pid, &iid, rarity, quantity)
}

/// Why the sale would be turned down, if it would be.
pub fn sale_verdict(w: &World, player_id: &str, item_id: &str, rarity: u8, quantity: u32) -> (r:
    Option<Rejection>)
    ensures
        r == sale_rejection(w@, player_id@, item_id@, rarity, quantity),
{
    if quantity == 0 {
        return Some(Rejection::ZeroQuantity);
    }
    let pid = player_id.to_owned();
    let iid = item_id.to_owned();
    let seller = match find_player(&w.players, &pid) {
        Some(i) => i,
        None => {
            return Some(Rejection::PlayerNotFound);
        },
    };
    assert(w@.players[seller as int] == w.players[seller as int]@);
    if is_pole_item(item_id) {
        let equipped = match &w.players[seller].equipped_pole_id {
            Some(pole) => *pole == iid,
            None => false,
        };
        if equipped {
            return Some(Rejection::PoleEquipped);
        }
    }
    if count_units(&w.inventory, &pid, &iid, rarity) < quantity as u128 {
        return Some(Rejection::InsufficientQuantity);
    }
    None
}

/// Whether the sale, if it is not turned down, can be computed in machine
/// integers.
pub fn can_sell(w: &World, player_id: &str, item_id: &str, rarity: u8, quantity: u32) -> (r: bool)
    ensures
        r == sale_fits(w@, player_id@, item_id@, rarity, quantity),
{
    match sale_verdict(w, player_id, item_id, rarity, quantity) {
        Some(_) => true,
        None => {
            let unit_price = calculate_sell_price(item_id, rarity);
            assert(unit_price * quantity <= 6000 * 0xFFFF_FFFF) by (nonlinear_arith)
                requires
                    unit_price <= 6000,
                    quantity <= 0xFFFF_FFFF,
            ;
            let proceeds: u64 = unit_price as u64 * quantity as u64;
            if proceeds > u32::MAX as u64 {
                return false;
            }
            can_earn_gold(w, player_id, proceeds as u32) && w.next_event_id < u64::MAX
        },
    }
}

/// Why the purchase would be turned down, if it would be.
pub fn purchase_verdict(w: &World, player_id: &str, item_id: &str) -> (r: Option<Rejection>)
    ensures
        r == purchase_rejection(w@, player_id@, item_id@),
{
    let price = get_item_buy_price(item_id);
    let iid = item_id.to_owned();
    if price == 0 && !string_is(&iid, "pole_1") {
        return Some(Rejection::NotPurchasable);
    }
    let pid = player_id.to_owned();
    match find_player(&w.players, &pid) {
        Some(i) => {
            assert(w@.players[i as int] == w.players[i as int]@);
            if w.players[i].gold < price {
                Some(Rejection::InsufficientGold)
            } else {
                None
            }
        },
        None => Some(Rejection::PlayerNotFound),
    }
}

/// Whether the purchase, if it is not turned down, can be computed in
/// machine integers.
pub fn can_buy(w: &World, player_id: &str, item_id: &str) -> (r: bool)
    ensures
        r == purchase_fits(w@, player_id@, item_id@),
{
    match purchase_verdict(w, player_id, item_id) {
        Some(_) => true,
        None => {
            let price = get_item_buy_price(item_id);
            can_spend_gold(w, player_id, price) && can_add_to_inventory(
                w,
                player_id,
                item_id,
                0,
                1,
            ) && w.next_event_id < u64::MAX
        },
    }
}

} // verus!

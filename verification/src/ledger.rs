//! The inventory ledger: how quantities of an item are packed into stacks of
//! bounded size, and taken out of them again.
//!
//! The stacks of one player, item and rarity may be fragmented: several of
//! them may be partly filled. The ledger never merges stacks; it only keeps
//! every stack within the capacity of its item, and removes a stack that
//! would become empty.

use crate::items::{capacity, get_max_stack_size};
use crate::store::{inventory_view, Inventory, InventoryView, Rejection};
use vstd::prelude::*;

verus! {

/// What stacks are told apart by: the owner, the item and its rarity.
pub struct StackKey {
    pub player_id: Seq<char>,
    pub item_id: Seq<char>,
    pub rarity: u8,
}

/// The stack belongs to the key.
pub open spec fn is_stack_of(stack: InventoryView, key: StackKey) -> bool {
    stack.player_id == key.player_id && stack.item_id == key.item_id && stack.rarity == key.rarity
}

/// What a stack adds to the count of a key.
pub open spec fn units_of(stack: InventoryView, key: StackKey) -> nat {
    if is_stack_of(stack, key) {
        stack.quantity as nat
    } else {
        0
    }
}

/// The units of the key in the stacks from index `i` on.
pub open spec fn total_from(inv: Seq<InventoryView>, key: StackKey, i: int) -> nat
    decreases inv.len() - i,
{
    if i < 0 || i >= inv.len() {
        0
    } else {
        units_of(inv[i], key) + total_from(inv, key, i + 1)
    }
}

/// The units that a player owns of an item at a rarity: the sum over the
/// stacks of that key.
pub open spec fn units_owned(inv: Seq<InventoryView>, key: StackKey) -> nat {
    total_from(inv, key, 0)
}

/// The units of the item, of whatever rarity, that the player holds in the
/// stacks from index `i` on.
pub open spec fn item_units_from(
    inv: Seq<InventoryView>,
    player_id: Seq<char>,
    item_id: Seq<char>,
    i: int,
) -> nat
    decreases inv.len() - i,
{
    if i < 0 || i >= inv.len() {
        0
    } else if inv[i].player_id == player_id && inv[i].item_id == item_id {
        inv[i].quantity as nat + item_units_from(inv, player_id, item_id, i + 1)
    } else {
        item_units_from(inv, player_id, item_id, i + 1)
    }
}

/// The player owns at least one unit of the item, at whatever rarity.
pub open spec fn owns_item(inv: Seq<InventoryView>, player_id: Seq<char>, item_id: Seq<char>) -> bool {
    item_units_from(inv, player_id, item_id, 0) > 0
}

/// The number of stacks that belong to the player.
pub open spec fn stacks_of_player(inv: Seq<InventoryView>, player_id: Seq<char>) -> nat
    decreases inv.len(),
{
    if inv.len() == 0 {
        0
    } else {
        stacks_of_player(inv.drop_last(), player_id) + if inv.last().player_id == player_id {
            1nat
        } else {
            0nat
        }
    }
}

/// Every stack holds at least one unit and no more than its item allows.
pub open spec fn ledger_valid(inv: Seq<InventoryView>) -> bool {
    forall|i: int|
        0 <= i < inv.len() ==> 1 <= (#[trigger] inv[i]).quantity <= capacity(inv[i].item_id)
}

/// A stack with another quantity.
pub open spec fn with_quantity(stack: InventoryView, quantity: int) -> InventoryView {
    InventoryView { quantity: quantity as u32, ..stack }
}

/// Stacks, and the units that found no room in them.
pub struct ToppedUp {
    pub stacks: Seq<InventoryView>,
    pub left: nat,
}

/// Tops up the stacks of the key from index `i` on, in order, each as far as
/// the capacity `cap` and the remaining units allow.
pub open spec fn topped_up(
    inv: Seq<InventoryView>,
    key: StackKey,
    cap: nat,
    i: int,
    remaining: nat,
) -> ToppedUp
    decreases inv.len() - i,
{
    if i < 0 || i >= inv.len() || remaining == 0 {
        ToppedUp { stacks: inv, left: remaining }
    } else if is_stack_of(inv[i], key) && inv[i].quantity < cap {
        let room = (cap - inv[i].quantity) as nat;
        let added = if remaining < room {
            remaining
        } else {
            room
        };
        topped_up(
            inv.update(i, with_quantity(inv[i], inv[i].quantity + added)),
            key,
            cap,
            i + 1,
            (remaining - added) as nat,
        )
    } else {
        topped_up(inv, key, cap, i + 1, remaining)
    }
}

/// Stacks, and the id that the next new stack gets.
pub struct Ledger {
    pub stacks: Seq<InventoryView>,
    pub next_id: nat,
}

/// Appends new stacks of the key until no unit remains: each holds `cap`
/// units, but for the last, which holds what is left. The stacks are numbered
/// from `next_id` on.
pub open spec fn with_new_stacks(
    inv: Seq<InventoryView>,
    next_id: nat,
    key: StackKey,
    cap: nat,
    remaining: nat,
) -> Ledger
    decreases remaining,
{
    if remaining == 0 || cap == 0 {
        Ledger { stacks: inv, next_id }
    } else {
        let size = if remaining < cap {
            remaining
        } else {
            cap
        };
        with_new_stacks(
            inv.push(
                InventoryView {
                    id: next_id as u64,
                    player_id: key.player_id,
                    item_id: key.item_id,
                    rarity: key.rarity,
                    quantity: size as u32,
                },
            ),
            next_id + 1,
            key,
            cap,
            (remaining - size) as nat,
        )
    }
}

/// The ledger after `quantity` units of the key are added: the existing
/// stacks of the key are topped up in order, and what finds no room goes into
/// new stacks.
pub open spec fn after_add(
    inv: Seq<InventoryView>,
    next_id: nat,
    key: StackKey,
    quantity: nat,
) -> Ledger {
    let cap = capacity(key.item_id);
    let topped = topped_up(inv, key, cap, 0, quantity);
    with_new_stacks(topped.stacks, next_id, key, cap, topped.left)
}

/// Takes `remaining` units out of the stacks of the key from index `i` on,
/// in order. A stack that holds no more than is still to be taken is removed;
/// the stack that holds more is reduced.
pub open spec fn consumed(inv: Seq<InventoryView>, key: StackKey, i: int, remaining: nat) -> Seq<
    InventoryView,
>
    decreases inv.len() - i,
{
    if i < 0 || i >= inv.len() || remaining == 0 {
        inv
    } else if is_stack_of(inv[i], key) {
        if inv[i].quantity <= remaining {
            consumed(inv.remove(i), key, i, (remaining - inv[i].quantity) as nat)
        } else {
            inv.update(i, with_quantity(inv[i], inv[i].quantity - remaining))
        }
    } else {
        consumed(inv, key, i + 1, remaining)
    }
}

/// The stacks after `quantity` units of the key are removed; `None` where the
/// player owns fewer, in which case nothing is removed.
pub open spec fn after_remove(inv: Seq<InventoryView>, key: StackKey, quantity: nat) -> Option<
    Seq<InventoryView>,
> {
    if units_owned(inv, key) < quantity {
        None
    } else {
        Some(consumed(inv, key, 0, quantity))
    }
}

// ---------------------------------------------------------------------------
// Laws
// ---------------------------------------------------------------------------
/// New stacks never lower the counter, and raise it if a unit remains.
pub proof fn lemma_new_stacks_counter(
    inv: Seq<InventoryView>,
    next_id: nat,
    key: StackKey,
    cap: nat,
    remaining: nat,
)
    requires
        cap >= 1,
    ensures
        with_new_stacks(inv, next_id, key, cap, remaining).next_id >= next_id,
        remaining > 0 ==> with_new_stacks(inv, next_id, key, cap, remaining).next_id > next_id,
        with_new_stacks(inv, next_id, key, cap, remaining).next_id <= next_id + remaining,
    decreases remaining,
{
    if remaining > 0 {
        let size = if remaining < cap {
            remaining
        } else {
            cap
        };
        lemma_new_stacks_counter(
            inv.push(
                InventoryView {
                    id: next_id as u64,
                    player_id: key.player_id,
                    item_id: key.item_id,
                    rarity: key.rarity,
                    quantity: size as u32,
                },
            ),
            next_id + 1,
            key,
            cap,
            (remaining - size) as nat,
        );
    }
}

/// Topping up keeps a valid ledger valid.
pub proof fn lemma_topped_up_valid(inv: Seq<InventoryView>, key: StackKey, i: int, remaining: nat)
    requires
        ledger_valid(inv),
        0 <= i,
    ensures
        ledger_valid(topped_up(inv, key, capacity(key.item_id), i, remaining).stacks),
        topped_up(inv, key, capacity(key.item_id), i, remaining).left <= remaining,
    decreases inv.len() - i,
{
    let cap = capacity(key.item_id);
    if i >= inv.len() || remaining == 0 {
    } else if is_stack_of(inv[i], key) && inv[i].quantity < cap {
        let room = (cap - inv[i].quantity) as nat;
        let added = if remaining < room {
            remaining
        } else {
            room
        };
        let next = inv.update(i, with_quantity(inv[i], inv[i].quantity + added));
        assert forall|j: int| 0 <= j < next.len() implies 1 <= (#[trigger] next[j]).quantity
            <= capacity(next[j].item_id) by {
            if j != i {
                assert(next[j] == inv[j]);
            }
        }
        lemma_topped_up_valid(next, key, i + 1, (remaining - added) as nat);
    } else {
        lemma_topped_up_valid(inv, key, i + 1, remaining);
    }
}

/// New stacks keep a valid ledger valid: none is empty and none exceeds the
/// capacity of its item.
pub proof fn lemma_new_stacks_valid(
    inv: Seq<InventoryView>,
    next_id: nat,
    key: StackKey,
    remaining: nat,
)
    requires
        ledger_valid(inv),
    ensures
        ledger_valid(with_new_stacks(inv, next_id, key, capacity(key.item_id), remaining).stacks),
    decreases remaining,
{
    let cap = capacity(key.item_id);
    if remaining > 0 {
        let size = if remaining < cap {
            remaining
        } else {
            cap
        };
        let stack = InventoryView {
            id: next_id as u64,
            player_id: key.player_id,
            item_id: key.item_id,
            rarity: key.rarity,
            quantity: size as u32,
        };
        let next = inv.push(stack);
        assert forall|j: int| 0 <= j < next.len() implies 1 <= (#[trigger] next[j]).quantity
            <= capacity(next[j].item_id) by {
            if j < inv.len() {
                assert(next[j] == inv[j]);
            }
        }
        lemma_new_stacks_valid(next, next_id + 1, key, (remaining - size) as nat);
    }
}

/// Adding keeps a valid ledger valid.
pub proof fn lemma_add_valid(inv: Seq<InventoryView>, next_id: nat, key: StackKey, quantity: nat)
    requires
        ledger_valid(inv),
    ensures
        ledger_valid(after_add(inv, next_id, key, quantity).stacks),
{
    lemma_topped_up_valid(inv, key, 0, quantity);
    let topped = topped_up(inv, key, capacity(key.item_id), 0, quantity);
    lemma_new_stacks_valid(topped.stacks, next_id, key, topped.left);
}

/// Taking units out keeps a valid ledger valid: a stack that would become
/// empty is removed.
pub proof fn lemma_consumed_valid(inv: Seq<InventoryView>, key: StackKey, i: int, remaining: nat)
    requires
        ledger_valid(inv),
        0 <= i,
    ensures
        ledger_valid(consumed(inv, key, i, remaining)),
    decreases inv.len() - i,
{
    if i >= inv.len() || remaining == 0 {
    } else if is_stack_of(inv[i], key) {
        if inv[i].quantity <= remaining {
            let next = inv.remove(i);
            assert forall|j: int| 0 <= j < next.len() implies 1 <= (#[trigger] next[j]).quantity
                <= capacity(next[j].item_id) by {
                if j < i {
                    assert(next[j] == inv[j]);
                } else {
                    assert(next[j] == inv[j + 1]);
                }
            }
            lemma_consumed_valid(next, key, i, (remaining - inv[i].quantity) as nat);
        } else {
            let next = inv.update(i, with_quantity(inv[i], inv[i].quantity - remaining));
            assert forall|j: int| 0 <= j < next.len() implies 1 <= (#[trigger] next[j]).quantity
                <= capacity(next[j].item_id) by {
                if j != i {
                    assert(next[j] == inv[j]);
                }
            }
        }
    } else {
        lemma_consumed_valid(inv, key, i + 1, remaining);
    }
}

/// Removing keeps a valid ledger valid, whether it is carried out or not.
pub proof fn lemma_remove_valid(inv: Seq<InventoryView>, key: StackKey, quantity: nat)
    requires
        ledger_valid(inv),
    ensures
        match after_remove(inv, key, quantity) {
            Some(stacks) => ledger_valid(stacks),
            None => true,
        },
{
    lemma_consumed_valid(inv, key, 0, quantity);
}

/// A request to the ledger.
pub enum LedgerOp {
    Add { key: StackKey, quantity: nat },
    Remove { key: StackKey, quantity: nat },
}

/// The ledger after one request. A removal of more than is owned changes
/// nothing.
pub open spec fn after_op(ledger: Ledger, op: LedgerOp) -> Ledger {
    match op {
        LedgerOp::Add { key, quantity } => after_add(ledger.stacks, ledger.next_id, key, quantity),
        LedgerOp::Remove { key, quantity } => match after_remove(ledger.stacks, key, quantity) {
            Some(stacks) => Ledger { stacks, next_id: ledger.next_id },
            None => ledger,
        },
    }
}

/// The ledger after a sequence of requests.
pub open spec fn after_ops(ledger: Ledger, ops: Seq<LedgerOp>) -> Ledger
    decreases ops.len(),
{
    if ops.len() == 0 {
        ledger
    } else {
        after_op(after_ops(ledger, ops.drop_last()), ops.last())
    }
}

/// Whatever is added to and removed from a valid ledger, in whatever order,
/// every stack that results holds at least one unit and no more than the
/// capacity of its item.
pub proof fn lemma_ledger_stays_valid(ledger: Ledger, ops: Seq<LedgerOp>)
    requires
        ledger_valid(ledger.stacks),
    ensures
        ledger_valid(after_ops(ledger, ops).stacks),
    decreases ops.len(),
{
    if ops.len() > 0 {
        lemma_ledger_stays_valid(ledger, ops.drop_last());
        let before = after_ops(ledger, ops.drop_last());
        match ops.last() {
            LedgerOp::Add { key, quantity } => {
                lemma_add_valid(before.stacks, before.next_id, key, quantity);
            },
            LedgerOp::Remove { key, quantity } => {
                lemma_remove_valid(before.stacks, key, quantity);
            },
        }
    }
}

/// A removal that is turned down leaves what the player owns, of every item,
/// as it was.
pub proof fn lemma_rejected_remove_conserves(
    ledger: Ledger,
    key: StackKey,
    quantity: nat,
    other: StackKey,
)
    requires
        units_owned(ledger.stacks, key) < quantity,
    ensures
        after_op(ledger, LedgerOp::Remove { key, quantity }) == ledger,
        units_owned(after_op(ledger, LedgerOp::Remove { key, quantity }).stacks, other)
            == units_owned(ledger.stacks, other),
{
}

/// Replacing a stack changes the count of a key by what the new stack adds
/// to it less what the old one added.
pub proof fn lemma_total_update(
    inv: Seq<InventoryView>,
    i: int,
    stack: InventoryView,
    probe: StackKey,
    k: int,
)
    requires
        0 <= i < inv.len(),
        0 <= k,
    ensures
        total_from(inv.update(i, stack), probe, k) == if k <= i {
            total_from(inv, probe, k) + units_of(stack, probe) - units_of(inv[i], probe)
        } else {
            total_from(inv, probe, k) as int
        },
    decreases inv.len() - k,
{
    if k < inv.len() {
        lemma_total_update(inv, i, stack, probe, k + 1);
    }
}

/// A stack added at the end adds its units to the count of a key.
pub proof fn lemma_total_push(inv: Seq<InventoryView>, stack: InventoryView, probe: StackKey, k: int)
    requires
        0 <= k <= inv.len(),
    ensures
        total_from(inv.push(stack), probe, k) == total_from(inv, probe, k) + units_of(stack, probe),
    decreases inv.len() - k,
{
    if k < inv.len() {
        lemma_total_push(inv, stack, probe, k + 1);
    } else {
        assert(total_from(inv.push(stack), probe, k + 1) == 0);
    }
}

/// Removing a stack takes its units from the count of a key.
pub proof fn lemma_total_remove(inv: Seq<InventoryView>, i: int, probe: StackKey, k: int)
    requires
        0 <= i < inv.len(),
        0 <= k,
    ensures
        total_from(inv.remove(i), probe, k) == if k <= i {
            total_from(inv, probe, k) - units_of(inv[i], probe)
        } else {
            total_from(inv, probe, k + 1) as int
        },
    decreases inv.len() - k,
{
    let removed = inv.remove(i);
    if k < removed.len() {
        lemma_total_remove(inv, i, probe, k + 1);
        if k < i {
            assert(removed[k] == inv[k]);
        } else {
            assert(removed[k] == inv[k + 1]);
        }
    } else if k <= i {
        assert(total_from(inv, probe, k + 1) == 0);
    }
}

/// Topping up moves units from what remains into the stacks of the key, and
/// leaves the count of every other key as it was.
pub proof fn lemma_topped_up_total(
    inv: Seq<InventoryView>,
    key: StackKey,
    cap: nat,
    i: int,
    remaining: nat,
    probe: StackKey,
)
    requires
        0 <= i,
        cap <= u32::MAX,
    ensures
        units_owned(topped_up(inv, key, cap, i, remaining).stacks, probe) + (if probe == key {
            topped_up(inv, key, cap, i, remaining).left
        } else {
            0
        }) == units_owned(inv, probe) + (if probe == key {
            remaining
        } else {
            0
        }),
    decreases inv.len() - i,
{
    if i >= inv.len() || remaining == 0 {
    } else if is_stack_of(inv[i], key) && inv[i].quantity < cap {
        let room = (cap - inv[i].quantity) as nat;
        let added = if remaining < room {
            remaining
        } else {
            room
        };
        let stack = with_quantity(inv[i], inv[i].quantity + added);
        lemma_total_update(inv, i, stack, probe, 0);
        lemma_topped_up_total(inv.update(i, stack), key, cap, i + 1, (remaining - added) as nat, probe);
    } else {
        lemma_topped_up_total(inv, key, cap, i + 1, remaining, probe);
    }
}

/// New stacks hold exactly the units that remained, all of the key.
pub proof fn lemma_new_stacks_total(
    inv: Seq<InventoryView>,
    next_id: nat,
    key: StackKey,
    cap: nat,
    remaining: nat,
    probe: StackKey,
)
    requires
        1 <= cap <= u32::MAX,
    ensures
        units_owned(with_new_stacks(inv, next_id, key, cap, remaining).stacks, probe)
            == units_owned(inv, probe) + (if probe == key {
            remaining
        } else {
            0
        }),
    decreases remaining,
{
    if remaining > 0 {
        let size = if remaining < cap {
            remaining
        } else {
            cap
        };
        let stack = InventoryView {
            id: next_id as u64,
            player_id: key.player_id,
            item_id: key.item_id,
            rarity: key.rarity,
            quantity: size as u32,
        };
        lemma_total_push(inv, stack, probe, 0);
        lemma_new_stacks_total(
            inv.push(stack),
            next_id + 1,
            key,
            cap,
            (remaining - size) as nat,
            probe,
        );
    }
}

/// Adding units raises what the player owns of the item at the rarity by
/// exactly that many, and changes what is owned under no other key.
pub proof fn lemma_add_conserves(
    inv: Seq<InventoryView>,
    next_id: nat,
    key: StackKey,
    quantity: nat,
    probe: StackKey,
)
    ensures
        units_owned(after_add(inv, next_id, key, quantity).stacks, probe) == units_owned(
            inv,
            probe,
        ) + (if probe == key {
            quantity
        } else {
            0
        }),
{
    let cap = capacity(key.item_id);
    let topped = topped_up(inv, key, cap, 0, quantity);
    lemma_topped_up_total(inv, key, cap, 0, quantity, probe);
    lemma_new_stacks_total(topped.stacks, next_id, key, cap, topped.left, probe);
}

/// Taking out units that the stacks from index `i` on hold lowers the count
/// of the key by exactly that many, and changes the count of no other key.
pub proof fn lemma_consumed_total(
    inv: Seq<InventoryView>,
    key: StackKey,
    i: int,
    remaining: nat,
    probe: StackKey,
)
    requires
        0 <= i,
        remaining <= total_from(inv, key, i),
    ensures
        units_owned(consumed(inv, key, i, remaining), probe) == units_owned(inv, probe) - (
        if probe == key {
            remaining
        } else {
            0
        }),
    decreases inv.len() - i,
{
    if i >= inv.len() || remaining == 0 {
    } else if is_stack_of(inv[i], key) {
        if inv[i].quantity <= remaining {
            lemma_total_remove(inv, i, probe, 0);
            lemma_total_remove(inv, i, key, i);
            lemma_consumed_total(
                inv.remove(i),
                key,
                i,
                (remaining - inv[i].quantity) as nat,
                probe,
            );
        } else {
            lemma_total_update(
                inv,
                i,
                with_quantity(inv[i], inv[i].quantity - remaining),
                probe,
                0,
            );
        }
    } else {
        lemma_consumed_total(inv, key, i + 1, remaining, probe);
    }
}

/// A removal that is carried out lowers what the player owns of the item at
/// the rarity by exactly the quantity, and changes what is owned under no
/// other key.
pub proof fn lemma_remove_conserves(
    inv: Seq<InventoryView>,
    key: StackKey,
    quantity: nat,
    probe: StackKey,
)
    requires
        units_owned(inv, key) >= quantity,
    ensures
        after_remove(inv, key, quantity) matches Some(stacks) && units_owned(stacks, probe)
            == units_owned(inv, probe) - (if probe == key {
            quantity
        } else {
            0
        }),
{
    lemma_consumed_total(inv, key, 0, quantity, probe);
}

/// Adding units and then removing as many leaves what the player owns of the
/// item at the rarity as it was.
pub proof fn lemma_add_then_remove(
    inv: Seq<InventoryView>,
    next_id: nat,
    key: StackKey,
    quantity: nat,
)
    ensures
        after_remove(after_add(inv, next_id, key, quantity).stacks, key, quantity) matches Some(
            stacks,
        ) && units_owned(stacks, key) == units_owned(inv, key),
{
    lemma_add_conserves(inv, next_id, key, quantity, key);
    lemma_remove_conserves(after_add(inv, next_id, key, quantity).stacks, key, quantity, key);
}

// ---------------------------------------------------------------------------
// Executable ledger
// ---------------------------------------------------------------------------
/// The key of the stacks of a player, an item and a rarity.
pub open spec fn key_of(player_id: &String, item_id: &String, rarity: u8) -> StackKey {
    StackKey { player_id: player_id@, item_id: item_id@, rarity }
}

fn row_is_stack_of(row: &Inventory, player_id: &String, item_id: &String, rarity: u8) -> (r: bool)
    ensures
        r == is_stack_of(row@, key_of(player_id, item_id, rarity)),
{
    row.player_id == *player_id && row.item_id == *item_id && row.rarity == rarity
}

/// Counts the units that a player owns of an item at a rarity.
pub fn count_units(inv: &Vec<Inventory>, player_id: &String, item_id: &String, rarity: u8) -> (r:
    u128)
    ensures
        r == units_owned(inventory_view(inv@), key_of(player_id, item_id, rarity)),
{
    let ghost key = key_of(player_id, item_id, rarity);
    let ghost stacks = inventory_view(inv@);
    let mut total: u128 = 0;
    let mut i: usize = inv.len();
    while i > 0
        invariant
            i <= inv.len(),
            stacks == inventory_view(inv@),
            key == key_of(player_id, item_id, rarity),
            total == total_from(stacks, key, i as int),
            total <= (inv.len() - i) * 0xFFFF_FFFF,
        decreases i,
    {
        i -= 1;
        if row_is_stack_of(&inv[i], player_id, item_id, rarity) {
            total += inv[i].quantity as u128;
        }
    }
    total
}

/// Whether a player owns at least one unit of an item, at whatever rarity.
pub fn has_item(inv: &Vec<Inventory>, player_id: &String, item_id: &String) -> (r: bool)
    ensures
        r == owns_item(inventory_view(inv@), player_id@, item_id@),
{
    let ghost stacks = inventory_view(inv@);
    let mut i: usize = inv.len();
    while i > 0
        invariant
            i <= inv.len(),
            stacks == inventory_view(inv@),
            item_units_from(stacks, player_id@, item_id@, i as int) == 0,
        decreases i,
    {
        i -= 1;
        if inv[i].player_id == *player_id && inv[i].item_id == *item_id && inv[i].quantity > 0 {
            proof {
                lemma_item_units_grow(stacks, player_id@, item_id@, 0, i as int);
            }
            return true;
        }
    }
    false
}

/// A stack of the item that holds units makes the count from any index
/// before it positive.
pub proof fn lemma_item_units_grow(
    inv: Seq<InventoryView>,
    player_id: Seq<char>,
    item_id: Seq<char>,
    i: int,
    k: int,
)
    requires
        0 <= i <= k < inv.len(),
        inv[k].player_id == player_id,
        inv[k].item_id == item_id,
        inv[k].quantity > 0,
    ensures
        item_units_from(inv, player_id, item_id, i) > 0,
    decreases k - i,
{
    if i < k {
        lemma_item_units_grow(inv, player_id, item_id, i + 1, k);
    }
}

/// Counts the stacks that belong to a player.
pub fn count_stacks(inv: &Vec<Inventory>, player_id: &String) -> (r: usize)
    ensures
        r == stacks_of_player(inventory_view(inv@), player_id@),
{
    let ghost stacks = inventory_view(inv@);
    let mut count: usize = 0;
    let mut i: usize = 0;
    while i < inv.len()
        invariant
            i <= inv.len(),
            stacks == inventory_view(inv@),
            count == stacks_of_player(stacks.take(i as int), player_id@),
            count <= i,
        decreases inv.len() - i,
    {
        assert(stacks.take(i + 1).drop_last() =~= stacks.take(i as int));
        if inv[i].player_id == *player_id {
            count += 1;
        }
        i += 1;
    }
    assert(stacks.take(inv.len() as int) =~= stacks);
    count
}

/// Adds `quantity` units of an item to a player's stacks: tops up the stacks
/// that have room, in order, and opens new stacks for the rest.
pub fn put_units(
    inv: &mut Vec<Inventory>,
    next_id: &mut u64,
    player_id: &String,
    item_id: &String,
    rarity: u8,
    quantity: u32,
)
    requires
        after_add(
            inventory_view(old(inv)@),
            *old(next_id) as nat,
            key_of(player_id, item_id, rarity),
            quantity as nat,
        ).next_id <= u64::MAX,
    ensures
        inventory_view(final(inv)@) == after_add(
            inventory_view(old(inv)@),
            *old(next_id) as nat,
            key_of(player_id, item_id, rarity),
            quantity as nat,
        ).stacks,
        *final(next_id) == after_add(
            inventory_view(old(inv)@),
            *old(next_id) as nat,
            key_of(player_id, item_id, rarity),
            quantity as nat,
        ).next_id,
{
    let ghost key = key_of(player_id, item_id, rarity);
    let cap: u32 = get_max_stack_size(item_id.as_str());
    let ghost topped = topped_up(inventory_view(inv@), key, cap as nat, 0, quantity as nat);
    let mut remaining: u32 = quantity;
    let mut i: usize = 0;
    while i < inv.len() && remaining > 0
        invariant
            i <= inv.len(),
            key == key_of(player_id, item_id, rarity),
            topped == topped_up(inventory_view(inv@), key, cap as nat, i as int, remaining as nat),
        decreases inv.len() - i,
    {
        if row_is_stack_of(&inv[i], player_id, item_id, rarity) && inv[i].quantity < cap {
            let room: u32 = cap - inv[i].quantity;
            let added: u32 = if remaining < room {
                remaining
            } else {
                room
            };
            let ghost before = inventory_view(inv@);
            inv[i].quantity = inv[i].quantity + added;
            remaining = remaining - added;
            assert(inventory_view(inv@) =~= before.update(
                i as int,
                with_quantity(before[i as int], before[i as int].quantity + added),
            ));
        }
        i += 1;
    }
    let ghost grown = with_new_stacks(topped.stacks, *next_id as nat, key, cap as nat, topped.left);
    while remaining > 0
        invariant
            cap >= 1,
            key == key_of(player_id, item_id, rarity),
            grown == with_new_stacks(
                inventory_view(inv@),
                *next_id as nat,
                key,
                cap as nat,
                remaining as nat,
            ),
            grown.next_id <= u64::MAX,
        decreases remaining,
    {
        let size: u32 = if remaining < cap {
            remaining
        } else {
            cap
        };
        let ghost before = inventory_view(inv@);
        let ghost stack = InventoryView {
            id: *next_id,
            player_id: key.player_id,
            item_id: key.item_id,
            rarity: key.rarity,
            quantity: size,
        };
        proof {
            lemma_new_stacks_counter(
                before.push(stack),
                (*next_id + 1) as nat,
                key,
                cap as nat,
                (remaining - size) as nat,
            );
        }
        inv.push(
            Inventory {
                id: *next_id,
                player_id: player_id.clone(),
                item_id: item_id.clone(),
                rarity,
                quantity: size,
            },
        );
        assert(inventory_view(inv@) =~= before.push(stack));
        *next_id = *next_id + 1;
        remaining = remaining - size;
    }
}

/// Takes `quantity` units of an item out of a player's stacks, in order, or
/// nothing at all where the player owns fewer.
pub fn take_units(
    inv: &mut Vec<Inventory>,
    player_id: &String,
    item_id: &String,
    rarity: u8,
    quantity: u32,
) -> (r: Result<(), Rejection>)
    ensures
        match r {
            Ok(_) => after_remove(
                inventory_view(old(inv)@),
                key_of(player_id, item_id, rarity),
                quantity as nat,
            ) == Some(inventory_view(final(inv)@)),
            Err(e) => e == Rejection::InsufficientQuantity && after_remove(
                inventory_view(old(inv)@),
                key_of(player_id, item_id, rarity),
                quantity as nat,
            ) is None && final(inv)@ == old(inv)@,
        },
{
    let ghost key = key_of(player_id, item_id, rarity);
    if count_units(inv, player_id, item_id, rarity) < quantity as u128 {
        return Err(Rejection::InsufficientQuantity);
    }
    let ghost goal = consumed(inventory_view(inv@), key, 0, quantity as nat);
    let mut remaining: u32 = quantity;
    let mut i: usize = 0;
    while i < inv.len() && remaining > 0
        invariant
            i <= inv.len(),
            key == key_of(player_id, item_id, rarity),
            goal == consumed(inventory_view(inv@), key, i as int, remaining as nat),
        decreases inv.len() - i,
    {
        if row_is_stack_of(&inv[i], player_id, item_id, rarity) {
            let held: u32 = inv[i].quantity;
            let ghost before = inventory_view(inv@);
            if held <= remaining {
                inv.remove(i);
                remaining = remaining - held;
                assert(inventory_view(inv@) =~= before.remove(i as int));
            } else {
                inv[i].quantity = held - remaining;
                assert(inventory_view(inv@) =~= before.update(
                    i as int,
                    with_quantity(before[i as int], before[i as int].quantity - remaining),
                ));
                remaining = 0;
                i += 1;
            }
        } else {
            i += 1;
        }
    }
    Ok(())
}

/// The number of stacks that units which found no room open: one for every
/// `cap` units, and one for what is left.
pub open spec fn stacks_needed(remaining: nat, cap: nat) -> nat {
    if cap == 0 {
        0
    } else {
        ((remaining + cap - 1) / (cap as int)) as nat
    }
}

/// New stacks raise the counter by the number of stacks needed.
pub proof fn lemma_new_stacks_count(
    inv: Seq<InventoryView>,
    next_id: nat,
    key: StackKey,
    cap: nat,
    remaining: nat,
)
    requires
        cap >= 1,
    ensures
        with_new_stacks(inv, next_id, key, cap, remaining).next_id == next_id + stacks_needed(
            remaining,
            cap,
        ),
    decreases remaining,
{
    if remaining == 0 {
        assert((cap - 1) / (cap as int) == 0) by (nonlinear_arith)
            requires
                cap >= 1,
        ;
    } else {
        let size = if remaining < cap {
            remaining
        } else {
            cap
        };
        let stack = InventoryView {
            id: next_id as u64,
            player_id: key.player_id,
            item_id: key.item_id,
            rarity: key.rarity,
            quantity: size as u32,
        };
        lemma_new_stacks_count(inv.push(stack), next_id + 1, key, cap, (remaining - size) as nat);
        if remaining < cap {
            assert((cap - 1) / (cap as int) == 0) by (nonlinear_arith)
                requires
                    cap >= 1,
            ;
            assert((remaining + cap - 1) / (cap as int) == 1) by (nonlinear_arith)
                requires
                    1 <= remaining < cap,
            ;
        } else {
            vstd::arithmetic::div_mod::lemma_div_plus_one(remaining - cap + cap - 1, cap as int);
        }
    }
}

/// What topping up leaves over depends on the stacks from index `i` on only.
pub proof fn lemma_left_over_from_later_stacks(
    a: Seq<InventoryView>,
    b: Seq<InventoryView>,
    key: StackKey,
    cap: nat,
    i: int,
    remaining: nat,
)
    requires
        0 <= i,
        a.len() == b.len(),
        forall|k: int| i <= k < a.len() ==> a[k] == b[k],
    ensures
        topped_up(a, key, cap, i, remaining).left == topped_up(b, key, cap, i, remaining).left,
    decreases a.len() - i,
{
    if i >= a.len() || remaining == 0 {
    } else if is_stack_of(a[i], key) && a[i].quantity < cap {
        let room = (cap - a[i].quantity) as nat;
        let added = if remaining < room {
            remaining
        } else {
            room
        };
        let stack = with_quantity(a[i], a[i].quantity + added);
        lemma_left_over_from_later_stacks(
            a.update(i, stack),
            b.update(i, stack),
            key,
            cap,
            i + 1,
            (remaining - added) as nat,
        );
    } else {
        lemma_left_over_from_later_stacks(a, b, key, cap, i + 1, remaining);
    }
}

/// The units that find no room in the stacks of the player, item and rarity.
pub fn units_left_over(
    inv: &Vec<Inventory>,
    player_id: &String,
    item_id: &String,
    rarity: u8,
    quantity: u32,
) -> (left: u32)
    ensures
        left == topped_up(
            inventory_view(inv@),
            key_of(player_id, item_id, rarity),
            capacity(item_id@),
            0,
            quantity as nat,
        ).left,
{
    let ghost key = key_of(player_id, item_id, rarity);
    let ghost stacks = inventory_view(inv@);
    let cap: u32 = get_max_stack_size(item_id.as_str());
    let mut remaining: u32 = quantity;
    let mut i: usize = 0;
    while i < inv.len() && remaining > 0
        invariant
            i <= inv.len(),
            stacks == inventory_view(inv@),
            key == key_of(player_id, item_id, rarity),
            topped_up(stacks, key, cap as nat, 0, quantity as nat).left == topped_up(
                stacks,
                key,
                cap as nat,
                i as int,
                remaining as nat,
            ).left,
        decreases inv.len() - i,
    {
        if row_is_stack_of(&inv[i], player_id, item_id, rarity) && inv[i].quantity < cap {
            let room: u32 = cap - inv[i].quantity;
            let added: u32 = if remaining < room {
                remaining
            } else {
                room
            };
            proof {
                let stack = with_quantity(stacks[i as int], stacks[i as int].quantity + added);
                lemma_left_over_from_later_stacks(
                    stacks.update(i as int, stack),
                    stacks,
                    key,
                    cap as nat,
                    i + 1,
                    (remaining - added) as nat,
                );
            }
            remaining = remaining - added;
        }
        i += 1;
    }
    remaining
}

/// Whether the counter of stacks has room for the stacks that adding the
/// units opens.
pub fn can_put_units(
    inv: &Vec<Inventory>,
    next_id: u64,
    player_id: &String,
    item_id: &String,
    rarity: u8,
    quantity: u32,
) -> (r: bool)
    ensures
        r == (after_add(
            inventory_view(inv@),
            next_id as nat,
            key_of(player_id, item_id, rarity),
            quantity as nat,
        ).next_id <= u64::MAX),
{
    let left = units_left_over(inv, player_id, item_id, rarity, quantity);
    let cap: u32 = get_max_stack_size(item_id.as_str());
    proof {
        let key = key_of(player_id, item_id, rarity);
        let topped = topped_up(inventory_view(inv@), key, cap as nat, 0, quantity as nat);
        lemma_new_stacks_count(topped.stacks, next_id as nat, key, cap as nat, left as nat);
    }
    let stacks: u64 = (left as u64 + cap as u64 - 1) / (cap as u64);
    stacks <= u64::MAX - next_id
}

} // verus!

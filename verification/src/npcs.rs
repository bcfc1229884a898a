//! The characters of the world and what passes between them and players.

use crate::store::{
    npc_interactions_view, npcs_view, string_is, Npc, NpcView, PlayerNpcInteraction,
    PlayerNpcInteractionView, Rejection, World, WorldView,
};
use vstd::prelude::*;

verus! {

/// The index of the first character, from index `i` on, with the id.
pub open spec fn npc_index_from(npcs: Seq<NpcView>, id: Seq<char>, i: int) -> Option<int>
    decreases npcs.len() - i,
{
    if i < 0 || i >= npcs.len() {
        None
    } else if npcs[i].id == id {
        Some(i)
    } else {
        npc_index_from(npcs, id, i + 1)
    }
}

/// The index of the character.
pub open spec fn npc_index(npcs: Seq<NpcView>, id: Seq<char>) -> Option<int> {
    npc_index_from(npcs, id, 0)
}

/// The index of the first row, from index `i` on, of the player and the
/// character.
pub open spec fn interaction_index_from(
    rows: Seq<PlayerNpcInteractionView>,
    player_id: Seq<char>,
    npc_id: Seq<char>,
    i: int,
) -> Option<int>
    decreases rows.len() - i,
{
    if i < 0 || i >= rows.len() {
        None
    } else if rows[i].player_id == player_id && rows[i].npc_id == npc_id {
        Some(i)
    } else {
        interaction_index_from(rows, player_id, npc_id, i + 1)
    }
}

/// The index of the row of the player and the character.
pub open spec fn interaction_index(
    rows: Seq<PlayerNpcInteractionView>,
    player_id: Seq<char>,
    npc_id: Seq<char>,
) -> Option<int> {
    interaction_index_from(rows, player_id, npc_id, 0)
}

/// The rows without those, from index `i` on, that are of the character.
pub open spec fn without_npc(rows: Seq<PlayerNpcInteractionView>, npc_id: Seq<char>, i: int) -> Seq<
    PlayerNpcInteractionView,
>
    decreases rows.len() - i,
{
    if i < 0 || i >= rows.len() {
        rows
    } else if rows[i].npc_id == npc_id {
        without_npc(rows.remove(i), npc_id, i)
    } else {
        without_npc(rows, npc_id, i + 1)
    }
}

/// The row after the player and the character met again at `now`: talking
/// is counted, trading is noted, and any other kind of meeting only sets the
/// time.
pub open spec fn met_again(row: PlayerNpcInteractionView, kind: Seq<char>, now: i64) -> PlayerNpcInteractionView {
    if kind == "talked"@ {
        PlayerNpcInteractionView {
            has_talked: true,
            talk_count: (row.talk_count + 1) as u32,
            last_interaction_at: now,
            ..row
        }
    } else if kind == "traded"@ {
        PlayerNpcInteractionView { has_traded: true, last_interaction_at: now, ..row }
    } else {
        PlayerNpcInteractionView { last_interaction_at: now, ..row }
    }
}

/// The row of a player and a character that meet for the first time at `now`.
pub open spec fn first_meeting(
    id: u64,
    player_id: Seq<char>,
    npc_id: Seq<char>,
    kind: Seq<char>,
    now: i64,
) -> PlayerNpcInteractionView {
    PlayerNpcInteractionView {
        id,
        player_id,
        npc_id,
        has_talked: kind == "talked"@,
        has_traded: kind == "traded"@,
        talk_count: if kind == "talked"@ {
            1
        } else {
            0
        },
        reputation: 0,
        first_interaction_at: now,
        last_interaction_at: now,
    }
}

/// The world after a player and a character met at `now`.
pub open spec fn after_interaction(
    w: WorldView,
    player_id: Seq<char>,
    npc_id: Seq<char>,
    kind: Seq<char>,
    now: i64,
) -> WorldView {
    match interaction_index(w.npc_interactions, player_id, npc_id) {
        Some(i) => WorldView {
            npc_interactions: w.npc_interactions.update(
                i,
                met_again(w.npc_interactions[i], kind, now),
            ),
            ..w
        },
        None => WorldView {
            npc_interactions: w.npc_interactions.push(
                first_meeting(w.next_npc_interaction_id, player_id, npc_id, kind, now),
            ),
            next_npc_interaction_id: (w.next_npc_interaction_id + 1) as u64,
            ..w
        },
    }
}

/// The counters that the meeting raises have room.
pub open spec fn interaction_fits(
    w: WorldView,
    player_id: Seq<char>,
    npc_id: Seq<char>,
    kind: Seq<char>,
) -> bool {
    npc_index(w.npcs, npc_id) is Some ==> match interaction_index(
        w.npc_interactions,
        player_id,
        npc_id,
    ) {
        Some(i) => kind == "talked"@ ==> w.npc_interactions[i].talk_count < u32::MAX,
        None => w.next_npc_interaction_id < u64::MAX,
    }
}

/// Finds the character.
pub fn find_npc(npcs: &Vec<Npc>, id: &String) -> (r: Option<usize>)
    ensures
        match r {
            Some(i) => npc_index(npcs_view(npcs@), id@) == Some(i as int) && i < npcs.len(),
            None => npc_index(npcs_view(npcs@), id@) is None,
        },
{
    let mut i: usize = 0;
    while i < npcs.len()
        invariant
            i <= npcs.len(),
            npc_index(npcs_view(npcs@), id@) == npc_index_from(npcs_view(npcs@), id@, i as int),
        decreases npcs.len() - i,
    {
        if npcs[i].id == *id {
            return Some(i);
        }
        i += 1;
    }
    None
}

fn find_interaction(rows: &Vec<PlayerNpcInteraction>, player_id: &String, npc_id: &String) -> (r:
    Option<usize>)
    ensures
        match r {
            Some(i) => interaction_index(npc_interactions_view(rows@), player_id@, npc_id@)
                == Some(i as int) && i < rows.len(),
            None => interaction_index(npc_interactions_view(rows@), player_id@, npc_id@) is None,
        },
{
    let mut i: usize = 0;
    while i < rows.len()
        invariant
            i <= rows.len(),
            interaction_index(npc_interactions_view(rows@), player_id@, npc_id@)
                == interaction_index_from(
                npc_interactions_view(rows@),
                player_id@,
                npc_id@,
                i as int,
            ),
        decreases rows.len() - i,
    {
        if rows[i].player_id == *player_id && rows[i].npc_id == *npc_id {
            return Some(i);
        }
        i += 1;
    }
    None
}

/// Records that a player talked to or traded with a character.
/// `interaction_type` is `talked` or `traded`. Turned down where the
/// character is unknown.
pub fn record_npc_interaction(
    w: &mut World,
    player_id: &str,
    npc_id: &str,
    interaction_type: &str,
    now: i64,
) -> (r: Result<(), Rejection>)
    requires
        interaction_fits(old(w)@, player_id@, npc_id@, interaction_type@),
    ensures
        match r {
            Ok(_) => npc_index(old(w)@.npcs, npc_id@) is Some && final(w)@ == after_interaction(
                old(w)@,
                player_id@,
                npc_id@,
                interaction_type@,
                now,
            ),
            Err(e) => e == Rejection::NotFound && npc_index(old(w)@.npcs, npc_id@) is None
                && final(w)@ == old(w)@,
        },
{
    let pid = player_id.to_owned();
    let nid = npc_id.to_owned();
    if find_npc(&w.npcs, &nid).is_none() {
        return Err(Rejection::NotFound);
    }
    let kind = interaction_type.to_owned();
    let talked = string_is(&kind, "talked");
    let traded = string_is(&kind, "traded");
    proof {
        reveal_strlit("talked");
        reveal_strlit("traded");
        assert("talked"@[1] != "traded"@[1]);
    }
    let ghost rows = w@.npc_interactions;
    match find_interaction(&w.npc_interactions, &pid, &nid) {
        Some(i) => {
            assert(rows[i as int] == w.npc_interactions[i as int]@);
            if talked {
                w.npc_interactions[i].has_talked = true;
                w.npc_interactions[i].talk_count = w.npc_interactions[i].talk_count + 1;
            } else if traded {
                w.npc_interactions[i].has_traded = true;
            }
            w.npc_interactions[i].last_interaction_at = now;
            assert(w@.npc_interactions =~= rows.update(
                i as int,
                met_again(rows[i as int], interaction_type@, now),
            ));
        },
        None => {
            w.npc_interactions.push(
                PlayerNpcInteraction {
                    id: w.next_npc_interaction_id,
                    player_id: pid,
                    npc_id: nid,
                    has_talked: talked,
                    has_traded: traded,
                    talk_count: if talked {
                        1
                    } else {
                        0
                    },
                    reputation: 0,
                    first_interaction_at: now,
                    last_interaction_at: now,
                },
            );
            assert(w@.npc_interactions =~= rows.push(
                first_meeting(
                    w.next_npc_interaction_id,
                    player_id@,
                    npc_id@,
                    interaction_type@,
                    now,
                ),
            ));
            w.next_npc_interaction_id = w.next_npc_interaction_id + 1;
        },
    }
    Ok(())
}

/// Creates a character. Turned down where one with the id exists.
pub fn admin_create_npc(w: &mut World, npc: Npc) -> (r: Result<(), Rejection>)
    ensures
        match r {
            Ok(_) => npc_index(old(w)@.npcs, npc@.id) is None && final(w)@ == (WorldView {
                npcs: old(w)@.npcs.push(npc@),
                ..old(w)@
            }),
            Err(e) => e == Rejection::AlreadyExists && npc_index(old(w)@.npcs, npc@.id) is Some
                && final(w)@ == old(w)@,
        },
{
    if find_npc(&w.npcs, &npc.id).is_some() {
        return Err(Rejection::AlreadyExists);
    }
    let ghost before = w@.npcs;
    let ghost added = npc@;
    w.npcs.push(npc);
    assert(w@.npcs =~= before.push(added));
    Ok(())
}

/// Replaces the character that has the id of `npc`. Turned down where there
/// is none.
pub fn admin_update_npc(w: &mut World, npc: Npc) -> (r: Result<(), Rejection>)
    ensures
        match r {
            Ok(_) => match npc_index(old(w)@.npcs, npc@.id) {
                Some(i) => final(w)@ == (WorldView {
                    npcs: old(w)@.npcs.update(i, npc@),
                    ..old(w)@
                }),
                None => false,
            },
            Err(e) => e == Rejection::NotFound && npc_index(old(w)@.npcs, npc@.id) is None
                && final(w)@ == old(w)@,
        },
{
    match find_npc(&w.npcs, &npc.id) {
        Some(i) => {
            let ghost before = w@.npcs;
            let ghost changed = npc@;
            w.npcs[i] = npc;
            assert(w@.npcs =~= before.update(i as int, changed));
            Ok(())
        },
        None => Err(Rejection::NotFound),
    }
}

/// Removes a character and every player's row of it. Turned down where no
/// character has the id.
pub fn admin_delete_npc(w: &mut World, id: &str) -> (r: Result<(), Rejection>)
    ensures
        match r {
            Ok(_) => match npc_index(old(w)@.npcs, id@) {
                Some(i) => final(w)@ == (WorldView {
                    npcs: old(w)@.npcs.remove(i),
                    npc_interactions: without_npc(old(w)@.npc_interactions, id@, 0),
                    ..old(w)@
                }),
                None => false,
            },
            Err(e) => e == Rejection::NotFound && npc_index(old(w)@.npcs, id@) is None
                && final(w)@ == old(w)@,
        },
{
    let nid = id.to_owned();
    match find_npc(&w.npcs, &nid) {
        Some(n) => {
            let ghost before = w@.npcs;
            w.npcs.remove(n);
            assert(w@.npcs =~= before.remove(n as int));
            let ghost start = w@;
            let mut i: usize = 0;
            while i < w.npc_interactions.len()
                invariant
                    i <= w.npc_interactions.len(),
                    nid@ == id@,
                    without_npc(start.npc_interactions, id@, 0) == without_npc(
                        w@.npc_interactions,
                        id@,
                        i as int,
                    ),
                    w@ == (WorldView { npc_interactions: w@.npc_interactions, ..start }),
                decreases w.npc_interactions.len() - i,
            {
                let ghost rows = w@.npc_interactions;
                assert(rows[i as int] == w.npc_interactions[i as int]@);
                if w.npc_interactions[i].npc_id == nid {
                    w.npc_interactions.remove(i);
                    assert(w@.npc_interactions =~= rows.remove(i as int));
                } else {
                    i += 1;
                }
            }
            Ok(())
        },
        None => Err(Rejection::NotFound),
    }
}

/// Whether the counters that the meeting raises have room.
pub fn can_record_npc_interaction(
    w: &World,
    player_id: &str,
    npc_id: &str,
    interaction_type: &str,
) -> (r: bool)
    ensures
        r == interaction_fits(w@, player_id@, npc_id@, interaction_type@),
{
    let pid = player_id.to_owned();
    let nid = npc_id.to_owned();
    if find_npc(&w.npcs, &nid).is_none() {
        return true;
    }
    match find_interaction(&w.npc_interactions, &pid, &nid) {
        Some(i) => {
            assert(w@.npc_interactions[i as int] == w.npc_interactions[i as int]@);
            let kind = interaction_type.to_owned();
            !string_is(&kind, "talked") || w.npc_interactions[i].talk_count < u32::MAX
        },
        None => w.next_npc_interaction_id < u64::MAX,
    }
}

} // verus!

//! Player accounts: entering and leaving the world, and display names.
//!
//! Where a player stands in the world is kept outside these tables. A new
//! account is placed by the caller at the spawn point that the transaction
//! names.

use crate::sessions::{
    after_session_end, after_session_start, end_session, session_end_fits, session_start_fits,
    start_session,
};
use crate::store::{
    active_session_index, find_player, player_index, Player, PlayerView, Rejection, World,
    WorldView,
};
use vstd::prelude::*;
use vstd::utf8::encode_utf8;

verus! {

/// The colour of an account that is created by naming the player.
pub const DEFAULT_PLAYER_COLOR: u32 = 0xFFE74C3C;

/// The sum of the bytes from index `i` on.
pub open spec fn byte_sum(bytes: Seq<u8>, i: int) -> nat
    decreases bytes.len() - i,
{
    if i < 0 || i >= bytes.len() {
        0
    } else {
        bytes[i] as nat + byte_sum(bytes, i + 1)
    }
}

/// The spawn point of a new player, out of `spawn_points` many: the sum of
/// the bytes of the player's id in UTF-8, modulo their number. None where
/// there is no spawn point.
pub open spec fn spawn_choice(player_id: Seq<char>, spawn_points: nat) -> Option<nat> {
    if spawn_points == 0 {
        None
    } else {
        Some(byte_sum(encode_utf8(player_id), 0) % spawn_points)
    }
}

/// How a player came to be in the tables.
#[derive(Clone, Copy, Debug, PartialEq, Eq)]
pub enum Arrival {
    /// The player had an account.
    Returned,
    /// An account was created. The player is to be placed at the spawn point
    /// with this index, or at the centre of the world if there is none.
    Spawned { spawn_point: Option<usize> },
}

/// A new account.
pub open spec fn new_player(
    id: Seq<char>,
    name: Seq<char>,
    color: u32,
    is_online: bool,
    now: i64,
) -> PlayerView {
    PlayerView { id, name, color, is_online, gold: 0, equipped_pole_id: None, last_updated: now }
}

/// The world after a player joins at `now`: the account is online (created
/// with no gold where there was none), and a session of the player starts.
pub open spec fn after_join(
    w: WorldView,
    player_id: Seq<char>,
    name: Seq<char>,
    color: u32,
    now: i64,
) -> WorldView {
    let players = match player_index(w.players, player_id) {
        Some(i) => w.players.update(
            i,
            PlayerView { is_online: true, last_updated: now, ..w.players[i] },
        ),
        None => w.players.push(new_player(player_id, name, color, true, now)),
    };
    after_session_start(WorldView { players, ..w }, player_id, now)
}

/// The world after the player at index `i` leaves at `now`: the account is
/// offline, and the running session of the player, if any, ends.
pub open spec fn after_leave(w: WorldView, i: int, now: i64) -> WorldView {
    let offline = WorldView {
        players: w.players.update(
            i,
            PlayerView { is_online: false, last_updated: now, ..w.players[i] },
        ),
        ..w
    };
    match active_session_index(w.sessions, w.players[i].id) {
        Some(s) => after_session_end(offline, w.players[i].id, s, now),
        None => offline,
    }
}

/// The world after a player is named at `now`: the account bears the name;
/// where there was none, one is created, offline and in the default colour.
pub open spec fn after_naming(w: WorldView, player_id: Seq<char>, name: Seq<char>, now: i64) -> WorldView {
    WorldView {
        players: match player_index(w.players, player_id) {
            Some(i) => w.players.update(
                i,
                PlayerView { name, last_updated: now, ..w.players[i] },
            ),
            None => w.players.push(
                new_player(player_id, name, DEFAULT_PLAYER_COLOR, false, now),
            ),
        },
        ..w
    }
}

/// Chooses the spawn point of a new player.
pub fn choose_spawn_point(player_id: &str, spawn_points: usize) -> (r: Option<usize>)
    ensures
        match r {
            Some(k) => spawn_choice(player_id@, spawn_points as nat) == Some(k as nat),
            None => spawn_choice(player_id@, spawn_points as nat) is None,
        },
{
    if spawn_points == 0 {
        return None;
    }
    let bytes = player_id.as_bytes();
    let mut sum: u128 = 0;
    let mut i: usize = bytes.len();
    while i > 0
        invariant
            i <= bytes.len(),
            sum == byte_sum(bytes@, i as int),
            sum <= (bytes.len() - i) * 255,
        decreases i,
    {
        i -= 1;
        sum += bytes[i] as u128;
    }
    Some((sum % (spawn_points as u128)) as usize)
}

/// Brings a player into the world. An account that exists is kept as it is
/// and marked online; otherwise one is created under the name and colour.
/// Either way a session of the player starts.
pub fn join_world(
    w: &mut World,
    player_id: &str,
    name: &str,
    color: u32,
    spawn_points: usize,
    now: i64,
) -> (r: Arrival)
    requires
        session_start_fits(old(w)@, player_id@),
    ensures
        final(w)@ == after_join(old(w)@, player_id@, name@, color, now),
        match r {
            Arrival::Returned => player_index(old(w)@.players, player_id@) is Some,
            Arrival::Spawned { spawn_point } => player_index(old(w)@.players, player_id@) is None
                && match spawn_point {
                Some(k) => spawn_choice(player_id@, spawn_points as nat) == Some(k as nat),
                None => spawn_choice(player_id@, spawn_points as nat) is None,
            },
        },
{
    let pid = player_id.to_owned();
    let ghost players_before = w@.players;
    let arrival = match find_player(&w.players, &pid) {
        Some(i) => {
            assert(players_before[i as int] == w.players[i as int]@);
            w.players[i].is_online = true;
            w.players[i].last_updated = now;
            assert(w@.players =~= players_before.update(
                i as int,
                PlayerView { is_online: true, last_updated: now, ..players_before[i as int] },
            ));
            Arrival::Returned
        },
        None => {
            let spawn_point = choose_spawn_point(player_id, spawn_points);
            w.players.push(
                Player {
                    id: pid,
                    name: name.to_owned(),
                    color,
                    is_online: true,
                    gold: 0,
                    equipped_pole_id: None,
                    last_updated: now,
                },
            );
            assert(w@.players =~= players_before.push(
                new_player(player_id@, name@, color, true, now),
            ));
            Arrival::Spawned { spawn_point }
        },
    };
    start_session(w, player_id, now);
    arrival
}

/// Takes a player out of the world: marks the account offline and ends the
/// running session of the player. Turned down where the player has no account.
pub fn leave_world(w: &mut World, player_id: &str, now: i64) -> (r: Result<(), Rejection>)
    requires
        session_end_fits(old(w)@, player_id@, now),
    ensures
        match r {
            Ok(_) => match player_index(old(w)@.players, player_id@) {
                Some(i) => final(w)@ == after_leave(old(w)@, i, now),
                None => false,
            },
            Err(e) => e == Rejection::PlayerNotFound && player_index(old(w)@.players, player_id@)
                is None && final(w)@ == old(w)@,
        },
{
    let pid = player_id.to_owned();
    match find_player(&w.players, &pid) {
        Some(i) => {
            let ghost players_before = w@.players;
            assert(players_before[i as int] == w.players[i as int]@);
            w.players[i].is_online = false;
            w.players[i].last_updated = now;
            assert(w@.players =~= players_before.update(
                i as int,
                PlayerView { is_online: false, last_updated: now, ..players_before[i as int] },
            ));
            let _ = end_session(w, player_id, now);
            Ok(())
        },
        None => Err(Rejection::PlayerNotFound),
    }
}

/// Names a player. Where the player has no account, one is created, offline
/// and in the default colour.
pub fn update_player_name(
    w: &mut World,
    player_id: &str,
    name: &str,
    spawn_points: usize,
    now: i64,
) -> (r: Arrival)
    ensures
        final(w)@ == after_naming(old(w)@, player_id@, name@, now),
        match r {
            Arrival::Returned => player_index(old(w)@.players, player_id@) is Some,
            Arrival::Spawned { spawn_point } => player_index(old(w)@.players, player_id@) is None
                && match spawn_point {
                Some(k) => spawn_choice(player_id@, spawn_points as nat) == Some(k as nat),
                None => spawn_choice(player_id@, spawn_points as nat) is None,
            },
        },
{
    let pid = player_id.to_owned();
    let ghost players_before = w@.players;
    match find_player(&w.players, &pid) {
        Some(i) => {
            assert(players_before[i as int] == w.players[i as int]@);
            w.players[i].name = name.to_owned();
            w.players[i].last_updated = now;
            assert(w@.players =~= players_before.update(
                i as int,
                PlayerView { name: name@, last_updated: now, ..players_before[i as int] },
            ));
            Arrival::Returned
        },
        None => {
            let spawn_point = choose_spawn_point(player_id, spawn_points);
            w.players.push(
                Player {
                    id: pid,
                    name: name.to_owned(),
                    color: DEFAULT_PLAYER_COLOR,
                    is_online: false,
                    gold: 0,
                    equipped_pole_id: None,
                    last_updated: now,
                },
            );
            assert(w@.players =~= players_before.push(
                new_player(player_id@, name@, DEFAULT_PLAYER_COLOR, false, now),
            ));
            Arrival::Spawned { spawn_point }
        },
    }
}

} // verus!

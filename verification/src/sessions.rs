//! Play sessions, the record of events, and the experience of players.

use crate::leveling::{
    calculate_xp_for_level, can_gain_experience, gain_experience, gain_fits, standing_after,
    xp_for_level,
};
use crate::store::{
    active_session_index, find_active_session, find_stats, opt_view, stats_index, GameEvent,
    GameEventView, PlayerSession, PlayerSessionView, PlayerStats, PlayerStatsView, Rejection,
    World, WorldView,
};
use crate::text::{append_chars, decimal_text, from_chars, push_decimal, to_chars};
use vstd::prelude::*;

verus! {

/// What an event says, before it is given an id, a session and a time.
pub open spec fn event(
    player_id: Seq<char>,
    event_type: Seq<char>,
    item_id: Option<Seq<char>>,
    quantity: Option<u32>,
    gold_amount: Option<u32>,
    rarity: Option<u8>,
    water_body_id: Option<Seq<char>>,
    metadata: Option<Seq<char>>,
) -> GameEventView {
    GameEventView {
        id: 0,
        player_id,
        session_id: None,
        event_type,
        item_id,
        quantity,
        gold_amount,
        rarity,
        water_body_id,
        metadata,
        created_at: 0,
    }
}

/// The id of the running session of the player.
pub open spec fn active_session_id(sessions: Seq<PlayerSessionView>, player_id: Seq<char>) -> Option<
    u64,
> {
    match active_session_index(sessions, player_id) {
        Some(i) => Some(sessions[i].id),
        None => None,
    }
}

/// The world with the event recorded: the event gets the next id, the
/// running session of its player, and the time `now`.
pub open spec fn with_event(w: WorldView, e: GameEventView, now: i64) -> WorldView {
    WorldView {
        events: w.events.push(
            GameEventView {
                id: w.next_event_id,
                session_id: active_session_id(w.sessions, e.player_id),
                created_at: now,
                ..e
            },
        ),
        next_event_id: (w.next_event_id + 1) as u64,
        ..w
    }
}

/// The whole seconds from `started_at` to `now`, as an unsigned number. If
/// `now` lies before `started_at`, the negative number of seconds, rounded
/// towards 0, wraps around as a two's complement number of 64 bits does.
pub open spec fn elapsed_seconds(started_at: i64, now: i64) -> u64 {
    let micros = now - started_at;
    if micros >= 0 {
        (micros / 1_000_000) as u64
    } else {
        let back = (-micros) / 1_000_000;
        if back == 0 {
            0
        } else {
            (0x1_0000_0000_0000_0000 - back) as u64
        }
    }
}

/// The session, ended at `now`.
pub open spec fn closed(s: PlayerSessionView, now: i64) -> PlayerSessionView {
    PlayerSessionView {
        ended_at: Some(now),
        duration_seconds: elapsed_seconds(s.started_at, now),
        is_active: false,
        ..s
    }
}

/// The sessions with every running session of the player, from index `i` on,
/// ended at `now`.
pub open spec fn with_sessions_closed(
    sessions: Seq<PlayerSessionView>,
    player_id: Seq<char>,
    now: i64,
    i: int,
) -> Seq<PlayerSessionView>
    decreases sessions.len() - i,
{
    if i < 0 || i >= sessions.len() {
        sessions
    } else if sessions[i].player_id == player_id && sessions[i].is_active {
        with_sessions_closed(sessions.update(i, closed(sessions[i], now)), player_id, now, i + 1)
    } else {
        with_sessions_closed(sessions, player_id, now, i + 1)
    }
}

/// The number of running sessions of the player from index `i` on.
pub open spec fn running_sessions(sessions: Seq<PlayerSessionView>, player_id: Seq<char>, i: int) -> nat
    decreases sessions.len() - i,
{
    if i < 0 || i >= sessions.len() {
        0
    } else if sessions[i].player_id == player_id && sessions[i].is_active {
        1 + running_sessions(sessions, player_id, i + 1)
    } else {
        running_sessions(sessions, player_id, i + 1)
    }
}

/// The stats record of a player first seen at `now`: one session, level 1.
pub open spec fn first_stats(player_id: Seq<char>, now: i64) -> PlayerStatsView {
    PlayerStatsView {
        player_id,
        total_playtime_seconds: 0,
        total_sessions: 1,
        total_fish_caught: 0,
        total_gold_earned: 0,
        total_gold_spent: 0,
        first_seen_at: now,
        last_seen_at: now,
        level: 1,
        xp: 0,
        xp_to_next_level: xp_for_level(2) as u64,
    }
}

/// The world after the player starts a session at `now`: sessions of the
/// player that still ran are ended, a new one runs, the stats count it (or
/// are created), and the start is recorded.
pub open spec fn after_session_start(w: WorldView, player_id: Seq<char>, now: i64) -> WorldView {
    let sessions = with_sessions_closed(w.sessions, player_id, now, 0).push(
        PlayerSessionView {
            id: w.next_session_id,
            player_id,
            started_at: now,
            ended_at: None,
            duration_seconds: 0,
            is_active: true,
        },
    );
    let stats = match stats_index(w.stats, player_id) {
        Some(j) => w.stats.update(
            j,
            PlayerStatsView {
                total_sessions: (w.stats[j].total_sessions + 1) as u32,
                last_seen_at: now,
                ..w.stats[j]
            },
        ),
        None => w.stats.push(first_stats(player_id, now)),
    };
    with_event(
        WorldView { sessions, next_session_id: (w.next_session_id + 1) as u64, stats, ..w },
        event(player_id, "session_started"@, None, None, None, None, None, None),
        now,
    )
}

/// The counters that starting a session raises have room.
pub open spec fn session_start_fits(w: WorldView, player_id: Seq<char>) -> bool {
    &&& w.next_session_id < u64::MAX
    &&& w.next_event_id < u64::MAX
    &&& match stats_index(w.stats, player_id) {
        Some(j) => w.stats[j].total_sessions < u32::MAX,
        None => true,
    }
}

/// What the event of an ended session carries: its duration in seconds.
pub open spec fn duration_metadata(seconds: u64) -> Seq<char> {
    "{\"duration_seconds\":"@ + decimal_text(seconds as nat) + "}"@
}

/// The world after the running session of the player, at index `i`, ends at
/// `now`: the session is ended, the stats count its duration, and the end is
/// recorded.
pub open spec fn after_session_end(w: WorldView, player_id: Seq<char>, i: int, now: i64) -> WorldView {
    let seconds = elapsed_seconds(w.sessions[i].started_at, now);
    let sessions = w.sessions.update(i, closed(w.sessions[i], now));
    let stats = match stats_index(w.stats, player_id) {
        Some(j) => w.stats.update(
            j,
            PlayerStatsView {
                total_playtime_seconds: (w.stats[j].total_playtime_seconds + seconds) as u64,
                last_seen_at: now,
                ..w.stats[j]
            },
        ),
        None => w.stats,
    };
    with_event(
        WorldView { sessions, stats, ..w },
        event(
            player_id,
            "session_ended"@,
            None,
            None,
            None,
            None,
            None,
            Some(duration_metadata(seconds)),
        ),
        now,
    )
}

/// The counters that ending the session raises have room.
pub open spec fn session_end_fits(w: WorldView, player_id: Seq<char>, now: i64) -> bool {
    match active_session_index(w.sessions, player_id) {
        Some(i) => {
            &&& w.next_event_id < u64::MAX
            &&& match stats_index(w.stats, player_id) {
                Some(j) => w.stats[j].total_playtime_seconds + elapsed_seconds(
                    w.sessions[i].started_at,
                    now,
                ) <= u64::MAX,
                None => true,
            }
        },
        None => true,
    }
}

/// The world after the player gains experience: the stats record of the
/// player holds the standing that results. A player without stats gains
/// nothing.
pub open spec fn with_xp(w: WorldView, player_id: Seq<char>, amount: u64) -> WorldView {
    match stats_index(w.stats, player_id) {
        Some(j) => {
            let s = standing_after(
                w.stats[j].level as nat,
                w.stats[j].xp as nat,
                w.stats[j].xp_to_next_level as nat,
                amount as nat,
            );
            WorldView {
                stats: w.stats.update(
                    j,
                    PlayerStatsView {
                        level: s.level as u32,
                        xp: s.xp as u64,
                        xp_to_next_level: s.xp_to_next_level as u64,
                        ..w.stats[j]
                    },
                ),
                ..w
            }
        },
        None => w,
    }
}

/// The gain of experience can be computed in machine integers.
pub open spec fn xp_fits(w: WorldView, player_id: Seq<char>, amount: u64) -> bool {
    match stats_index(w.stats, player_id) {
        Some(j) => gain_fits(
            w.stats[j].level as nat,
            w.stats[j].xp as nat,
            w.stats[j].xp_to_next_level as nat,
            amount as nat,
        ),
        None => true,
    }
}

// ---------------------------------------------------------------------------
// Laws
// ---------------------------------------------------------------------------
/// Closing the sessions of a player leaves none of them running, and leaves
/// the sessions before index `i` as they were.
pub proof fn lemma_sessions_closed(
    sessions: Seq<PlayerSessionView>,
    player_id: Seq<char>,
    now: i64,
    i: int,
)
    requires
        0 <= i,
    ensures
        with_sessions_closed(sessions, player_id, now, i).len() == sessions.len(),
        forall|k: int|
            0 <= k < i && k < sessions.len() ==> #[trigger] with_sessions_closed(
                sessions,
                player_id,
                now,
                i,
            )[k] == sessions[k],
        forall|k: int|
            i <= k < sessions.len() ==> !((#[trigger] with_sessions_closed(
                sessions,
                player_id,
                now,
                i,
            )[k]).player_id == player_id && with_sessions_closed(
                sessions,
                player_id,
                now,
                i,
            )[k].is_active),
    decreases sessions.len() - i,
{
    let result = with_sessions_closed(sessions, player_id, now, i);
    if i >= sessions.len() {
    } else {
        let next = if sessions[i].player_id == player_id && sessions[i].is_active {
            sessions.update(i, closed(sessions[i], now))
        } else {
            sessions
        };
        lemma_sessions_closed(next, player_id, now, i + 1);
        assert(result == with_sessions_closed(next, player_id, now, i + 1));
        assert forall|k: int| 0 <= k < i && k < sessions.len() implies #[trigger] result[k]
            == sessions[k] by {
            assert(result[k] == next[k]);
        }
        assert forall|k: int| i <= k < sessions.len() implies !((#[trigger] result[k]).player_id
            == player_id && result[k].is_active) by {
            if k == i {
                assert(result[k] == next[k]);
            }
        }
    }
}

/// Sessions of which none of the player runs from index `i` on count none.
pub proof fn lemma_none_running(sessions: Seq<PlayerSessionView>, player_id: Seq<char>, i: int)
    requires
        0 <= i,
        forall|k: int|
            i <= k < sessions.len() ==> !((#[trigger] sessions[k]).player_id == player_id
                && sessions[k].is_active),
    ensures
        running_sessions(sessions, player_id, i) == 0,
    decreases sessions.len() - i,
{
    if i < sessions.len() {
        lemma_none_running(sessions, player_id, i + 1);
    }
}

/// A session added at the end counts if it is a running session of the
/// player.
pub proof fn lemma_running_sessions_push(
    sessions: Seq<PlayerSessionView>,
    player_id: Seq<char>,
    s: PlayerSessionView,
    i: int,
)
    requires
        0 <= i <= sessions.len(),
    ensures
        running_sessions(sessions.push(s), player_id, i) == running_sessions(
            sessions,
            player_id,
            i,
        ) + if s.player_id == player_id && s.is_active {
            1nat
        } else {
            0nat
        },
    decreases sessions.len() - i,
{
    if i < sessions.len() {
        lemma_running_sessions_push(sessions, player_id, s, i + 1);
    } else {
        assert(running_sessions(sessions.push(s), player_id, i + 1) == 0);
    }
}

/// After a player starts a session, exactly one session of that player runs:
/// the one just started, which is the session that the start is recorded in.
pub proof fn lemma_one_session_runs_after_start(w: WorldView, player_id: Seq<char>, now: i64)
    ensures
        running_sessions(after_session_start(w, player_id, now).sessions, player_id, 0) == 1,
        active_session_id(after_session_start(w, player_id, now).sessions, player_id) == Some(
            w.next_session_id,
        ),
        after_session_start(w, player_id, now).events.last().session_id == Some(w.next_session_id),
{
    let shut = with_sessions_closed(w.sessions, player_id, now, 0);
    let opened = PlayerSessionView {
        id: w.next_session_id,
        player_id,
        started_at: now,
        ended_at: None,
        duration_seconds: 0,
        is_active: true,
    };
    lemma_sessions_closed(w.sessions, player_id, now, 0);
    lemma_none_running(shut, player_id, 0);
    lemma_running_sessions_push(shut, player_id, opened, 0);
    lemma_first_running_is_last(shut, player_id, opened, 0);
}

/// Where no session of the player runs, the first running session after one
/// is added is the added one.
pub proof fn lemma_first_running_is_last(
    sessions: Seq<PlayerSessionView>,
    player_id: Seq<char>,
    s: PlayerSessionView,
    i: int,
)
    requires
        0 <= i <= sessions.len(),
        s.player_id == player_id && s.is_active,
        forall|k: int|
            i <= k < sessions.len() ==> !((#[trigger] sessions[k]).player_id == player_id
                && sessions[k].is_active),
    ensures
        crate::store::active_session_index_from(sessions.push(s), player_id, i) == Some(
            sessions.len() as int,
        ),
    decreases sessions.len() - i,
{
    if i < sessions.len() {
        assert(sessions.push(s)[i] == sessions[i]);
        lemma_first_running_is_last(sessions, player_id, s, i + 1);
    }
}

// ---------------------------------------------------------------------------
// Transactions
// ---------------------------------------------------------------------------
/// The id of the running session of the player.
pub fn get_active_session_id(w: &World, player_id: &str) -> (r: Option<u64>)
    ensures
        r == active_session_id(w@.sessions, player_id@),
{
    let pid = player_id.to_owned();
    match find_active_session(&w.sessions, &pid) {
        Some(i) => {
            assert(w@.sessions[i as int] == w.sessions[i as int]@);
            Some(w.sessions[i].id)
        },
        None => None,
    }
}

/// Records an event of the player at `now`, in the session of the player
/// that runs.
pub fn log_event_internal(
    w: &mut World,
    player_id: String,
    event_type: String,
    item_id: Option<String>,
    quantity: Option<u32>,
    gold_amount: Option<u32>,
    rarity: Option<u8>,
    water_body_id: Option<String>,
    metadata: Option<String>,
    now: i64,
)
    requires
        old(w).next_event_id < u64::MAX,
    ensures
        final(w)@ == with_event(
            old(w)@,
            event(
                player_id@,
                event_type@,
                opt_view(item_id),
                quantity,
                gold_amount,
                rarity,
                opt_view(water_body_id),
                opt_view(metadata),
            ),
            now,
        ),
{
    let session_id = get_active_session_id(w, player_id.as_str());
    let row = GameEvent {
        id: w.next_event_id,
        player_id,
        session_id,
        event_type,
        item_id,
        quantity,
        gold_amount,
        rarity,
        water_body_id,
        metadata,
        created_at: now,
    };
    let ghost before = w@.events;
    let ghost row_view = row@;
    w.events.push(row);
    w.next_event_id = w.next_event_id + 1;
    assert(w@.events =~= before.push(row_view));
}

/// Records an event of the player at `now`.
pub fn log_game_event(
    w: &mut World,
    player_id: String,
    event_type: String,
    item_id: Option<String>,
    quantity: Option<u32>,
    gold_amount: Option<u32>,
    rarity: Option<u8>,
    water_body_id: Option<String>,
    metadata: Option<String>,
    now: i64,
)
    requires
        old(w).next_event_id < u64::MAX,
    ensures
        final(w)@ == with_event(
            old(w)@,
            event(
                player_id@,
                event_type@,
                opt_view(item_id),
                quantity,
                gold_amount,
                rarity,
                opt_view(water_body_id),
                opt_view(metadata),
            ),
            now,
        ),
{
    log_event_internal(
        w,
        player_id,
        event_type,
        item_id,
        quantity,
        gold_amount,
        rarity,
        water_body_id,
        metadata,
        now,
    );
}

/// Records that the player sold items for gold.
pub fn log_item_sold(
    w: &mut World,
    player_id: &str,
    item_id: &str,
    rarity: u8,
    quantity: u32,
    gold_amount: u32,
    now: i64,
)
    requires
        old(w).next_event_id < u64::MAX,
    ensures
        final(w)@ == with_event(
            old(w)@,
            event(
                player_id@,
                "item_sold"@,
                Some(item_id@),
                Some(quantity),
                Some(gold_amount),
                Some(rarity),
                None,
                None,
            ),
            now,
        ),
{
    log_event_internal(
        w,
        player_id.to_owned(),
        "item_sold".to_owned(),
        Some(item_id.to_owned()),
        Some(quantity),
        Some(gold_amount),
        Some(rarity),
        None,
        None,
        now,
    );
}

/// Records that the player bought items for gold.
pub fn log_item_bought(
    w: &mut World,
    player_id: &str,
    item_id: &str,
    quantity: u32,
    gold_amount: u32,
    now: i64,
)
    requires
        old(w).next_event_id < u64::MAX,
    ensures
        final(w)@ == with_event(
            old(w)@,
            event(
                player_id@,
                "item_bought"@,
                Some(item_id@),
                Some(quantity),
                Some(gold_amount),
                Some(0u8),
                None,
                None,
            ),
            now,
        ),
{
    log_event_internal(
        w,
        player_id.to_owned(),
        "item_bought".to_owned(),
        Some(item_id.to_owned()),
        Some(quantity),
        Some(gold_amount),
        Some(0),
        None,
        None,
        now,
    );
}

/// The whole seconds from `started_at` to `now`.
pub fn seconds_between(started_at: i64, now: i64) -> (r: u64)
    ensures
        r == elapsed_seconds(started_at, now),
{
    let micros: i128 = now as i128 - started_at as i128;
    if micros >= 0 {
        (micros / 1_000_000) as u64
    } else {
        let back: i128 = (-micros) / 1_000_000;
        if back == 0 {
            0
        } else {
            (0x1_0000_0000_0000_0000i128 - back) as u64
        }
    }
}

fn close_session(w: &mut World, i: usize, now: i64) -> (seconds: u64)
    requires
        i < old(w).sessions.len(),
    ensures
        seconds == elapsed_seconds(old(w)@.sessions[i as int].started_at, now),
        final(w).sessions.len() == old(w).sessions.len(),
        final(w)@ == (WorldView {
            sessions: old(w)@.sessions.update(i as int, closed(old(w)@.sessions[i as int], now)),
            ..old(w)@
        }),
{
    let seconds = seconds_between(w.sessions[i].started_at, now);
    w.sessions[i].ended_at = Some(now);
    w.sessions[i].duration_seconds = seconds;
    w.sessions[i].is_active = false;
    assert(w@.sessions =~= old(w)@.sessions.update(
        i as int,
        closed(old(w)@.sessions[i as int], now),
    ));
    seconds
}

/// Starts a session of the player at `now`. Sessions of the player that
/// still ran are ended first, so that only the new one runs.
pub fn start_session(w: &mut World, player_id: &str, now: i64)
    requires
        session_start_fits(old(w)@, player_id@),
    ensures
        final(w)@ == after_session_start(old(w)@, player_id@, now),
{
    let pid = player_id.to_owned();
    let mut i: usize = 0;
    while i < w.sessions.len()
        invariant
            i <= w.sessions.len(),
            pid@ == player_id@,
            with_sessions_closed(old(w)@.sessions, player_id@, now, 0) == with_sessions_closed(
                w@.sessions,
                player_id@,
                now,
                i as int,
            ),
            w@ == (WorldView { sessions: w@.sessions, ..old(w)@ }),
        decreases w.sessions.len() - i,
    {
        assert(w@.sessions[i as int] == w.sessions[i as int]@);
        if w.sessions[i].player_id == pid && w.sessions[i].is_active {
            close_session(w, i, now);
        }
        i += 1;
    }
    let ghost shut = w@.sessions;
    w.sessions.push(
        PlayerSession {
            id: w.next_session_id,
            player_id: pid.clone(),
            started_at: now,
            ended_at: None,
            duration_seconds: 0,
            is_active: true,
        },
    );
    assert(w@.sessions =~= shut.push(
        PlayerSessionView {
            id: w.next_session_id,
            player_id: player_id@,
            started_at: now,
            ended_at: None,
            duration_seconds: 0,
            is_active: true,
        },
    ));
    w.next_session_id = w.next_session_id + 1;
    let ghost stats_before = w@.stats;
    match find_stats(&w.stats, &pid) {
        Some(j) => {
            assert(stats_before[j as int] == w.stats[j as int]@);
            w.stats[j].total_sessions = w.stats[j].total_sessions + 1;
            w.stats[j].last_seen_at = now;
            assert(w@.stats =~= stats_before.update(
                j as int,
                PlayerStatsView {
                    total_sessions: (stats_before[j as int].total_sessions + 1) as u32,
                    last_seen_at: now,
                    ..stats_before[j as int]
                },
            ));
        },
        None => {
            let threshold = calculate_xp_for_level(2);
            w.stats.push(
                PlayerStats {
                    player_id: pid.clone(),
                    total_playtime_seconds: 0,
                    total_sessions: 1,
                    total_fish_caught: 0,
                    total_gold_earned: 0,
                    total_gold_spent: 0,
                    first_seen_at: now,
                    last_seen_at: now,
                    level: 1,
                    xp: 0,
                    xp_to_next_level: threshold,
                },
            );
            assert(w@.stats =~= stats_before.push(first_stats(player_id@, now)));
        },
    }
    log_event_internal(
        w,
        pid,
        "session_started".to_owned(),
        None,
        None,
        None,
        None,
        None,
        None,
        now,
    );
}

fn duration_text(seconds: u64) -> (r: String)
    ensures
        r@ == duration_metadata(seconds),
{
    let mut out = to_chars("{\"duration_seconds\":");
    push_decimal(&mut out, seconds);
    let tail = to_chars("}");
    append_chars(&mut out, &tail);
    from_chars(&out)
}

/// Ends the running session of the player at `now`. Turned down where no
/// session of the player runs.
pub fn end_session(w: &mut World, player_id: &str, now: i64) -> (r: Result<u64, Rejection>)
    requires
        session_end_fits(old(w)@, player_id@, now),
    ensures
        match r {
            Ok(seconds) => match active_session_index(old(w)@.sessions, player_id@) {
                Some(i) => seconds == elapsed_seconds(old(w)@.sessions[i].started_at, now)
                    && final(w)@ == after_session_end(old(w)@, player_id@, i, now),
                None => false,
            },
            Err(e) => e == Rejection::NoActiveSession && active_session_index(
                old(w)@.sessions,
                player_id@,
            ) is None && final(w)@ == old(w)@,
        },
{
    let pid = player_id.to_owned();
    match find_active_session(&w.sessions, &pid) {
        None => Err(Rejection::NoActiveSession),
        Some(i) => {
            let seconds = close_session(w, i, now);
            let ghost stats_before = w@.stats;
            match find_stats(&w.stats, &pid) {
                Some(j) => {
                    assert(stats_before[j as int] == w.stats[j as int]@);
                    w.stats[j].total_playtime_seconds = w.stats[j].total_playtime_seconds
                        + seconds;
                    w.stats[j].last_seen_at = now;
                    assert(w@.stats =~= stats_before.update(
                        j as int,
                        PlayerStatsView {
                            total_playtime_seconds: (stats_before[j as int].total_playtime_seconds
                                + seconds) as u64,
                            last_seen_at: now,
                            ..stats_before[j as int]
                        },
                    ));
                },
                None => {},
            }
            log_event_internal(
                w,
                pid,
                "session_ended".to_owned(),
                None,
                None,
                None,
                None,
                None,
                Some(duration_text(seconds)),
                now,
            );
            Ok(seconds)
        },
    }
}

/// Adds experience to the player and resolves the levels gained. Returns
/// whether the player has a stats record; without one nothing is gained.
pub fn add_xp_internal(w: &mut World, player_id: &str, xp_amount: u64) -> (r: bool)
    requires
        xp_fits(old(w)@, player_id@, xp_amount),
    ensures
        final(w)@ == with_xp(old(w)@, player_id@, xp_amount),
        r == stats_index(old(w)@.stats, player_id@).is_some(),
{
    let pid = player_id.to_owned();
    match find_stats(&w.stats, &pid) {
        Some(j) => {
            let ghost stats_before = w@.stats;
            assert(stats_before[j as int] == w.stats[j as int]@);
            let (level, xp, threshold) = gain_experience(
                w.stats[j].level,
                w.stats[j].xp,
                w.stats[j].xp_to_next_level,
                xp_amount,
            );
            w.stats[j].level = level;
            w.stats[j].xp = xp;
            w.stats[j].xp_to_next_level = threshold;
            assert(w@.stats =~= stats_before.update(
                j as int,
                PlayerStatsView {
                    level,
                    xp,
                    xp_to_next_level: threshold,
                    ..stats_before[j as int]
                },
            ));
            true
        },
        None => false,
    }
}

/// Adds experience to the player. Turned down where the player has no stats
/// record.
pub fn add_xp(w: &mut World, player_id: &str, amount: u64) -> (r: Result<(), Rejection>)
    requires
        xp_fits(old(w)@, player_id@, amount),
    ensures
        final(w)@ == with_xp(old(w)@, player_id@, amount),
        r is Ok == stats_index(old(w)@.stats, player_id@).is_some(),
        r matches Err(e) ==> e == Rejection::PlayerNotFound,
{
    if add_xp_internal(w, player_id, amount) {
        Ok(())
    } else {
        Err(Rejection::PlayerNotFound)
    }
}

/// The stats record of the player, if there is one.
pub fn get_player_stats(w: &World, player_id: &str) -> (r: Option<PlayerStats>)
    ensures
        match r {
            Some(stats) => match stats_index(w@.stats, player_id@) {
                Some(j) => stats@ == w@.stats[j],
                None => false,
            },
            None => stats_index(w@.stats, player_id@) is None,
        },
{
    let pid = player_id.to_owned();
    match find_stats(&w.stats, &pid) {
        Some(j) => {
            assert(w@.stats[j as int] == w.stats[j as int]@);
            let row = &w.stats[j];
            Some(
                PlayerStats {
                    player_id: row.player_id.clone(),
                    total_playtime_seconds: row.total_playtime_seconds,
                    total_sessions: row.total_sessions,
                    total_fish_caught: row.total_fish_caught,
                    total_gold_earned: row.total_gold_earned,
                    total_gold_spent: row.total_gold_spent,
                    first_seen_at: row.first_seen_at,
                    last_seen_at: row.last_seen_at,
                    level: row.level,
                    xp: row.xp,
                    xp_to_next_level: row.xp_to_next_level,
                },
            )
        },
        None => None,
    }
}

/// Whether the counters that starting a session raises have room.
pub fn can_start_session(w: &World, player_id: &str) -> (r: bool)
    ensures
        r == session_start_fits(w@, player_id@),
{
    if w.next_session_id == u64::MAX || w.next_event_id == u64::MAX {
        return false;
    }
    let pid = player_id.to_owned();
    match find_stats(&w.stats, &pid) {
        Some(j) => {
            assert(w@.stats[j as int] == w.stats[j as int]@);
            w.stats[j].total_sessions < u32::MAX
        },
        None => true,
    }
}

/// Whether the counters that ending the session raises have room.
pub fn can_end_session(w: &World, player_id: &str, now: i64) -> (r: bool)
    ensures
        r == session_end_fits(w@, player_id@, now),
{
    let pid = player_id.to_owned();
    match find_active_session(&w.sessions, &pid) {
        Some(i) => {
            assert(w@.sessions[i as int] == w.sessions[i as int]@);
            if w.next_event_id == u64::MAX {
                return false;
            }
            match find_stats(&w.stats, &pid) {
                Some(j) => {
                    assert(w@.stats[j as int] == w.stats[j as int]@);
                    let seconds = seconds_between(w.sessions[i].started_at, now);
                    w.stats[j].total_playtime_seconds <= u64::MAX - seconds
                },
                None => true,
            }
        },
        None => true,
    }
}

/// Whether the gain of experience can be computed in machine integers.
pub fn can_add_xp(w: &World, player_id: &str, amount: u64) -> (r: bool)
    ensures
        r == xp_fits(w@, player_id@, amount),
{
    let pid = player_id.to_owned();
    match find_stats(&w.stats, &pid) {
        Some(j) => {
            assert(w@.stats[j as int] == w.stats[j as int]@);
            can_gain_experience(
                w.stats[j].level,
                w.stats[j].xp,
                w.stats[j].xp_to_next_level,
                amount,
            )
        },
        None => true,
    }
}

} // verus!
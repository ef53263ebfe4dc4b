//! A typed snapshot of what the League client is currently doing.
//!
//! Auto queue, pick and ban selection and the info panel all read from here.
//! Only what is used is held: the credentials that arrive in the client's
//! payloads have no field to land in.

use crate::json::Json;
use crate::names::NameMap;
use crate::text;
use crate::time;
use crate::time::{Seconds, TimeLeft};
use std::collections::{HashMap, HashSet};
use vstd::prelude::*;

verus! {

broadcast use vstd::std_specs::hash::group_hash_axioms;

/// What an optional reference points to.
pub open spec fn value_of<T>(r: Option<&T>) -> Option<T> {
    match r {
        Some(v) => Some(*v),
        None => None,
    }
}

// ── Lobby ──

#[derive(Debug, Default)]
pub struct Lobby {
    /// The client's own "can I press Find Match" verdict. It already folds in
    /// queue eligibility, premade size, position requirements and penalties, so
    /// nothing here tries to recompute those rules.
    pub can_start_activity: bool,
    pub party_id: String,
    pub members: Vec<LobbyMember>,
    pub local_member: LobbyMember,
    pub game_config: GameConfig,
    /// Why `can_start_activity` is false, when it is.
    pub restrictions: Vec<Restriction>,
}

#[derive(Debug, Default)]
pub struct LobbyMember {
    /// Routinely exceeds 2^53, so it must never be handed to a user interface as
    /// a number.
    pub summoner_id: u64,
    pub puuid: String,
    pub summoner_name: String,
    pub summoner_level: u32,
    pub summoner_icon_id: i32,
    pub is_leader: bool,
    pub is_spectator: bool,
    pub allowed_start_activity: bool,
    /// Absent and false mean different things: recent patches have been seen
    /// carrying readiness under `member_data` instead.
    pub ready: Option<bool>,
    pub member_data: NameMap<Json>,
    pub first_position_preference: String,
    pub second_position_preference: String,
}

#[derive(Debug, Default)]
pub struct GameConfig {
    pub game_mode: String,
    pub queue_id: i64,
    /// The real capacity.
    pub max_lobby_size: u32,
    pub max_team_size: u32,
    pub is_custom: bool,
    pub is_lobby_full: bool,
    pub show_position_selector: bool,
}

#[derive(Debug, Default)]
pub struct Restriction {
    pub restriction_code: String,
    pub expired_timestamp: u64,
}

impl Lobby {
    pub open spec fn led_by_me(self) -> bool {
        ||| self.local_member.is_leader
        ||| self.local_member.summoner_id != 0 && exists|i: int|
            0 <= i < self.members@.len() && (#[trigger] self.members@[i]).summoner_id
                == self.local_member.summoner_id && self.members@[i].is_leader
    }

    /// Whether we are the one who can press Find Match.
    ///
    /// `local_member` is the authority, but it has been seen lagging behind the
    /// members after a host transfer, so they are consulted too.
    pub fn i_am_leader(&self) -> (r: bool)
        ensures
            r == self.led_by_me(),
    {
        if self.local_member.is_leader {
            return true;
        }
        let me: u64 = self.local_member.summoner_id;
        if me == 0 {
            return false;
        }
        let mut i: usize = 0;
        while i < self.members.len()
            invariant
                i <= self.members@.len(),
                me == self.local_member.summoner_id,
                me != 0,
                forall|j: int|
                    0 <= j < i ==> !((#[trigger] self.members@[j]).summoner_id == me
                        && self.members@[j].is_leader),
            decreases self.members@.len() - i,
        {
            if self.members[i].summoner_id == me && self.members[i].is_leader {
                return true;
            }
            i += 1;
        }
        false
    }
}

impl LobbyMember {
    pub open spec fn counts_as_ready(self) -> bool {
        match self.ready {
            Some(ready) => ready,
            None => self.member_data@.contains_key("ready"@)
                && self.member_data@["ready"@]@.boolean() == Some(true),
        }
    }

    /// Whether this member counts as ready.
    ///
    /// In queues with no ready-up step the client sets `ready` for everyone who
    /// is merely *queueable*, and clears it once searching starts. Arena is
    /// where it is a real opt-in.
    pub fn is_ready(&self) -> (r: bool)
        ensures
            r == self.counts_as_ready(),
    {
        match self.ready {
            Some(ready) => ready,
            None => match self.member_data.get("ready") {
                Some(value) => match value.as_bool() {
                    Some(ready) => ready,
                    None => false,
                },
                None => false,
            },
        }
    }
}

// ── Matchmaking search ──

#[derive(Debug, Default)]
pub struct Search {
    /// "Invalid" | "Searching" | "Found" | "Canceled" | "Error" | ...
    pub search_state: String,
    pub is_currently_in_queue: bool,
    /// Includes any low-priority penalty.
    pub time_in_queue: Seconds,
    pub estimated_queue_time: Seconds,
    pub errors: Vec<SearchError>,
    pub low_priority_data: LowPriorityData,
}

#[derive(Debug, Default)]
pub struct SearchError {
    pub id: i32,
    pub error_type: String,
    pub penalty_time_remaining: Seconds,
    pub message: String,
}

#[derive(Debug, Default)]
pub struct LowPriorityData {
    pub penalty_time: Seconds,
    pub penalty_time_remaining: Seconds,
    pub reason: String,
}

/// The longest of the penalties, none of them counting as zero.
pub open spec fn worst_penalty(errors: Seq<SearchError>) -> int
    decreases errors.len(),
{
    if errors.len() == 0 {
        0
    } else {
        time::larger(
            worst_penalty(errors.drop_last()),
            errors.last().penalty_time_remaining.millis as int,
        )
    }
}

impl Search {
    pub open spec fn penalty_millis(self) -> int {
        time::larger(
            worst_penalty(self.errors@),
            self.low_priority_data.penalty_time_remaining.millis as int,
        )
    }

    /// Longest penalty still to serve. Queuing while this is positive is refused
    /// by the client, so it is tested up front rather than by hammering a
    /// request that cannot succeed.
    pub fn penalty_remaining(&self) -> (r: Seconds)
        ensures
            r.millis == self.penalty_millis(),
            r.millis >= 0,
    {
        let mut worst: i64 = 0;
        let mut i: usize = 0;
        while i < self.errors.len()
            invariant
                i <= self.errors@.len(),
                worst == worst_penalty(self.errors@.take(i as int)),
                worst >= 0,
            decreases self.errors@.len() - i,
        {
            proof {
                assert(self.errors@.take(i + 1).drop_last() =~= self.errors@.take(i as int));
                assert(self.errors@.take(i + 1).last() == self.errors@[i as int]);
            }
            let here: i64 = self.errors[i].penalty_time_remaining.millis;
            if here > worst {
                worst = here;
            }
            i += 1;
        }
        assert(self.errors@.take(i as int) =~= self.errors@);
        let low: i64 = self.low_priority_data.penalty_time_remaining.millis;
        Seconds {
            millis: if low > worst {
                low
            } else {
                worst
            },
        }
    }

    pub open spec fn searching(self) -> bool {
        self.is_currently_in_queue || self.search_state@ == "Searching"@
    }

    pub fn is_searching(&self) -> (r: bool)
        ensures
            r == self.searching(),
    {
        self.is_currently_in_queue || text::same(self.search_state.as_str(), "Searching")
    }
}

// ── Champ select ──

#[derive(Debug, Default)]
pub struct ChampSelect {
    pub local_player_cell_id: i64,
    pub my_team: Vec<PlayerSelection>,
    pub their_team: Vec<PlayerSelection>,
    /// Groups of simultaneous actions, executed in order.
    pub actions: Vec<Vec<Action>>,
    pub bans: Bans,
    pub timer: Timer,
    pub queue_id: i64,
    pub allow_duplicate_picks: bool,
    pub disallow_banning_teammate_hovered_champions: bool,
    pub bench_enabled: bool,
    pub is_custom_game: bool,
    pub is_spectating: bool,
}

#[derive(Debug, Default)]
pub struct PlayerSelection {
    pub cell_id: i64,
    /// 0 until locked.
    pub champion_id: i32,
    /// 0 when not hovering; otherwise the champion being hovered.
    pub champion_pick_intent: i32,
    /// Lowercase: "top" | "jungle" | "middle" | "bottom" | "utility", or "".
    pub assigned_position: String,
    pub spell1_id: i32,
    pub spell2_id: i32,
    pub team: i32,
    pub is_autofilled: bool,
    /// "HIDDEN" in ranked solo, where the enemy team carries no identity at all.
    pub name_visibility_type: String,
    pub game_name: String,
    pub tag_line: String,
}

#[derive(Debug, Default)]
pub struct Action {
    pub id: i64,
    pub actor_cell_id: i64,
    pub champion_id: i32,
    pub action_type: String,
    pub completed: bool,
    pub is_in_progress: bool,
    pub is_ally_action: bool,
    pub pick_turn: i32,
}

#[derive(Debug, Default)]
pub struct Bans {
    pub my_team_bans: Vec<i32>,
    pub their_team_bans: Vec<i32>,
    pub num_bans: i32,
}

#[derive(Debug, Default)]
pub struct Timer {
    /// Milliseconds.
    pub adjusted_time_left_in_phase: i64,
    pub total_time_in_phase: i64,
    /// "PLANNING" | "BAN_PICK" | "FINALIZATION" | "GAME_STARTING"
    pub phase: String,
    pub is_infinite: bool,
    pub internal_now_in_epoch_ms: i64,
}

impl Timer {
    /// How stale the client's reading is, in milliseconds.
    pub open spec fn drift(self, now_epoch_ms: int) -> int {
        if self.internal_now_in_epoch_ms > 0 {
            time::larger(now_epoch_ms - self.internal_now_in_epoch_ms, 0)
        } else {
            0
        }
    }

    pub open spec fn time_left(self, now_epoch_ms: int) -> TimeLeft {
        if self.is_infinite {
            TimeLeft::Infinite
        } else {
            TimeLeft::Left(
                Seconds {
                    millis: time::larger(
                        self.adjusted_time_left_in_phase - self.drift(now_epoch_ms),
                        0,
                    ) as i64,
                },
            )
        }
    }

    /// Time left, corrected for how long ago the client sent this.
    ///
    /// The session only updates on events, so between pushes
    /// `adjusted_time_left_in_phase` is stale: a lock scheduled for "2s before
    /// the timer expires" straight off the raw field lands late.
    pub fn seconds_left(&self, now_epoch_ms: i64) -> (r: TimeLeft)
        ensures
            r == self.time_left(now_epoch_ms as int),
    {
        if self.is_infinite {
            return TimeLeft::Infinite;
        }
        let elapsed: i128 = if self.internal_now_in_epoch_ms > 0 && now_epoch_ms
            > self.internal_now_in_epoch_ms {
            now_epoch_ms as i128 - self.internal_now_in_epoch_ms as i128
        } else {
            0
        };
        let left: i128 = self.adjusted_time_left_in_phase as i128 - elapsed;
        TimeLeft::Left(
            Seconds {
                millis: if left > 0 {
                    left as i64
                } else {
                    0
                },
            },
        )
    }
}

/// A phase never has less than no time left, and never more than the client
/// last said.
pub proof fn law_time_left_is_bounded(timer: Timer, now_epoch_ms: i64)
    requires
        !timer.is_infinite,
    ensures
        timer.time_left(now_epoch_ms as int) matches TimeLeft::Left(left) && 0 <= left.millis
            <= time::larger(timer.adjusted_time_left_in_phase as int, 0),
{
}

/// The first player of a team in this seat.
pub open spec fn in_seat(team: Seq<PlayerSelection>, cell_id: i64) -> Option<PlayerSelection>
    decreases team.len(),
{
    if team.len() == 0 {
        None
    } else if team[0].cell_id == cell_id {
        Some(team[0])
    } else {
        in_seat(team.drop_first(), cell_id)
    }
}

pub open spec fn all_completed(group: Seq<Action>) -> bool {
    forall|i: int| 0 <= i < group.len() ==> (#[trigger] group[i]).completed
}

/// The first action of a group that is this player's and still open.
pub open spec fn open_for(group: Seq<Action>, cell_id: i64) -> Option<Action>
    decreases group.len(),
{
    if group.len() == 0 {
        None
    } else if group[0].actor_cell_id == cell_id && !group[0].completed {
        Some(group[0])
    } else {
        open_for(group.drop_first(), cell_id)
    }
}

/// This player's open action in the first group that is not finished.
pub open spec fn open_action(groups: Seq<Vec<Action>>, cell_id: i64) -> Option<Action>
    decreases groups.len(),
{
    if groups.len() == 0 {
        None
    } else if !all_completed(groups[0]@) {
        open_for(groups[0]@, cell_id)
    } else {
        open_action(groups.drop_first(), cell_id)
    }
}

pub open spec fn is_open_pick(a: Action, cell_id: i64) -> bool {
    a.actor_cell_id == cell_id && a.action_type@ == "pick"@ && !a.completed
}

pub open spec fn open_pick_in(group: Seq<Action>, cell_id: i64) -> Option<Action>
    decreases group.len(),
{
    if group.len() == 0 {
        None
    } else if is_open_pick(group[0], cell_id) {
        Some(group[0])
    } else {
        open_pick_in(group.drop_first(), cell_id)
    }
}

/// This player's first pick that has not resolved, in whatever group.
pub open spec fn first_open_pick(groups: Seq<Vec<Action>>, cell_id: i64) -> Option<Action>
    decreases groups.len(),
{
    if groups.len() == 0 {
        None
    } else {
        match open_pick_in(groups[0]@, cell_id) {
            Some(a) => Some(a),
            None => first_open_pick(groups.drop_first(), cell_id),
        }
    }
}

fn group_completed(group: &Vec<Action>) -> (r: bool)
    ensures
        r == all_completed(group@),
{
    let mut i: usize = 0;
    while i < group.len()
        invariant
            i <= group@.len(),
            forall|j: int| 0 <= j < i ==> (#[trigger] group@[j]).completed,
        decreases group@.len() - i,
    {
        if !group[i].completed {
            return false;
        }
        i += 1;
    }
    true
}

fn find_open(group: &Vec<Action>, cell_id: i64) -> (r: Option<&Action>)
    ensures
        value_of(r) == open_for(group@, cell_id),
{
    let mut i: usize = 0;
    assert(group@.skip(0) =~= group@);
    while i < group.len()
        invariant
            i <= group@.len(),
            open_for(group@, cell_id) == open_for(group@.skip(i as int), cell_id),
        decreases group@.len() - i,
    {
        assert(group@.skip(i as int)[0] == group@[i as int]);
        assert(group@.skip(i as int).drop_first() =~= group@.skip(i + 1));
        if group[i].actor_cell_id == cell_id && !group[i].completed {
            return Some(&group[i]);
        }
        i += 1;
    }
    None
}

fn find_open_pick(group: &Vec<Action>, cell_id: i64) -> (r: Option<&Action>)
    ensures
        value_of(r) == open_pick_in(group@, cell_id),
{
    let mut i: usize = 0;
    assert(group@.skip(0) =~= group@);
    while i < group.len()
        invariant
            i <= group@.len(),
            open_pick_in(group@, cell_id) == open_pick_in(group@.skip(i as int), cell_id),
        decreases group@.len() - i,
    {
        assert(group@.skip(i as int)[0] == group@[i as int]);
        assert(group@.skip(i as int).drop_first() =~= group@.skip(i + 1));
        if group[i].actor_cell_id == cell_id && text::same(group[i].action_type.as_str(), "pick")
            && !group[i].completed {
            return Some(&group[i]);
        }
        i += 1;
    }
    None
}

impl ChampSelect {
    pub open spec fn my_seat(self) -> Option<PlayerSelection> {
        in_seat(self.my_team@, self.local_player_cell_id)
    }

    pub fn me(&self) -> (r: Option<&PlayerSelection>)
        ensures
            value_of(r) == self.my_seat(),
    {
        let cell_id: i64 = self.local_player_cell_id;
        let mut i: usize = 0;
        assert(self.my_team@.skip(0) =~= self.my_team@);
        while i < self.my_team.len()
            invariant
                i <= self.my_team@.len(),
                cell_id == self.local_player_cell_id,
                in_seat(self.my_team@, cell_id) == in_seat(self.my_team@.skip(i as int), cell_id),
            decreases self.my_team@.len() - i,
        {
            assert(self.my_team@.skip(i as int)[0] == self.my_team@[i as int]);
            assert(self.my_team@.skip(i as int).drop_first() =~= self.my_team@.skip(i + 1));
            if self.my_team[i].cell_id == cell_id {
                return Some(&self.my_team[i]);
            }
            i += 1;
        }
        None
    }

    pub open spec fn my_role(self) -> Seq<char> {
        match self.my_seat() {
            Some(p) => p.assigned_position@,
            None => ""@,
        }
    }

    /// The role this game, lowercase, or `""` in ARAM and blind pick.
    pub fn assigned_position(&self) -> (r: &str)
        ensures
            r@ == self.my_role(),
    {
        match self.me() {
            Some(p) => p.assigned_position.as_str(),
            None => "",
        }
    }

    /// My action that is still open, if any.
    ///
    /// Keyed on `completed` rather than `is_in_progress`: the latter is
    /// unreliable in modes where a whole group of bans resolves at once, which
    /// is exactly where a missed ban is most expensive.
    pub fn my_open_action(&self) -> (r: Option<&Action>)
        ensures
            value_of(r) == open_action(self.actions@, self.local_player_cell_id),
    {
        let cell_id: i64 = self.local_player_cell_id;
        let mut i: usize = 0;
        assert(self.actions@.skip(0) =~= self.actions@);
        while i < self.actions.len()
            invariant
                i <= self.actions@.len(),
                cell_id == self.local_player_cell_id,
                open_action(self.actions@, cell_id) == open_action(
                    self.actions@.skip(i as int),
                    cell_id,
                ),
            decreases self.actions@.len() - i,
        {
            assert(self.actions@.skip(i as int)[0] == self.actions@[i as int]);
            assert(self.actions@.skip(i as int).drop_first() =~= self.actions@.skip(i + 1));
            if !group_completed(&self.actions[i]) {
                return find_open(&self.actions[i], cell_id);
            }
            i += 1;
        }
        None
    }

    /// My first pick action that has not resolved, not necessarily the one in
    /// progress. This is what a pre-turn hover is put on, so teammates can see
    /// the intent during planning.
    pub fn my_first_unfinished_pick(&self) -> (r: Option<&Action>)
        ensures
            value_of(r) == first_open_pick(self.actions@, self.local_player_cell_id),
    {
        let cell_id: i64 = self.local_player_cell_id;
        let mut i: usize = 0;
        assert(self.actions@.skip(0) =~= self.actions@);
        while i < self.actions.len()
            invariant
                i <= self.actions@.len(),
                cell_id == self.local_player_cell_id,
                first_open_pick(self.actions@, cell_id) == first_open_pick(
                    self.actions@.skip(i as int),
                    cell_id,
                ),
            decreases self.actions@.len() - i,
        {
            assert(self.actions@.skip(i as int)[0] == self.actions@[i as int]);
            assert(self.actions@.skip(i as int).drop_first() =~= self.actions@.skip(i + 1));
            let found = find_open_pick(&self.actions[i], cell_id);
            if found.is_some() {
                return found;
            }
            i += 1;
        }
        None
    }

    /// An ally other than me is hovering this champion, and has not locked one.
    pub open spec fn hovered_by_ally(self, id: i32) -> bool {
        id > 0 && exists|i: int|
            0 <= i < self.my_team@.len() && (#[trigger] self.my_team@[i]).cell_id
                != self.local_player_cell_id && self.my_team@[i].champion_id <= 0
                && self.my_team@[i].champion_pick_intent == id
    }

    /// Champions an ally is hovering but has not locked.
    pub fn ally_pick_intents(&self) -> (r: HashSet<i32>)
        ensures
            forall|id: i32| #[trigger] r@.contains(id) == self.hovered_by_ally(id),
    {
        let mut out: HashSet<i32> = HashSet::new();
        let mut i: usize = 0;
        while i < self.my_team.len()
            invariant
                i <= self.my_team@.len(),
                forall|id: i32| #[trigger]
                    out@.contains(id) == (id > 0 && exists|j: int|
                        0 <= j < i && (#[trigger] self.my_team@[j]).cell_id
                            != self.local_player_cell_id && self.my_team@[j].champion_id <= 0
                            && self.my_team@[j].champion_pick_intent == id),
            decreases self.my_team@.len() - i,
        {
            let ghost before = out@;
            let player = &self.my_team[i];
            if player.cell_id != self.local_player_cell_id && player.champion_id <= 0
                && player.champion_pick_intent > 0 {
                out.insert(player.champion_pick_intent);
            }
            i += 1;
            proof {
                assert forall|id: i32| #[trigger]
                    out@.contains(id) == (id > 0 && exists|j: int|
                        0 <= j < i && (#[trigger] self.my_team@[j]).cell_id
                            != self.local_player_cell_id && self.my_team@[j].champion_id <= 0
                            && self.my_team@[j].champion_pick_intent == id) by {
                    assert(self.my_team@[i - 1] == *player);
                    assert(before.contains(id) ==> out@.contains(id));
                }
            }
        }
        out
    }

    /// The champion is banned by either team.
    pub open spec fn banned(self, id: i32) -> bool {
        self.bans.my_team_bans@.contains(id) || self.bans.their_team_bans@.contains(id)
    }

    pub open spec fn locked_in(team: Seq<PlayerSelection>, me: i64, id: i32) -> bool {
        exists|i: int|
            0 <= i < team.len() && (#[trigger] team[i]).champion_id == id && team[i].cell_id != me
    }

    /// The champion is off the table: banned by either team, or locked by
    /// someone other than me.
    pub open spec fn off_the_table(self, id: i32) -> bool {
        id > 0 && (self.banned(id) || ChampSelect::locked_in(
            self.my_team@,
            self.local_player_cell_id,
            id,
        ) || ChampSelect::locked_in(self.their_team@, self.local_player_cell_id, id))
    }

    /// Every champion already off the table: banned by either team, or locked.
    pub fn unavailable_champions(&self) -> (r: HashSet<i32>)
        ensures
            forall|id: i32| #[trigger] r@.contains(id) == self.off_the_table(id),
    {
        let mut out: HashSet<i32> = HashSet::new();
        add_positive(&mut out, &self.bans.my_team_bans);
        add_positive(&mut out, &self.bans.their_team_bans);
        add_locks(&mut out, &self.my_team, self.local_player_cell_id);
        add_locks(&mut out, &self.their_team, self.local_player_cell_id);
        out
    }
}

fn add_positive(out: &mut HashSet<i32>, ids: &Vec<i32>)
    ensures
        forall|id: i32| #[trigger]
            final(out)@.contains(id) == (old(out)@.contains(id) || id > 0 && ids@.contains(id)),
{
    let ghost before = out@;
    let mut i: usize = 0;
    while i < ids.len()
        invariant
            i <= ids@.len(),
            forall|id: i32| #[trigger]
                out@.contains(id) == (before.contains(id) || id > 0 && ids@.take(
                    i as int,
                ).contains(id)),
        decreases ids@.len() - i,
    {
        let ghost now = out@;
        let here: i32 = ids[i];
        if here > 0 {
            out.insert(here);
        }
        proof {
            assert(ids@.take(i + 1) =~= ids@.take(i as int).push(here));
            assert forall|id: i32| #[trigger]
                out@.contains(id) == (before.contains(id) || id > 0 && ids@.take(
                    i + 1,
                ).contains(id)) by {
                let shorter = ids@.take(i as int);
                assert(shorter.push(here)[i as int] == here);
                if shorter.contains(id) {
                    let w = choose|w: int| 0 <= w < shorter.len() && shorter[w] == id;
                    assert(shorter.push(here)[w] == id);
                }
                assert(now.contains(id) ==> out@.contains(id));
            }
        }
        i += 1;
    }
    assert(ids@.take(i as int) =~= ids@);
}

fn add_locks(out: &mut HashSet<i32>, team: &Vec<PlayerSelection>, me: i64)
    ensures
        forall|id: i32| #[trigger]
            final(out)@.contains(id) == (old(out)@.contains(id) || id > 0
                && ChampSelect::locked_in(team@, me, id)),
{
    let ghost before = out@;
    let mut i: usize = 0;
    while i < team.len()
        invariant
            i <= team@.len(),
            forall|id: i32| #[trigger]
                out@.contains(id) == (before.contains(id) || id > 0 && exists|j: int|
                    0 <= j < i && (#[trigger] team@[j]).champion_id == id && team@[j].cell_id
                        != me),
        decreases team@.len() - i,
    {
        let ghost now = out@;
        let player = &team[i];
        if player.champion_id > 0 && player.cell_id != me {
            out.insert(player.champion_id);
        }
        i += 1;
        proof {
            assert forall|id: i32| #[trigger]
                out@.contains(id) == (before.contains(id) || id > 0 && exists|j: int|
                    0 <= j < i && (#[trigger] team@[j]).champion_id == id && team@[j].cell_id
                        != me) by {
                assert(team@[i - 1] == *player);
                assert(now.contains(id) ==> out@.contains(id));
            }
        }
    }
}

// ── Champion grid ──

/// Per-champion live state during champ select: who has it hovered, whether it
/// is banned, whether it is already taken.
///
/// The pickable ids carry none of this: they are the server's hard rule set
/// (ownership, free rotation, queue restrictions) and nothing more.
#[derive(Clone, Copy, PartialEq, Eq, Debug, Default, Structural)]
pub struct ChampionSelection {
    pub selected_by_me: bool,
    pub ban_intented: bool,
    pub ban_intented_by_me: bool,
    pub is_banned: bool,
    pub pick_intented: bool,
    pub pick_intented_by_me: bool,
    pub picked_by_other_or_banned: bool,
}

#[derive(Debug, Default)]
pub struct GridChampion {
    pub id: i32,
    pub name: String,
    pub owned: bool,
    pub disabled: bool,
    pub free_to_play: bool,
    pub selection_status: ChampionSelection,
}

// ── The snapshot ──

/// Everything the app knows about the client right now.
#[derive(Debug, Default)]
pub struct Snapshot {
    pub phase: String,
    pub lobby: Option<Lobby>,
    pub search: Option<Search>,
    pub champ_select: Option<ChampSelect>,
    /// The server's hard rule set: already accounts for ownership, free
    /// rotation, queue and mode restrictions. Empty means "not known yet",
    /// which the selection logic treats as "don't filter on this".
    pub pickable: HashSet<i32>,
    /// Includes `-1`, the empty-ban sentinel, when an empty ban is legal.
    pub bannable: HashSet<i32>,
    pub grid: HashMap<i32, ChampionSelection>,
}

/// The phases in which sitting in the queue is possible at all.
pub open spec fn queue_phase(phase: Seq<char>) -> bool {
    ||| phase == ""@
    ||| phase == "None"@
    ||| phase == "Lobby"@
    ||| phase == "Matchmaking"@
    ||| phase == "ReadyCheck"@
}

impl Snapshot {
    pub open spec fn searching(self) -> bool {
        queue_phase(self.phase@) && match self.search {
            Some(search) => search.searching(),
            None => false,
        }
    }

    /// Whether we are actually sitting in the queue waiting for a match.
    ///
    /// The client's `isCurrentlyInQueue` is not that question. It stays true
    /// through champ select and the game itself, so without the phase the queue
    /// would be announced in the middle of a draft.
    pub fn is_searching(&self) -> (r: bool)
        ensures
            r == self.searching(),
    {
        let phase = self.phase.as_str();
        if !(text::same(phase, "") || text::same(phase, "None") || text::same(phase, "Lobby")
            || text::same(phase, "Matchmaking") || text::same(phase, "ReadyCheck")) {
            return false;
        }
        match &self.search {
            Some(search) => search.is_searching(),
            None => false,
        }
    }

    /// Whether the champion grid has been loaded at all. Until it has, hover and
    /// ban state is unknown and the session's own fields are the fallback.
    pub fn has_grid(&self) -> (r: bool)
        ensures
            r == (self.grid@.dom().len() > 0),
    {
        !self.grid.is_empty()
    }

    pub open spec fn grid_entry(self, champion_id: i32) -> Option<ChampionSelection> {
        if self.grid@.contains_key(champion_id) {
            Some(self.grid@[champion_id])
        } else {
            None
        }
    }

    pub fn selection(&self, champion_id: i32) -> (r: Option<&ChampionSelection>)
        ensures
            value_of(r) == self.grid_entry(champion_id),
    {
        self.grid.get(&champion_id)
    }
}

/// The snapshot and the events that change it.
#[derive(Debug, Default)]
pub struct LolState {
    inner: Snapshot,
}

impl LolState {
    pub closed spec fn snapshot(self) -> Snapshot {
        self.inner
    }

    pub fn new() -> (r: Self)
        ensures
            r.snapshot().phase@ == Seq::<char>::empty(),
            r.snapshot().lobby is None,
            r.snapshot().search is None,
            r.snapshot().champ_select is None,
            r.snapshot().pickable@ == Set::<i32>::empty(),
            r.snapshot().bannable@ == Set::<i32>::empty(),
            r.snapshot().grid@ == Map::<i32, ChampionSelection>::empty(),
    {
        LolState {
            inner: Snapshot {
                phase: String::new(),
                lobby: None,
                search: None,
                champ_select: None,
                pickable: HashSet::new(),
                bannable: HashSet::new(),
                grid: HashMap::new(),
            },
        }
    }

    pub fn get(&self) -> (r: &Snapshot)
        ensures
            *r == self.snapshot(),
    {
        &self.inner
    }

    pub fn set_phase(&mut self, phase: &str)
        ensures
            final(self).snapshot().phase@ == phase@,
            final(self).snapshot() == (Snapshot {
                phase: final(self).snapshot().phase,
                ..old(self).snapshot()
            }),
    {
        self.inner.phase = phase.to_owned();
    }

    /// `None` is the lobby's Delete event, which arrives with a null payload.
    pub fn set_lobby(&mut self, lobby: Option<Lobby>)
        ensures
            final(self).snapshot() == (Snapshot { lobby, ..old(self).snapshot() }),
    {
        self.inner.lobby = lobby;
    }

    pub fn set_search(&mut self, search: Option<Search>)
        ensures
            final(self).snapshot() == (Snapshot { search, ..old(self).snapshot() }),
    {
        self.inner.search = search;
    }

    pub fn set_champ_select(&mut self, session: Option<ChampSelect>)
        ensures
            final(self).snapshot() == (Snapshot { champ_select: session, ..old(self).snapshot() }),
    {
        self.inner.champ_select = session;
    }

    pub fn set_pickable(&mut self, ids: HashSet<i32>)
        ensures
            final(self).snapshot() == (Snapshot { pickable: ids, ..old(self).snapshot() }),
    {
        self.inner.pickable = ids;
    }

    pub fn set_bannable(&mut self, ids: HashSet<i32>)
        ensures
            final(self).snapshot() == (Snapshot { bannable: ids, ..old(self).snapshot() }),
    {
        self.inner.bannable = ids;
    }

    pub fn set_grid(&mut self, grid: HashMap<i32, ChampionSelection>)
        ensures
            final(self).snapshot() == (Snapshot { grid, ..old(self).snapshot() }),
    {
        self.inner.grid = grid;
    }

    /// Applies one champion's push update, leaving the rest of the grid alone.
    pub fn update_grid_champion(&mut self, id: i32, selection: ChampionSelection)
        ensures
            final(self).snapshot().grid@ == old(self).snapshot().grid@.insert(id, selection),
            final(self).snapshot() == (Snapshot {
                grid: final(self).snapshot().grid,
                ..old(self).snapshot()
            }),
    {
        self.inner.grid.insert(id, selection);
    }

    /// Drops everything that belongs to one game. Called when champ select ends,
    /// so a stale hover from the previous draft can't influence the next one.
    pub fn clear_champ_select(&mut self)
        ensures
            final(self).snapshot().champ_select is None,
            final(self).snapshot().pickable@ == Set::<i32>::empty(),
            final(self).snapshot().bannable@ == Set::<i32>::empty(),
            final(self).snapshot().grid@ == Map::<i32, ChampionSelection>::empty(),
            final(self).snapshot().phase == old(self).snapshot().phase,
            final(self).snapshot().lobby == old(self).snapshot().lobby,
            final(self).snapshot().search == old(self).snapshot().search,
    {
        self.inner.champ_select = None;
        self.inner.pickable.clear();
        self.inner.bannable.clear();
        self.inner.grid.clear();
    }
}

// ── Laws ──

proof fn lemma_worst_penalty(errors: Seq<SearchError>)
    ensures
        worst_penalty(errors) >= 0,
        forall|i: int|
            0 <= i < errors.len() ==> (#[trigger] errors[i]).penalty_time_remaining.millis
                <= worst_penalty(errors),
        worst_penalty(errors) == 0 || exists|i: int|
            0 <= i < errors.len() && (#[trigger] errors[i]).penalty_time_remaining.millis
                == worst_penalty(errors),
    decreases errors.len(),
{
    if errors.len() > 0 {
        let shorter = errors.drop_last();
        lemma_worst_penalty(shorter);
        assert forall|i: int| 0 <= i < errors.len() implies (
        #[trigger] errors[i]).penalty_time_remaining.millis <= worst_penalty(errors) by {
            if i < shorter.len() {
                assert(shorter[i] == errors[i]);
            }
        }
        if worst_penalty(errors) == worst_penalty(shorter) {
            if worst_penalty(shorter) != 0 {
                let w = choose|i: int|
                    0 <= i < shorter.len() && (
                    #[trigger] shorter[i]).penalty_time_remaining.millis == worst_penalty(shorter);
                assert(errors[w].penalty_time_remaining.millis == worst_penalty(errors));
            }
        } else {
            assert(errors[errors.len() - 1].penalty_time_remaining.millis == worst_penalty(errors));
        }
    }
}

/// The penalty is the longest of all that the client reports: none is longer, and
/// it is one of them, or there is none.
pub proof fn law_the_worst_penalty_counts(search: Search)
    ensures
        search.penalty_millis() >= 0,
        search.low_priority_data.penalty_time_remaining.millis <= search.penalty_millis(),
        forall|i: int|
            0 <= i < search.errors@.len() ==> (
            #[trigger] search.errors@[i]).penalty_time_remaining.millis <= search.penalty_millis(),
        search.penalty_millis() == 0 || search.penalty_millis()
            == search.low_priority_data.penalty_time_remaining.millis || exists|i: int|
            0 <= i < search.errors@.len() && (
            #[trigger] search.errors@[i]).penalty_time_remaining.millis == search.penalty_millis(),
{
    lemma_worst_penalty(search.errors@);
}

/// Time runs down one for one from what the client last said, and stops at zero.
/// A reading without a time of its own, or from the future, is taken as it is.
pub proof fn law_time_runs_down(timer: Timer, now_epoch_ms: i64)
    ensures
        timer.is_infinite <==> timer.time_left(now_epoch_ms as int) is Infinite,
        timer.time_left(now_epoch_ms as int) matches TimeLeft::Left(left) ==> {
            let said = timer.adjusted_time_left_in_phase;
            let at = timer.internal_now_in_epoch_ms;
            &&& at > 0 && now_epoch_ms >= at && said >= now_epoch_ms - at ==> left.millis == said - (
            now_epoch_ms - at)
            &&& at > 0 && now_epoch_ms >= at && said < now_epoch_ms - at ==> left.millis == 0
            &&& (at <= 0 || now_epoch_ms < at) && said >= 0 ==> left.millis == said
            &&& said < 0 ==> left.millis == 0
        },
{
}

proof fn lemma_in_seat(team: Seq<PlayerSelection>, cell_id: i64, seat: int)
    requires
        0 <= seat < team.len(),
        team[seat].cell_id == cell_id,
        forall|j: int| 0 <= j < seat ==> (#[trigger] team[j]).cell_id != cell_id,
    ensures
        in_seat(team, cell_id) == Some(team[seat]),
    decreases team.len(),
{
    if seat > 0 {
        let rest = team.drop_first();
        assert(team[0].cell_id != cell_id);
        assert forall|j: int| 0 <= j < seat - 1 implies (#[trigger] rest[j]).cell_id
            != cell_id by {
            assert(rest[j] == team[j + 1]);
        }
        lemma_in_seat(rest, cell_id, seat - 1);
    }
}

proof fn lemma_nobody_in_seat(team: Seq<PlayerSelection>, cell_id: i64)
    requires
        forall|j: int| 0 <= j < team.len() ==> (#[trigger] team[j]).cell_id != cell_id,
    ensures
        in_seat(team, cell_id) is None,
    decreases team.len(),
{
    if team.len() > 0 {
        let rest = team.drop_first();
        assert(team[0].cell_id != cell_id);
        assert forall|j: int| 0 <= j < rest.len() implies (#[trigger] rest[j]).cell_id
            != cell_id by {
            assert(rest[j] == team[j + 1]);
        }
        lemma_nobody_in_seat(rest, cell_id);
    }
}

/// My role is the position that the session assigns to the player in my own seat,
/// and to nobody else.
pub proof fn law_my_role_is_that_of_my_seat(session: ChampSelect, seat: int)
    requires
        0 <= seat < session.my_team@.len(),
        session.my_team@[seat].cell_id == session.local_player_cell_id,
        forall|j: int|
            0 <= j < seat ==> (#[trigger] session.my_team@[j]).cell_id
                != session.local_player_cell_id,
    ensures
        session.my_role() == session.my_team@[seat].assigned_position@,
{
    lemma_in_seat(session.my_team@, session.local_player_cell_id, seat);
}

/// Whoever has no seat has no role.
pub proof fn law_without_a_seat_there_is_no_role(session: ChampSelect)
    requires
        forall|j: int|
            0 <= j < session.my_team@.len() ==> (#[trigger] session.my_team@[j]).cell_id
                != session.local_player_cell_id,
    ensures
        session.my_role() == Seq::<char>::empty(),
{
    reveal_strlit("");
    lemma_nobody_in_seat(session.my_team@, session.local_player_cell_id);
    assert(""@ =~= Seq::<char>::empty());
}

proof fn lemma_open_for(group: Seq<Action>, cell_id: i64, i: int)
    requires
        0 <= i < group.len(),
        group[i].actor_cell_id == cell_id,
        !group[i].completed,
        forall|j: int|
            0 <= j < i ==> (#[trigger] group[j]).actor_cell_id != cell_id || group[j].completed,
    ensures
        open_for(group, cell_id) == Some(group[i]),
    decreases group.len(),
{
    if i > 0 {
        let rest = group.drop_first();
        assert(group[0].actor_cell_id != cell_id || group[0].completed);
        assert forall|j: int| 0 <= j < i - 1 implies (#[trigger] rest[j]).actor_cell_id != cell_id
            || rest[j].completed by {
            assert(rest[j] == group[j + 1]);
        }
        lemma_open_for(rest, cell_id, i - 1);
    }
}

/// It is my turn in the first group that is not finished, on my first action there
/// that is still open: that action is found, whatever is said of its progress.
pub proof fn law_my_turn_is_found(groups: Seq<Vec<Action>>, cell_id: i64, g: int, i: int)
    requires
        0 <= g < groups.len(),
        forall|h: int, k: int|
            0 <= h < g && 0 <= k < groups[h]@.len() ==> (#[trigger] groups[h]@[k]).completed,
        0 <= i < groups[g]@.len(),
        groups[g]@[i].actor_cell_id == cell_id,
        !groups[g]@[i].completed,
        forall|k: int|
            0 <= k < i ==> (#[trigger] groups[g]@[k]).actor_cell_id != cell_id
                || groups[g]@[k].completed,
    ensures
        open_action(groups, cell_id) == Some(groups[g]@[i]),
    decreases groups.len(),
{
    if g == 0 {
        assert(!all_completed(groups[0]@)) by {
            assert(!groups[0]@[i].completed);
        }
        lemma_open_for(groups[0]@, cell_id, i);
    } else {
        assert(all_completed(groups[0]@)) by {
            assert forall|k: int| 0 <= k < groups[0]@.len() implies (
            #[trigger] groups[0]@[k]).completed by {}
        }
        let rest = groups.drop_first();
        assert forall|h: int, k: int| 0 <= h < g - 1 && 0 <= k < rest[h]@.len() implies (
        #[trigger] rest[h]@[k]).completed by {
            assert(rest[h] == groups[h + 1]);
            assert(groups[h + 1]@[k].completed);
        }
        assert(rest[g - 1] == groups[g]);
        law_my_turn_is_found(rest, cell_id, g - 1, i);
    }
}

proof fn lemma_open_for_is_mine(group: Seq<Action>, cell_id: i64)
    ensures
        open_for(group, cell_id) matches Some(a) ==> a.actor_cell_id == cell_id && !a.completed
            && group.contains(a),
        open_for(group, cell_id) is None ==> forall|i: int|
            0 <= i < group.len() ==> (#[trigger] group[i]).actor_cell_id != cell_id
                || group[i].completed,
    decreases group.len(),
{
    if group.len() > 0 {
        let rest = group.drop_first();
        lemma_open_for_is_mine(rest, cell_id);
        if let Some(a) = open_for(rest, cell_id) {
            let w = choose|w: int| 0 <= w < rest.len() && rest[w] == a;
            assert(group[w + 1] == a);
        }
        if open_for(group, cell_id) is None {
            assert forall|i: int| 0 <= i < group.len() implies (#[trigger] group[i]).actor_cell_id
                != cell_id || group[i].completed by {
                if i > 0 {
                    assert(rest[i - 1] == group[i]);
                }
            }
        } else if !(open_for(rest, cell_id) is Some) || group[0].actor_cell_id == cell_id
            && !group[0].completed {
            assert(group[0] == group[0]);
        }
    }
}

/// An action that is found is mine and still open, and it stands in the first
/// group that is not finished; where none is found, no action of mine is open
/// there.
pub proof fn law_an_open_action_is_my_own(groups: Seq<Vec<Action>>, cell_id: i64, g: int)
    requires
        0 <= g < groups.len(),
        forall|h: int, k: int|
            0 <= h < g && 0 <= k < groups[h]@.len() ==> (#[trigger] groups[h]@[k]).completed,
        exists|k: int| 0 <= k < groups[g]@.len() && !(#[trigger] groups[g]@[k]).completed,
    ensures
        open_action(groups, cell_id) matches Some(a) ==> a.actor_cell_id == cell_id && !a.completed
            && groups[g]@.contains(a),
        open_action(groups, cell_id) is None ==> forall|k: int|
            0 <= k < groups[g]@.len() ==> (#[trigger] groups[g]@[k]).actor_cell_id != cell_id
                || groups[g]@[k].completed,
    decreases groups.len(),
{
    if g == 0 {
        let w = choose|k: int| 0 <= k < groups[g]@.len() && !(#[trigger] groups[g]@[k]).completed;
        assert(!all_completed(groups[0]@)) by {
            assert(!groups[0]@[w].completed);
        }
        lemma_open_for_is_mine(groups[0]@, cell_id);
    } else {
        assert(all_completed(groups[0]@)) by {
            assert forall|k: int| 0 <= k < groups[0]@.len() implies (
            #[trigger] groups[0]@[k]).completed by {}
        }
        let rest = groups.drop_first();
        assert forall|h: int, k: int| 0 <= h < g - 1 && 0 <= k < rest[h]@.len() implies (
        #[trigger] rest[h]@[k]).completed by {
            assert(rest[h] == groups[h + 1]);
            assert(groups[h + 1]@[k].completed);
        }
        assert(rest[g - 1] == groups[g]);
        law_an_open_action_is_my_own(rest, cell_id, g - 1);
    }
}

/// Once every action is done, none is open.
pub proof fn law_a_finished_draft_has_no_turn(groups: Seq<Vec<Action>>, cell_id: i64)
    requires
        forall|h: int, k: int|
            0 <= h < groups.len() && 0 <= k < groups[h]@.len() ==> (
            #[trigger] groups[h]@[k]).completed,
    ensures
        open_action(groups, cell_id) is None,
    decreases groups.len(),
{
    if groups.len() > 0 {
        assert(all_completed(groups[0]@)) by {
            assert forall|k: int| 0 <= k < groups[0]@.len() implies (
            #[trigger] groups[0]@[k]).completed by {}
        }
        let rest = groups.drop_first();
        assert forall|h: int, k: int| 0 <= h < rest.len() && 0 <= k < rest[h]@.len() implies (
        #[trigger] rest[h]@[k]).completed by {
            assert(rest[h] == groups[h + 1]);
            assert(groups[h + 1]@[k].completed);
        }
        law_a_finished_draft_has_no_turn(rest, cell_id);
    }
}

proof fn lemma_open_pick_in(group: Seq<Action>, cell_id: i64)
    ensures
        match open_pick_in(group, cell_id) {
            Some(a) => group.contains(a) && a.actor_cell_id == cell_id && a.action_type@ == "pick"@
                && !a.completed,
            None => forall|i: int|
                0 <= i < group.len() ==> !((#[trigger] group[i]).actor_cell_id == cell_id
                    && group[i].action_type@ == "pick"@ && !group[i].completed),
        },
    decreases group.len(),
{
    if group.len() > 0 {
        let rest = group.drop_first();
        lemma_open_pick_in(rest, cell_id);
        if is_open_pick(group[0], cell_id) {
            assert(group[0] == group[0]);
        } else {
            match open_pick_in(rest, cell_id) {
                Some(a) => {
                    let w = choose|w: int| 0 <= w < rest.len() && rest[w] == a;
                    assert(group[w + 1] == a);
                },
                None => {
                    assert forall|i: int| 0 <= i < group.len() implies !((
                    #[trigger] group[i]).actor_cell_id == cell_id && group[i].action_type@
                        == "pick"@ && !group[i].completed) by {
                        if i > 0 {
                            assert(rest[i - 1] == group[i]);
                        }
                    }
                },
            }
        }
    }
}

/// What is shown to the team before my turn goes on a pick of my own that has not
/// resolved; there is none only where I have none at all.
pub proof fn law_an_intent_goes_on_my_own_pick(groups: Seq<Vec<Action>>, cell_id: i64)
    ensures
        match first_open_pick(groups, cell_id) {
            Some(a) => a.actor_cell_id == cell_id && a.action_type@ == "pick"@ && !a.completed && (
            exists|g: int| 0 <= g < groups.len() && (#[trigger] groups[g])@.contains(a)),
            None => forall|g: int, i: int|
                0 <= g < groups.len() && 0 <= i < groups[g]@.len() ==> !((
                #[trigger] groups[g]@[i]).actor_cell_id == cell_id && groups[g]@[i].action_type@
                    == "pick"@ && !groups[g]@[i].completed),
        },
    decreases groups.len(),
{
    if groups.len() > 0 {
        let rest = groups.drop_first();
        lemma_open_pick_in(groups[0]@, cell_id);
        law_an_intent_goes_on_my_own_pick(rest, cell_id);
        if open_pick_in(groups[0]@, cell_id) is Some {
            assert(groups[0]@.contains(open_pick_in(groups[0]@, cell_id)->0));
        } else {
            match first_open_pick(rest, cell_id) {
                Some(a) => {
                    let w = choose|g: int| 0 <= g < rest.len() && (#[trigger] rest[g])@.contains(a);
                    assert(groups[w + 1]@.contains(a));
                },
                None => {
                    assert forall|g: int, i: int| 0 <= g < groups.len() && 0 <= i < groups[g]@.len()
                        implies !((#[trigger] groups[g]@[i]).actor_cell_id == cell_id
                        && groups[g]@[i].action_type@ == "pick"@ && !groups[g]@[i].completed) by {
                        if g > 0 {
                            assert(rest[g - 1] == groups[g]);
                            assert(!(rest[g - 1]@[i].actor_cell_id == cell_id
                                && rest[g - 1]@[i].action_type@ == "pick"@
                                && !rest[g - 1]@[i].completed));
                        }
                    }
                },
            }
        }
    }
}

/// Sitting in the queue takes two things: the client says so, and the phase is one
/// in which that can be. A draft or a game is none.
pub proof fn law_when_we_are_in_the_queue(snapshot: Snapshot)
    ensures
        snapshot.searching() <==> {
            &&& snapshot.search matches Some(search) && (search.is_currently_in_queue
                || search.search_state@ == "Searching"@)
            &&& {
                ||| snapshot.phase@.len() == 0
                ||| snapshot.phase@ == "None"@
                ||| snapshot.phase@ == "Lobby"@
                ||| snapshot.phase@ == "Matchmaking"@
                ||| snapshot.phase@ == "ReadyCheck"@
            }
        },
{
    reveal_strlit("");
    if snapshot.phase@.len() == 0 {
        assert(snapshot.phase@ =~= ""@);
    }
}

/// My own hover is nobody else's, and neither is one of somebody who has locked.
pub proof fn law_whose_hover_counts(session: ChampSelect, i: int)
    requires
        0 <= i < session.my_team@.len(),
        session.my_team@[i].champion_pick_intent > 0,
    ensures
        session.my_team@[i].cell_id != session.local_player_cell_id && session.my_team@[i].champion_id
            <= 0 ==> session.hovered_by_ally(session.my_team@[i].champion_pick_intent),
        (forall|j: int|
            0 <= j < session.my_team@.len() && (#[trigger] session.my_team@[j]).champion_pick_intent
                == session.my_team@[i].champion_pick_intent ==> session.my_team@[j].cell_id
                == session.local_player_cell_id || session.my_team@[j].champion_id > 0)
            ==> !session.hovered_by_ally(session.my_team@[i].champion_pick_intent),
{
}

/// A champion is off the table exactly where it is banned on either side or locked
/// by anyone but me.
pub proof fn law_what_is_off_the_table(session: ChampSelect, id: i32)
    ensures
        session.off_the_table(id) <==> id > 0 && {
            ||| session.bans.my_team_bans@.contains(id)
            ||| session.bans.their_team_bans@.contains(id)
            ||| exists|i: int|
                0 <= i < session.my_team@.len() && (#[trigger] session.my_team@[i]).champion_id
                    == id && session.my_team@[i].cell_id != session.local_player_cell_id
            ||| exists|i: int|
                0 <= i < session.their_team@.len() && (
                #[trigger] session.their_team@[i]).champion_id == id && session.their_team@[i].cell_id
                    != session.local_player_cell_id
        },
{
}

} // verus!

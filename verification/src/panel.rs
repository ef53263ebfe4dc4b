//! The info panel: everything that is shown of the client's state.

use crate::champions;
use crate::draft;
use crate::draft::Decision;
use crate::lcu::QueueModeInfo;
use crate::lol_state;
use crate::lol_state::{ChampSelect, Lobby, LobbyMember, PlayerSelection, Search, Snapshot};
use crate::mode;
use crate::mode::QueueModePayload;
use crate::overlay;
use crate::queue;
use crate::queues::QueueTable;
use crate::selection::{Intent, Skipped};
use crate::settings::Settings;
use crate::summoners::{RiotId, SummonerNames};
use crate::text;
use crate::time;
use crate::time::{Seconds, TimeLeft};
use std::collections::HashMap;
use vstd::prelude::*;

verus! {

broadcast use vstd::std_specs::hash::group_hash_axioms;

// ── How often ──

/// How often the panel is refreshed at most, in milliseconds. Champ select emits
/// its session on every hover and every timer tick; the panel does not need
/// that.
pub const STATE_EMIT_INTERVAL_MILLIS: u64 = 400;

/// When the panel was last refreshed, by a clock that never runs backwards.
#[derive(Clone, Copy, PartialEq, Eq, Debug, Structural)]
pub struct Throttle {
    pub last: Option<u64>,
}

impl Throttle {
    pub open spec fn lets_through(self, now: u64, force: bool) -> bool {
        force || match self.last {
            Some(at) => now - at >= STATE_EMIT_INTERVAL_MILLIS,
            None => true,
        }
    }

    pub fn new() -> (r: Self)
        ensures
            r.last is None,
    {
        Throttle { last: None }
    }

    /// Whether the panel is to be refreshed now. `force` is for events that are
    /// rare and significant on their own.
    pub fn allow(&mut self, now: u64, force: bool) -> (r: bool)
        ensures
            r == old(self).lets_through(now, force),
            final(self).last == (if r {
                Some(now)
            } else {
                old(self).last
            }),
    {
        if !force {
            if let Some(at) = self.last {
                if now < at || now - at < STATE_EMIT_INTERVAL_MILLIS {
                    return false;
                }
            }
        }
        self.last = Some(now);
        true
    }
}

/// Two refreshes that were not forced are never closer together than the
/// interval.
pub proof fn law_refreshes_are_spaced(at: u64, now: u64)
    requires
        now - at < STATE_EMIT_INTERVAL_MILLIS,
    ensures
        !(Throttle { last: Some(at) }).lets_through(now, false),
{
}

// ── The lobby ──

#[derive(Debug)]
pub struct MemberPanel {
    /// As a text: summoner ids routinely exceed 2^53, and would come back
    /// corrupted as a number.
    pub summoner_id: String,
    pub name: Option<String>,
    pub full_name: Option<String>,
    pub level: u32,
    pub icon_id: i32,
    pub is_leader: bool,
    pub is_spectator: bool,
    pub ready: bool,
    pub positions: Option<String>,
}

pub struct MemberView {
    pub summoner_id: Seq<char>,
    pub name: Option<Seq<char>>,
    pub full_name: Option<Seq<char>>,
    pub level: u32,
    pub icon_id: i32,
    pub is_leader: bool,
    pub is_spectator: bool,
    pub ready: bool,
    pub positions: Option<Seq<char>>,
}

impl View for MemberPanel {
    type V = MemberView;

    open spec fn view(&self) -> MemberView {
        MemberView {
            summoner_id: self.summoner_id@,
            name: text::optional(self.name),
            full_name: text::optional(self.full_name),
            level: self.level,
            icon_id: self.icon_id,
            is_leader: self.is_leader,
            is_spectator: self.is_spectator,
            ready: self.ready,
            positions: text::optional(self.positions),
        }
    }
}

/// A lane preference that says something.
pub open spec fn says_lane(p: Seq<char>) -> bool {
    p.len() > 0 && p != "UNSELECTED"@
}

/// "MIDDLE / TOP", or nothing for queues without a lane picker.
pub open spec fn lanes_of(member: LobbyMember) -> Option<Seq<char>> {
    let first = member.first_position_preference@;
    let second = member.second_position_preference@;
    if says_lane(first) && says_lane(second) {
        Some(first + " / "@ + second)
    } else if says_lane(first) {
        Some(first)
    } else if says_lane(second) {
        Some(second)
    } else {
        None
    }
}

fn names_lane(p: &str) -> (r: bool)
    ensures
        r == says_lane(p@),
{
    !p.is_empty() && !text::same(p, "UNSELECTED")
}

pub fn position_preferences(member: &LobbyMember) -> (r: Option<String>)
    ensures
        text::optional(r) == lanes_of(*member),
{
    let first = member.first_position_preference.as_str();
    let second = member.second_position_preference.as_str();
    if names_lane(first) && names_lane(second) {
        Some(text::cat3(first, " / ", second))
    } else if names_lane(first) {
        Some(first.to_owned())
    } else if names_lane(second) {
        Some(second.to_owned())
    } else {
        None
    }
}

/// The resolved name, else the one that older clients still put in the lobby.
pub open spec fn member_name(member: LobbyMember, known: Map<Seq<char>, RiotId>) -> Option<
    Seq<char>,
> {
    if known.contains_key(member.puuid@) && known[member.puuid@].name@.len() > 0 {
        Some(known[member.puuid@].name@)
    } else if member.summoner_name@.len() > 0 {
        Some(member.summoner_name@)
    } else {
        None
    }
}

pub open spec fn member_panel(member: LobbyMember, known: Map<Seq<char>, RiotId>) -> MemberView {
    MemberView {
        summoner_id: text::decimal(member.summoner_id as nat),
        name: member_name(member, known),
        full_name: if known.contains_key(member.puuid@) {
            Some(known[member.puuid@].full@)
        } else {
            None
        },
        level: member.summoner_level,
        icon_id: member.summoner_icon_id,
        is_leader: member.is_leader,
        is_spectator: member.is_spectator,
        ready: member.counts_as_ready(),
        positions: lanes_of(member),
    }
}

fn show_member(member: &LobbyMember, names: &SummonerNames) -> (r: MemberPanel)
    ensures
        r@ == member_panel(*member, names.known()),
{
    let id = names.get(member.puuid.as_str());
    let known_name = match &id {
        Some(id) => if !id.name.as_str().is_empty() {
            Some(id.name.clone())
        } else {
            None
        },
        None => None,
    };
    let name = match known_name {
        Some(name) => Some(name),
        None => if !member.summoner_name.as_str().is_empty() {
            Some(member.summoner_name.clone())
        } else {
            None
        },
    };
    let full_name = match &id {
        Some(id) => Some(id.full.clone()),
        None => None,
    };
    MemberPanel {
        summoner_id: text::write_u64(member.summoner_id),
        name,
        full_name,
        level: member.summoner_level,
        icon_id: member.summoner_icon_id,
        is_leader: member.is_leader,
        is_spectator: member.is_spectator,
        ready: member.is_ready(),
        positions: position_preferences(member),
    }
}

#[derive(Debug)]
pub struct LobbyPanel {
    pub members: Vec<MemberPanel>,
    pub max_size: u32,
    pub game_mode: String,
    pub queue_id: i64,
    pub is_custom: bool,
    /// Only the leader can start a search, so this decides whether the queue
    /// controls are offered at all.
    pub i_am_leader: bool,
    pub can_start_activity: bool,
}

#[verifier::ext_equal]
pub struct LobbyPanelView {
    pub members: Seq<MemberView>,
    pub max_size: u32,
    pub game_mode: Seq<char>,
    pub queue_id: i64,
    pub is_custom: bool,
    pub i_am_leader: bool,
    pub can_start_activity: bool,
}

pub open spec fn member_views(members: Seq<MemberPanel>) -> Seq<MemberView> {
    members.map_values(|m: MemberPanel| m@)
}

impl View for LobbyPanel {
    type V = LobbyPanelView;

    open spec fn view(&self) -> LobbyPanelView {
        LobbyPanelView {
            members: member_views(self.members@),
            max_size: self.max_size,
            game_mode: self.game_mode@,
            queue_id: self.queue_id,
            is_custom: self.is_custom,
            i_am_leader: self.i_am_leader,
            can_start_activity: self.can_start_activity,
        }
    }
}

pub open spec fn lobby_panel(lobby: Lobby, known: Map<Seq<char>, RiotId>) -> LobbyPanelView {
    LobbyPanelView {
        members: lobby.members@.map_values(|m: LobbyMember| member_panel(m, known)),
        max_size: lobby.game_config.max_lobby_size,
        game_mode: lobby.game_config.game_mode@,
        queue_id: lobby.game_config.queue_id,
        is_custom: lobby.game_config.is_custom,
        i_am_leader: lobby.led_by_me(),
        can_start_activity: lobby.can_start_activity,
    }
}

fn show_lobby(lobby: &Lobby, names: &SummonerNames) -> (r: LobbyPanel)
    ensures
        r@ == lobby_panel(*lobby, names.known()),
{
    let ghost known = names.known();
    let ghost all = lobby.members@.map_values(|m: LobbyMember| member_panel(m, known));
    let mut members: Vec<MemberPanel> = Vec::new();
    let mut i: usize = 0;
    assert(member_views(members@) =~= all.take(0));
    while i < lobby.members.len()
        invariant
            i <= lobby.members@.len(),
            known == names.known(),
            all == lobby.members@.map_values(|m: LobbyMember| member_panel(m, known)),
            member_views(members@) == all.take(i as int),
        decreases lobby.members@.len() - i,
    {
        let ghost before = member_views(members@);
        members.push(show_member(&lobby.members[i], names));
        assert(member_views(members@) =~= before.push(all[i as int]));
        i += 1;
        assert(all.take(i as int) =~= before.push(all[i - 1]));
    }
    assert(all.take(i as int) =~= all);
    LobbyPanel {
        members,
        max_size: lobby.game_config.max_lobby_size,
        game_mode: lobby.game_config.game_mode.clone(),
        queue_id: lobby.game_config.queue_id,
        is_custom: lobby.game_config.is_custom,
        i_am_leader: lobby.i_am_leader(),
        can_start_activity: lobby.can_start_activity,
    }
}

// ── The search ──

#[derive(Debug)]
pub struct SearchPanel {
    pub searching: bool,
    pub state: String,
    pub time_in_queue: Seconds,
    pub estimated: Seconds,
    pub penalty_remaining: Seconds,
}

pub struct SearchPanelView {
    pub searching: bool,
    pub state: Seq<char>,
    pub time_in_queue: Seconds,
    pub estimated: Seconds,
    pub penalty_remaining: Seconds,
}

impl View for SearchPanel {
    type V = SearchPanelView;

    open spec fn view(&self) -> SearchPanelView {
        SearchPanelView {
            searching: self.searching,
            state: self.state@,
            time_in_queue: self.time_in_queue,
            estimated: self.estimated,
            penalty_remaining: self.penalty_remaining,
        }
    }
}

/// The time in the queue without the low-priority delay that is counted inside
/// it; never below zero, and as far as the type reaches.
pub open spec fn queued_for(search: Search) -> Seconds {
    let span = search.time_in_queue.millis - search.low_priority_data.penalty_time.millis;
    Seconds { millis: time::smaller(time::larger(span, 0), i64::MAX as int) as i64 }
}

pub open spec fn search_panel(search: Search, searching: bool) -> SearchPanelView {
    SearchPanelView {
        searching,
        state: search.search_state@,
        time_in_queue: queued_for(search),
        estimated: search.estimated_queue_time,
        penalty_remaining: Seconds { millis: search.penalty_millis() as i64 },
    }
}

fn show_search(search: &Search, searching: bool) -> (r: SearchPanel)
    ensures
        r@ == search_panel(*search, searching),
{
    let span: i128 = search.time_in_queue.millis as i128
        - search.low_priority_data.penalty_time.millis as i128;
    let millis: i64 = if span <= 0 {
        0
    } else if span >= i64::MAX as i128 {
        i64::MAX
    } else {
        span as i64
    };
    SearchPanel {
        searching,
        state: search.search_state.clone(),
        time_in_queue: Seconds { millis },
        estimated: search.estimated_queue_time,
        penalty_remaining: search.penalty_remaining(),
    }
}

// ── Champ select ──

/// The name to show for a champion id; none for "no champion".
pub open spec fn shown_champion(names: Map<i32, Seq<char>>, id: i32) -> Option<Seq<char>> {
    if id <= 0 {
        None
    } else {
        Some(overlay::champion_label(names, id))
    }
}

pub fn champion_name(id_to_name: &HashMap<i32, String>, id: i32) -> (r: Option<String>)
    ensures
        text::optional(r) == shown_champion(champions::name_views(id_to_name@), id),
{
    if id <= 0 {
        return None;
    }
    Some(overlay::write_champion(id_to_name, id))
}

#[derive(Debug)]
pub struct PlayerPanel {
    pub cell_id: i64,
    pub champion_id: i32,
    pub champion_name: Option<String>,
    pub intent_id: i32,
    pub intent_name: Option<String>,
    pub position: String,
    pub is_me: bool,
    pub is_autofilled: bool,
}

pub struct PlayerView {
    pub cell_id: i64,
    pub champion_id: i32,
    pub champion_name: Option<Seq<char>>,
    pub intent_id: i32,
    pub intent_name: Option<Seq<char>>,
    pub position: Seq<char>,
    pub is_me: bool,
    pub is_autofilled: bool,
}

impl View for PlayerPanel {
    type V = PlayerView;

    open spec fn view(&self) -> PlayerView {
        PlayerView {
            cell_id: self.cell_id,
            champion_id: self.champion_id,
            champion_name: text::optional(self.champion_name),
            intent_id: self.intent_id,
            intent_name: text::optional(self.intent_name),
            position: self.position@,
            is_me: self.is_me,
            is_autofilled: self.is_autofilled,
        }
    }
}

pub open spec fn player_panel(
    p: PlayerSelection,
    me: i64,
    names: Map<i32, Seq<char>>,
) -> PlayerView {
    PlayerView {
        cell_id: p.cell_id,
        champion_id: p.champion_id,
        champion_name: shown_champion(names, p.champion_id),
        intent_id: p.champion_pick_intent,
        intent_name: shown_champion(names, p.champion_pick_intent),
        position: p.assigned_position@,
        is_me: p.cell_id == me,
        is_autofilled: p.is_autofilled,
    }
}

pub open spec fn team_panel(
    team: Seq<PlayerSelection>,
    me: i64,
    names: Map<i32, Seq<char>>,
) -> Seq<PlayerView> {
    team.map_values(|p: PlayerSelection| player_panel(p, me, names))
}

pub open spec fn player_views(players: Seq<PlayerPanel>) -> Seq<PlayerView> {
    players.map_values(|p: PlayerPanel| p@)
}

fn show_team(
    team: &Vec<PlayerSelection>,
    me: i64,
    id_to_name: &HashMap<i32, String>,
) -> (r: Vec<PlayerPanel>)
    ensures
        player_views(r@) == team_panel(team@, me, champions::name_views(id_to_name@)),
{
    let ghost names = champions::name_views(id_to_name@);
    let ghost all = team_panel(team@, me, names);
    let mut out: Vec<PlayerPanel> = Vec::new();
    let mut i: usize = 0;
    assert(player_views(out@) =~= all.take(0));
    while i < team.len()
        invariant
            i <= team@.len(),
            names == champions::name_views(id_to_name@),
            all == team_panel(team@, me, names),
            player_views(out@) == all.take(i as int),
        decreases team@.len() - i,
    {
        let p = &team[i];
        let ghost before = player_views(out@);
        out.push(
            PlayerPanel {
                cell_id: p.cell_id,
                champion_id: p.champion_id,
                champion_name: champion_name(id_to_name, p.champion_id),
                intent_id: p.champion_pick_intent,
                intent_name: champion_name(id_to_name, p.champion_pick_intent),
                position: p.assigned_position.clone(),
                is_me: p.cell_id == me,
                is_autofilled: p.is_autofilled,
            },
        );
        assert(player_views(out@) =~= before.push(all[i as int]));
        i += 1;
        assert(all.take(i as int) =~= before.push(all[i - 1]));
    }
    assert(all.take(i as int) =~= all);
    out
}

#[derive(Debug)]
pub struct BanPanel {
    pub champion_id: i32,
    pub champion_name: Option<String>,
}

/// The bans of a team, without the empty slots.
pub open spec fn ban_panel(ids: Seq<i32>, names: Map<i32, Seq<char>>) -> Seq<
    (i32, Option<Seq<char>>),
>
    decreases ids.len(),
{
    if ids.len() == 0 {
        Seq::empty()
    } else {
        let before = ban_panel(ids.drop_last(), names);
        if ids.last() > 0 {
            before.push((ids.last(), shown_champion(names, ids.last())))
        } else {
            before
        }
    }
}

pub open spec fn ban_views(bans: Seq<BanPanel>) -> Seq<(i32, Option<Seq<char>>)> {
    bans.map_values(|b: BanPanel| (b.champion_id, text::optional(b.champion_name)))
}

fn show_bans(ids: &Vec<i32>, id_to_name: &HashMap<i32, String>) -> (r: Vec<BanPanel>)
    ensures
        ban_views(r@) == ban_panel(ids@, champions::name_views(id_to_name@)),
{
    let ghost names = champions::name_views(id_to_name@);
    let mut out: Vec<BanPanel> = Vec::new();
    let mut i: usize = 0;
    assert(ban_views(out@) =~= ban_panel(ids@.take(0), names));
    while i < ids.len()
        invariant
            i <= ids@.len(),
            names == champions::name_views(id_to_name@),
            ban_views(out@) == ban_panel(ids@.take(i as int), names),
        decreases ids@.len() - i,
    {
        let id: i32 = ids[i];
        proof {
            assert(ids@.take(i + 1).drop_last() =~= ids@.take(i as int));
            assert(ids@.take(i + 1).last() == id);
        }
        if id > 0 {
            let ghost before = ban_views(out@);
            out.push(BanPanel { champion_id: id, champion_name: champion_name(id_to_name, id) });
            assert(ban_views(out@) =~= before.push((id, shown_champion(names, id))));
        }
        i += 1;
    }
    assert(ids@.take(i as int) =~= ids@);
    out
}

#[derive(Debug)]
pub struct DraftPanel {
    pub assigned_position: String,
    pub timer_phase: String,
    pub time_left: TimeLeft,
    pub my_team: Vec<PlayerPanel>,
    pub their_team: Vec<PlayerPanel>,
    pub my_bans: Vec<BanPanel>,
    pub their_bans: Vec<BanPanel>,
}

#[verifier::ext_equal]
pub struct DraftPanelView {
    pub assigned_position: Seq<char>,
    pub timer_phase: Seq<char>,
    pub time_left: TimeLeft,
    pub my_team: Seq<PlayerView>,
    pub their_team: Seq<PlayerView>,
    pub my_bans: Seq<(i32, Option<Seq<char>>)>,
    pub their_bans: Seq<(i32, Option<Seq<char>>)>,
}

impl View for DraftPanel {
    type V = DraftPanelView;

    open spec fn view(&self) -> DraftPanelView {
        DraftPanelView {
            assigned_position: self.assigned_position@,
            timer_phase: self.timer_phase@,
            time_left: self.time_left,
            my_team: player_views(self.my_team@),
            their_team: player_views(self.their_team@),
            my_bans: ban_views(self.my_bans@),
            their_bans: ban_views(self.their_bans@),
        }
    }
}

pub open spec fn draft_panel(
    session: ChampSelect,
    names: Map<i32, Seq<char>>,
    now_epoch_ms: i64,
) -> DraftPanelView {
    DraftPanelView {
        assigned_position: session.my_role(),
        timer_phase: session.timer.phase@,
        time_left: session.timer.time_left(now_epoch_ms as int),
        my_team: team_panel(session.my_team@, session.local_player_cell_id, names),
        their_team: team_panel(session.their_team@, session.local_player_cell_id, names),
        my_bans: ban_panel(session.bans.my_team_bans@, names),
        their_bans: ban_panel(session.bans.their_team_bans@, names),
    }
}

fn show_draft(
    session: &ChampSelect,
    id_to_name: &HashMap<i32, String>,
    now_epoch_ms: i64,
) -> (r: DraftPanel)
    ensures
        r@ == draft_panel(*session, champions::name_views(id_to_name@), now_epoch_ms),
{
    let me: i64 = session.local_player_cell_id;
    DraftPanel {
        assigned_position: session.assigned_position().to_owned(),
        timer_phase: session.timer.phase.clone(),
        time_left: session.timer.seconds_left(now_epoch_ms),
        my_team: show_team(&session.my_team, me, id_to_name),
        their_team: show_team(&session.their_team, me, id_to_name),
        my_bans: show_bans(&session.bans.my_team_bans, id_to_name),
        their_bans: show_bans(&session.bans.their_team_bans, id_to_name),
    }
}

// ── The last decision ──

#[derive(Debug)]
pub struct DecisionPanel {
    /// "pick" or "ban".
    pub what: &'static str,
    pub chosen: Option<String>,
    pub champion_id: Option<i32>,
    /// Each candidate that was passed over, and why.
    pub passed_over: Vec<(String, &'static str)>,
}

#[verifier::ext_equal]
pub struct DecisionPanelView {
    pub what: Seq<char>,
    pub chosen: Option<Seq<char>>,
    pub champion_id: Option<i32>,
    pub passed_over: Seq<(Seq<char>, Seq<char>)>,
}

impl View for DecisionPanel {
    type V = DecisionPanelView;

    open spec fn view(&self) -> DecisionPanelView {
        DecisionPanelView {
            what: self.what@,
            chosen: text::optional(self.chosen),
            champion_id: self.champion_id,
            passed_over: self.passed_over@.map_values(|p: (String, &'static str)| (p.0@, p.1@)),
        }
    }
}

pub open spec fn decision_panel(d: draft::DecisionView) -> DecisionPanelView {
    DecisionPanelView {
        what: match d.what {
            Intent::Pick => "pick"@,
            Intent::Ban => "ban"@,
        },
        chosen: match d.chosen {
            Some(c) => Some(c.0),
            None => None,
        },
        champion_id: match d.chosen {
            Some(c) => Some(c.1),
            None => None,
        },
        passed_over: d.passed_over.map_values(
            |p: (Seq<char>, Skipped)| (p.0, p.1.reason_spec()),
        ),
    }
}

fn show_decision(d: &Decision) -> (r: DecisionPanel)
    ensures
        r@ == decision_panel(d@),
{
    let mut passed_over: Vec<(String, &'static str)> = Vec::new();
    let mut i: usize = 0;
    while i < d.passed_over.len()
        invariant
            i <= d.passed_over@.len(),
            passed_over@.len() == i,
            forall|j: int|
                0 <= j < i ==> (#[trigger] passed_over@[j]).0@ == d.passed_over@[j].name@
                    && passed_over@[j].1@ == d.passed_over@[j].reason.reason_spec(),
        decreases d.passed_over@.len() - i,
    {
        passed_over.push((d.passed_over[i].name.clone(), d.passed_over[i].reason.reason()));
        i += 1;
    }
    let (chosen, champion_id) = match &d.chosen {
        Some(c) => (Some(c.0.clone()), Some(c.1)),
        None => (None, None),
    };
    let what = match d.what {
        Intent::Pick => "pick",
        Intent::Ban => "ban",
    };
    let r = DecisionPanel { what, chosen, champion_id, passed_over };
    assert(r@ =~= decision_panel(d@));
    r
}

// ── Everything ──

#[derive(Debug)]
pub struct ClientState {
    pub phase: String,
    pub connected: bool,
    pub auto_queue: bool,
    /// The verdict on starting a search, in words.
    pub gate: String,
    pub ready: bool,
    /// The mode travels with the state, not only as its own event: whoever loads
    /// between two of those would never learn the mode at all.
    pub queue_mode: Option<QueueModePayload>,
    pub lobby: Option<LobbyPanel>,
    pub search: Option<SearchPanel>,
    pub champ_select: Option<DraftPanel>,
    pub decision: Option<DecisionPanel>,
}

pub struct ClientStateView {
    pub phase: Seq<char>,
    pub connected: bool,
    pub auto_queue: bool,
    pub gate: Seq<char>,
    pub ready: bool,
    pub queue_mode: Option<mode::QueueModePayloadView>,
    pub lobby: Option<LobbyPanelView>,
    pub search: Option<SearchPanelView>,
    pub champ_select: Option<DraftPanelView>,
    pub decision: Option<DecisionPanelView>,
}

impl View for ClientState {
    type V = ClientStateView;

    open spec fn view(&self) -> ClientStateView {
        ClientStateView {
            phase: self.phase@,
            connected: self.connected,
            auto_queue: self.auto_queue,
            gate: self.gate@,
            ready: self.ready,
            queue_mode: mode::payload_view(self.queue_mode),
            lobby: match self.lobby {
                Some(l) => Some(l@),
                None => None,
            },
            search: match self.search {
                Some(s) => Some(s@),
                None => None,
            },
            champ_select: match self.champ_select {
                Some(c) => Some(c@),
                None => None,
            },
            decision: match self.decision {
                Some(d) => Some(d@),
                None => None,
            },
        }
    }
}

/// What the panel is built from.
pub struct PanelInput<'a> {
    pub snapshot: &'a Snapshot,
    pub settings: &'a Settings,
    pub id_to_name: &'a HashMap<i32, String>,
    pub summoners: &'a SummonerNames,
    pub queues: &'a QueueTable,
    pub current_mode: &'a Option<QueueModeInfo>,
    pub decision: &'a Option<Decision>,
    pub connected: bool,
    /// The user cancelled the search in this very lobby.
    pub cancelled: bool,
    /// The current time in milliseconds since the epoch.
    pub now_epoch_ms: i64,
}

impl<'a> PanelInput<'a> {
    pub open spec fn panel(self) -> ClientStateView {
        let gate = queue::verdict(*self.snapshot, *self.settings, self.cancelled);
        ClientStateView {
            phase: self.snapshot.phase@,
            connected: self.connected,
            auto_queue: self.settings.auto_queue,
            gate: gate.message(),
            ready: gate is Ready,
            queue_mode: mode::mode_payload(mode::mode_view(*self.current_mode), *self.queues),
            lobby: match self.snapshot.lobby {
                Some(lobby) => Some(lobby_panel(lobby, self.summoners.known())),
                None => None,
            },
            search: match self.snapshot.search {
                Some(search) => Some(search_panel(search, self.snapshot.searching())),
                None => None,
            },
            champ_select: match self.snapshot.champ_select {
                Some(session) => Some(
                    draft_panel(
                        session,
                        champions::name_views(self.id_to_name@),
                        self.now_epoch_ms,
                    ),
                ),
                None => None,
            },
            decision: match *self.decision {
                Some(d) => Some(decision_panel(d@)),
                None => None,
            },
        }
    }
}

/// Everything that the info panel shows.
pub fn build_client_state(input: &PanelInput) -> (r: ClientState)
    ensures
        r@ == input.panel(),
{
    let snapshot = input.snapshot;
    let gate = queue::evaluate_with(snapshot, input.settings, input.cancelled);
    let searching = snapshot.is_searching();
    let lobby = match &snapshot.lobby {
        Some(lobby) => Some(show_lobby(lobby, input.summoners)),
        None => None,
    };
    let search = match &snapshot.search {
        Some(search) => Some(show_search(search, searching)),
        None => None,
    };
    let champ_select = match &snapshot.champ_select {
        Some(session) => Some(show_draft(session, input.id_to_name, input.now_epoch_ms)),
        None => None,
    };
    let decision = match input.decision {
        Some(d) => Some(show_decision(d)),
        None => None,
    };
    ClientState {
        phase: snapshot.phase.clone(),
        connected: input.connected,
        auto_queue: input.settings.auto_queue,
        gate: gate.describe(),
        ready: gate.is_ready(),
        queue_mode: mode::build_queue_mode_payload(input.current_mode, input.queues),
        lobby,
        search,
        champ_select,
        decision,
    }
}

/// What the panel offers and what auto queue does never disagree: the panel says
/// "ready" exactly where a search would be started.
pub proof fn law_the_panel_agrees_with_auto_queue<'a>(input: PanelInput<'a>)
    ensures
        input.panel().ready == (queue::verdict(
            *input.snapshot,
            *input.settings,
            input.cancelled,
        ) is Ready),
        input.panel().lobby matches Some(lobby) ==> lobby.i_am_leader
            == input.snapshot.lobby->0.led_by_me(),
{
}

/// A refresh that is asked for is made where it is forced, is the first, or comes at
/// least four tenths of a second after the last.
pub proof fn law_when_the_panel_is_refreshed(throttle: Throttle, now: u64)
    ensures
        throttle.lets_through(now, true),
        throttle.last is None ==> throttle.lets_through(now, false),
        throttle.last matches Some(at) ==> (throttle.lets_through(now, false) <==> at + 400
            <= now),
{
}

/// Each player of a team is shown in their place: what they have locked, what they
/// hover, where they play, and whether that is me.
pub proof fn law_each_player_is_shown(
    team: Seq<PlayerSelection>,
    me: i64,
    names: Map<i32, Seq<char>>,
    i: int,
)
    requires
        0 <= i < team.len(),
    ensures
        ({
            let shown = team_panel(team, me, names)[i];
            &&& team_panel(team, me, names).len() == team.len()
            &&& shown.cell_id == team[i].cell_id
            &&& shown.champion_id == team[i].champion_id
            &&& shown.intent_id == team[i].champion_pick_intent
            &&& shown.position == team[i].assigned_position@
            &&& shown.is_me <==> team[i].cell_id == me
            &&& shown.is_autofilled == team[i].is_autofilled
            &&& team[i].champion_id > 0 && names.contains_key(team[i].champion_id)
                ==> shown.champion_name == Some(names[team[i].champion_id])
            &&& team[i].champion_id <= 0 ==> shown.champion_name is None
            &&& team[i].champion_pick_intent > 0 && names.contains_key(
                team[i].champion_pick_intent,
            ) ==> shown.intent_name == Some(names[team[i].champion_pick_intent])
            &&& team[i].champion_pick_intent <= 0 ==> shown.intent_name is None
        }),
{
}

/// The bans of a team are shown in their order, without the slots that are empty.
pub proof fn law_every_ban_is_shown(ids: Seq<i32>, names: Map<i32, Seq<char>>)
    ensures
        ban_panel(ids, names).map_values(|b: (i32, Option<Seq<char>>)| b.0) == ids.filter(
            |id: i32| id > 0,
        ),
    decreases ids.len(),
{
    reveal(Seq::filter);
    let first = |b: (i32, Option<Seq<char>>)| b.0;
    if ids.len() > 0 {
        law_every_ban_is_shown(ids.drop_last(), names);
        let before = ban_panel(ids.drop_last(), names);
        if ids.last() > 0 {
            let b = (ids.last(), shown_champion(names, ids.last()));
            assert(before.push(b).map_values(first) =~= before.map_values(first).push(b.0));
        }
    } else {
        assert(ban_panel(ids, names).map_values(first) =~= ids.filter(|id: i32| id > 0));
    }
}

/// Each member of a lobby is shown in their place, under the name that is known of
/// them, and ready exactly where they count as ready.
pub proof fn law_each_member_is_shown(lobby: Lobby, known: Map<Seq<char>, RiotId>, i: int)
    requires
        0 <= i < lobby.members@.len(),
    ensures
        ({
            let panel = lobby_panel(lobby, known);
            let member = lobby.members@[i];
            let shown = panel.members[i];
            &&& panel.members.len() == lobby.members@.len()
            &&& shown.is_leader == member.is_leader
            &&& shown.is_spectator == member.is_spectator
            &&& shown.ready == member.counts_as_ready()
            &&& shown.level == member.summoner_level
            &&& shown.icon_id == member.summoner_icon_id
            &&& known.contains_key(member.puuid@) ==> shown.full_name == Some(
                known[member.puuid@].full@,
            )
            &&& known.contains_key(member.puuid@) && known[member.puuid@].name@.len() > 0
                ==> shown.name == Some(known[member.puuid@].name@)
            &&& !known.contains_key(member.puuid@) && member.summoner_name@.len() > 0
                ==> shown.name == Some(member.summoner_name@)
            &&& panel.max_size == lobby.game_config.max_lobby_size
            &&& panel.queue_id == lobby.game_config.queue_id
            &&& panel.game_mode == lobby.game_config.game_mode@
            &&& panel.is_custom == lobby.game_config.is_custom
            &&& panel.can_start_activity == lobby.can_start_activity
            &&& panel.i_am_leader == lobby.led_by_me()
        }),
{
}

/// The time in the queue is shown without the penalty that is counted inside it, and
/// the penalty is the one that is still to be served.
pub proof fn law_how_long_we_have_queued(search: Search, searching: bool)
    ensures
        ({
            let shown = search_panel(search, searching);
            let span = search.time_in_queue.millis - search.low_priority_data.penalty_time.millis;
            &&& shown.searching == searching
            &&& shown.estimated == search.estimated_queue_time
            &&& 0 <= span <= i64::MAX ==> shown.time_in_queue.millis == span
            &&& span < 0 ==> shown.time_in_queue.millis == 0
            &&& shown.penalty_remaining.millis >= 0
            &&& shown.penalty_remaining.millis
                >= search.low_priority_data.penalty_time_remaining.millis
        }),
{
    lol_state::law_the_worst_penalty_counts(search);
}

/// The panel shows the draft from my side: my team is mine, the bans are on their own
/// sides, and the time left is that of now.
pub proof fn law_the_draft_is_shown_from_my_side(
    session: ChampSelect,
    names: Map<i32, Seq<char>>,
    now_epoch_ms: i64,
)
    ensures
        ({
            let shown = draft_panel(session, names, now_epoch_ms);
            &&& shown.my_team.len() == session.my_team@.len()
            &&& shown.their_team.len() == session.their_team@.len()
            &&& forall|i: int|
                0 <= i < session.my_team@.len() ==> (#[trigger] shown.my_team[i]).cell_id
                    == session.my_team@[i].cell_id
            &&& forall|i: int|
                0 <= i < session.their_team@.len() ==> (#[trigger] shown.their_team[i]).cell_id
                    == session.their_team@[i].cell_id
            &&& shown.my_bans.map_values(|b: (i32, Option<Seq<char>>)| b.0)
                == session.bans.my_team_bans@.filter(|id: i32| id > 0)
            &&& shown.their_bans.map_values(|b: (i32, Option<Seq<char>>)| b.0)
                == session.bans.their_team_bans@.filter(|id: i32| id > 0)
            &&& shown.assigned_position == session.my_role()
            &&& shown.timer_phase == session.timer.phase@
            &&& shown.time_left == session.timer.time_left(now_epoch_ms as int)
        }),
{
    law_every_ban_is_shown(session.bans.my_team_bans@, names);
    law_every_ban_is_shown(session.bans.their_team_bans@, names);
}

/// The panel shows what is known and nothing else: a lobby, a search and a draft
/// exactly where there is one, the phase and the connection as they are, the verdict
/// in its own words, and the last decision with what was chosen.
pub proof fn law_the_panel_shows_what_is_known<'a>(input: PanelInput<'a>)
    ensures
        ({
            let shown = input.panel();
            &&& shown.phase == input.snapshot.phase@
            &&& shown.connected == input.connected
            &&& shown.auto_queue == input.settings.auto_queue
            &&& shown.gate == queue::verdict(
                *input.snapshot,
                *input.settings,
                input.cancelled,
            ).message()
            &&& shown.lobby is Some <==> input.snapshot.lobby is Some
            &&& shown.search is Some <==> input.snapshot.search is Some
            &&& shown.search matches Some(search) ==> search.searching
                == input.snapshot.searching()
            &&& shown.champ_select is Some <==> input.snapshot.champ_select is Some
            &&& shown.queue_mode is Some <==> input.current_mode is Some
            &&& shown.queue_mode matches Some(q) ==> q.game_mode == input.current_mode->0.game_mode@
                && q.queue_id == input.current_mode->0.queue_id && q.map_id
                == input.current_mode->0.map_id
            &&& shown.decision is Some <==> input.decision is Some
            &&& shown.decision matches Some(d) ==> match input.decision->0.chosen {
                Some(chosen) => d.chosen == Some(chosen.0@) && d.champion_id == Some(chosen.1),
                None => d.chosen is None && d.champion_id is None,
            }
            &&& shown.decision matches Some(d) ==> d.passed_over.len()
                == input.decision->0.passed_over@.len()
        }),
{
}

/// The lanes that a member asked for are shown in the order of their wish, each where it
/// says something.
pub proof fn law_which_lanes_are_shown(member: LobbyMember)
    ensures
        ({
            let first = member.first_position_preference@;
            let second = member.second_position_preference@;
            let says = |p: Seq<char>| p.len() > 0 && p != "UNSELECTED"@;
            &&& says(first) && says(second) ==> lanes_of(member) == Some(first + " / "@ + second)
            &&& says(first) && !says(second) ==> lanes_of(member) == Some(first)
            &&& !says(first) && says(second) ==> lanes_of(member) == Some(second)
            &&& !says(first) && !says(second) ==> lanes_of(member) is None
        }),
{
}

} // verus!

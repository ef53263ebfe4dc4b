//! Deciding whether to start matchmaking, and why not when not.
//!
//! The one rule that matters here: the lobby's `can_start_activity` is not
//! recomputed. The client already folds queue eligibility, premade size,
//! position requirements, level and rank restrictions and penalty timers into
//! that one boolean. Everything below it is either a check the client cannot
//! make for us (are we the leader, has the user's own trigger been met) or a
//! check that exists purely to produce a better message than "no".

use crate::lol_state;
use crate::lol_state::{Lobby, LobbyMember, Snapshot};
use crate::settings::Settings;
use crate::text;
use crate::time::Seconds;
use vstd::prelude::*;

verus! {

/// How the user wants the queue started.
#[derive(Clone, Copy, PartialEq, Eq, Debug, Structural)]
pub enum Trigger {
    /// Every seat filled. For solo queue the lobby is "full" at one.
    Full,
    /// A configurable headcount, for duos and flex.
    Members,
    /// Every member flagged ready.
    Ready,
}

impl Trigger {
    pub open spec fn named(value: Seq<char>) -> Trigger {
        if value == "members"@ {
            Trigger::Members
        } else if value == "ready"@ {
            Trigger::Ready
        } else {
            Trigger::Full
        }
    }

    pub fn parse(value: &str) -> (r: Self)
        ensures
            r == Trigger::named(value@),
    {
        if text::same(value, "members") {
            Trigger::Members
        } else if text::same(value, "ready") {
            Trigger::Ready
        } else {
            Trigger::Full
        }
    }
}

/// Why we are or aren't starting a search.
#[derive(Debug, PartialEq)]
pub enum Gate {
    Ready,
    Disabled,
    NoLobby,
    /// Custom games have no matchmaking to start.
    CustomGame,
    /// Not in the lobby phase: already searching, in champ select, in a game.
    WrongPhase(String),
    AlreadySearching,
    /// A non-leader cannot start a search; the client rejects it outright.
    NotLeader,
    /// A dodge or leaver penalty still running. Queuing now cannot succeed.
    Penalty { secs: Seconds },
    /// The client says no and named a reason.
    Restricted(String),
    /// The user's own trigger has not been met yet.
    WaitingForMembers { have: usize, need: usize },
    NotEveryoneReady { ready: usize, total: usize },
    /// `can_start_activity` is false and nothing told us why.
    ClientRefuses,
    /// The user left the queue by hand. Auto queue holds off until the lobby
    /// itself changes, because re-queueing someone who just cancelled is the one
    /// failure mode that makes the feature unusable.
    CancelledByUser,
}

/// A verdict as a plain value.
pub enum GateView {
    Ready,
    Disabled,
    NoLobby,
    CustomGame,
    WrongPhase(Seq<char>),
    AlreadySearching,
    NotLeader,
    Penalty(Seconds),
    Restricted(Seq<char>),
    WaitingForMembers { have: nat, need: nat },
    NotEveryoneReady { ready: nat, total: nat },
    ClientRefuses,
    CancelledByUser,
}

impl View for Gate {
    type V = GateView;

    open spec fn view(&self) -> GateView {
        match self {
            Gate::Ready => GateView::Ready,
            Gate::Disabled => GateView::Disabled,
            Gate::NoLobby => GateView::NoLobby,
            Gate::CustomGame => GateView::CustomGame,
            Gate::WrongPhase(phase) => GateView::WrongPhase(phase@),
            Gate::AlreadySearching => GateView::AlreadySearching,
            Gate::NotLeader => GateView::NotLeader,
            Gate::Penalty { secs } => GateView::Penalty(*secs),
            Gate::Restricted(code) => GateView::Restricted(code@),
            Gate::WaitingForMembers { have, need } => GateView::WaitingForMembers {
                have: *have as nat,
                need: *need as nat,
            },
            Gate::NotEveryoneReady { ready, total } => GateView::NotEveryoneReady {
                ready: *ready as nat,
                total: *total as nat,
            },
            Gate::ClientRefuses => GateView::ClientRefuses,
            Gate::CancelledByUser => GateView::CancelledByUser,
        }
    }
}

// ── Messages ──

/// A span in whole seconds, half a second rounded up; nothing below zero.
pub open spec fn rounded_secs(span: Seconds) -> nat {
    if span.millis <= 0 {
        0
    } else {
        ((span.millis + 500) / 1000) as nat
    }
}

/// How a span reads: minutes and seconds from a minute on.
pub open spec fn duration_text(span: Seconds) -> Seq<char> {
    let total = rounded_secs(span);
    if total >= 60 {
        text::decimal(total / 60) + " min "@ + text::decimal(total % 60) + " s"@
    } else {
        text::decimal(total) + " s"@
    }
}

pub fn format_duration(secs: Seconds) -> (r: String)
    ensures
        r@ == duration_text(secs),
{
    let total: u64 = if secs.millis <= 0 {
        0
    } else {
        let whole: u64 = (secs.millis / 1000) as u64;
        if secs.millis % 1000 >= 500 {
            whole + 1
        } else {
            whole
        }
    };
    assert(total == rounded_secs(secs));
    if total >= 60 {
        let mut out = text::cat(text::write_u64(total / 60).as_str(), " min ");
        out.append(text::write_u64(total % 60).as_str());
        out.append(" s");
        out
    } else {
        text::cat(text::write_u64(total).as_str(), " s")
    }
}

/// Catalan for the restriction codes worth naming; any other stands for itself.
pub open spec fn restriction_text(code: Seq<char>) -> Seq<char> {
    if code == "PlayerDodgeRestriction"@ {
        "penalització per dodge"@
    } else if code == "PlayerLeaverBustedRestriction"@ || code
        == "PlayerLeaverQueueLockoutRestriction"@ {
        "penalització per abandonar partides"@
    } else if code == "PlayerReadyCheckFailRestriction"@ {
        "no has acceptat una partida"@
    } else if code == "PlayerMinLevelRestriction"@ {
        "nivell insuficient per a aquesta cua"@
    } else if code == "QueueDisabled"@ {
        "cua desactivada"@
    } else if code == "TeamMinSizeRestriction"@ {
        "falta gent a la sala"@
    } else if code == "TeamMaxSizeRestriction"@ {
        "hi ha massa gent a la sala"@
    } else if code == "FullPartyUnranked"@ {
        "el grup no pot jugar aquesta cua"@
    } else if code == "QPInvalidPositionSelectionRestriction"@ || code
        == "QPPartyPositionCoverageRestriction"@ {
        "falten posicions per triar"@
    } else if code == "QPInvalidChampionSelectionRestriction"@ {
        "falten champions per triar"@
    } else if code == "QPScarcePositionsNotAvailableRestriction"@ {
        "posicions no disponibles"@
    } else {
        code
    }
}

/// Catalan for the restriction codes worth naming. Anything else falls back to
/// the raw code: better an untranslated token than a silent "no".
pub fn restriction(code: &str) -> (r: &str)
    ensures
        r@ == restriction_text(code@),
{
    if text::same(code, "PlayerDodgeRestriction") {
        "penalització per dodge"
    } else if text::same(code, "PlayerLeaverBustedRestriction") || text::same(
        code,
        "PlayerLeaverQueueLockoutRestriction",
    ) {
        "penalització per abandonar partides"
    } else if text::same(code, "PlayerReadyCheckFailRestriction") {
        "no has acceptat una partida"
    } else if text::same(code, "PlayerMinLevelRestriction") {
        "nivell insuficient per a aquesta cua"
    } else if text::same(code, "QueueDisabled") {
        "cua desactivada"
    } else if text::same(code, "TeamMinSizeRestriction") {
        "falta gent a la sala"
    } else if text::same(code, "TeamMaxSizeRestriction") {
        "hi ha massa gent a la sala"
    } else if text::same(code, "FullPartyUnranked") {
        "el grup no pot jugar aquesta cua"
    } else if text::same(code, "QPInvalidPositionSelectionRestriction") || text::same(
        code,
        "QPPartyPositionCoverageRestriction",
    ) {
        "falten posicions per triar"
    } else if text::same(code, "QPInvalidChampionSelectionRestriction") {
        "falten champions per triar"
    } else if text::same(code, "QPScarcePositionsNotAvailableRestriction") {
        "posicions no disponibles"
    } else {
        code
    }
}

/// Two counts as they read in a message.
pub open spec fn count_text(have: nat, need: nat) -> Seq<char> {
    text::decimal(have) + "/"@ + text::decimal(need) + ")"@
}

fn write_count(have: usize, need: usize) -> (r: String)
    ensures
        r@ == count_text(have as nat, need as nat),
{
    let mut out = text::cat(text::write_u64(have as u64).as_str(), "/");
    out.append(text::write_u64(need as u64).as_str());
    out.append(")");
    out
}

impl GateView {
    pub open spec fn message(self) -> Seq<char> {
        match self {
            GateView::Ready => "A punt per encuar"@,
            GateView::Disabled => "Auto cerca desactivada"@,
            GateView::NoLobby => "Cap sala oberta"@,
            GateView::CustomGame => "Partida personalitzada: no hi ha cua"@,
            GateView::WrongPhase(phase) => "No s'està a la sala ("@ + phase + ")"@,
            GateView::AlreadySearching => "Ja s'està buscant partida"@,
            GateView::NotLeader => "No ets el líder de la sala"@,
            GateView::Penalty(secs) => "Penalització activa: "@ + duration_text(secs),
            GateView::Restricted(code) => "El client no deixa encuar: "@ + restriction_text(code),
            GateView::WaitingForMembers { have, need } => "Esperant jugadors ("@ + count_text(
                have,
                need,
            ),
            GateView::NotEveryoneReady { ready, total } => "Falta gent per estar preparada ("@
                + count_text(ready, total),
            GateView::ClientRefuses => "El client encara no deixa encuar"@,
            GateView::CancelledByUser =>
                "Has sortit de la cua. Torna a activar l'interruptor per encuar sol."@,
        }
    }

    pub open spec fn noteworthy(self) -> bool {
        self is Penalty || self is Restricted || self is ClientRefuses || self is NotLeader
    }
}

impl Gate {
    pub fn is_ready(&self) -> (r: bool)
        ensures
            r == (self@ is Ready),
    {
        match self {
            Gate::Ready => true,
            _ => false,
        }
    }

    /// Whether this is worth telling the user about.
    ///
    /// "Waiting for a fifth" is the normal state of a lobby and would spam the
    /// log; a penalty or a restriction is something they need to know.
    pub fn is_noteworthy(&self) -> (r: bool)
        ensures
            r == self@.noteworthy(),
    {
        match self {
            Gate::Penalty { .. } => true,
            Gate::Restricted(_) => true,
            Gate::ClientRefuses => true,
            Gate::NotLeader => true,
            _ => false,
        }
    }

    /// Catalan, for the log and the info panel.
    pub fn describe(&self) -> (r: String)
        ensures
            r@ == self@.message(),
    {
        match self {
            Gate::Ready => "A punt per encuar".to_owned(),
            Gate::Disabled => "Auto cerca desactivada".to_owned(),
            Gate::NoLobby => "Cap sala oberta".to_owned(),
            Gate::CustomGame => "Partida personalitzada: no hi ha cua".to_owned(),
            Gate::WrongPhase(phase) => text::cat3("No s'està a la sala (", phase.as_str(), ")"),
            Gate::AlreadySearching => "Ja s'està buscant partida".to_owned(),
            Gate::NotLeader => "No ets el líder de la sala".to_owned(),
            Gate::Penalty { secs } => text::cat(
                "Penalització activa: ",
                format_duration(*secs).as_str(),
            ),
            Gate::Restricted(code) => text::cat(
                "El client no deixa encuar: ",
                restriction(code.as_str()),
            ),
            Gate::WaitingForMembers { have, need } => text::cat(
                "Esperant jugadors (",
                write_count(*have, *need).as_str(),
            ),
            Gate::NotEveryoneReady { ready, total } => text::cat(
                "Falta gent per estar preparada (",
                write_count(*ready, *total).as_str(),
            ),
            Gate::ClientRefuses => "El client encara no deixa encuar".to_owned(),
            Gate::CancelledByUser =>
                "Has sortit de la cua. Torna a activar l'interruptor per encuar sol.".to_owned(),
        }
    }
}

// ── The verdict ──

/// How many members count as ready.
pub open spec fn ready_count(members: Seq<LobbyMember>) -> nat
    decreases members.len(),
{
    if members.len() == 0 {
        0
    } else {
        ready_count(members.drop_last()) + if members.last().counts_as_ready() {
            1nat
        } else {
            0nat
        }
    }
}

/// What the user's own trigger still waits for, if anything.
pub open spec fn still_waiting(lobby: Lobby, trigger: Trigger, min_members: u32) -> Option<
    GateView,
> {
    let members = lobby.members@.len();
    let capacity = lobby.game_config.max_lobby_size as nat;
    let need = if min_members >= 1 {
        min_members as nat
    } else {
        1
    };
    let ready = ready_count(lobby.members@);
    match trigger {
        Trigger::Full => if !lobby.game_config.is_lobby_full && capacity > 0 && members < capacity {
            Some(GateView::WaitingForMembers { have: members, need: capacity })
        } else {
            None
        },
        Trigger::Members => if members < need {
            Some(GateView::WaitingForMembers { have: members, need })
        } else {
            None
        },
        Trigger::Ready => if ready < members || members == 0 {
            Some(GateView::NotEveryoneReady { ready, total: members })
        } else {
            None
        },
    }
}

/// The penalty that stands in the way, in milliseconds; zero where there is
/// none.
pub open spec fn penalty_of(snapshot: Snapshot) -> int {
    match snapshot.search {
        Some(search) => search.penalty_millis(),
        None => 0,
    }
}

/// What this lobby comes to, once nothing outside it stands in the way.
pub open spec fn lobby_verdict(
    lobby: Lobby,
    penalty: int,
    trigger: Trigger,
    min_members: u32,
) -> GateView {
    if lobby.game_config.is_custom {
        GateView::CustomGame
    } else if !lobby.led_by_me() {
        GateView::NotLeader
    } else if penalty > 0 {
        GateView::Penalty(Seconds { millis: penalty as i64 })
    } else if lobby.restrictions@.len() > 0 {
        GateView::Restricted(lobby.restrictions@[0].restriction_code@)
    } else {
        match still_waiting(lobby, trigger, min_members) {
            Some(gate) => gate,
            None => if lobby.can_start_activity {
                GateView::Ready
            } else {
                GateView::ClientRefuses
            },
        }
    }
}

/// Should we start a search right now, and if not, why not.
pub open spec fn verdict(snapshot: Snapshot, settings: Settings, cancelled: bool) -> GateView {
    if !settings.auto_queue {
        GateView::Disabled
    } else if snapshot.searching() {
        GateView::AlreadySearching
    } else if snapshot.phase@.len() > 0 && snapshot.phase@ != "Lobby"@ {
        GateView::WrongPhase(snapshot.phase@)
    } else if cancelled {
        GateView::CancelledByUser
    } else {
        match snapshot.lobby {
            None => GateView::NoLobby,
            Some(lobby) => lobby_verdict(
                lobby,
                penalty_of(snapshot),
                Trigger::named(settings.auto_queue_trigger@),
                settings.auto_queue_min_members,
            ),
        }
    }
}

fn count_ready(members: &Vec<LobbyMember>) -> (r: usize)
    ensures
        r == ready_count(members@),
        r <= members@.len(),
{
    let mut count: usize = 0;
    let mut i: usize = 0;
    while i < members.len()
        invariant
            i <= members@.len(),
            count <= i,
            count == ready_count(members@.take(i as int)),
        decreases members@.len() - i,
    {
        proof {
            assert(members@.take(i + 1).drop_last() =~= members@.take(i as int));
            assert(members@.take(i + 1).last() == members@[i as int]);
        }
        if members[i].is_ready() {
            count += 1;
        }
        i += 1;
    }
    assert(members@.take(i as int) =~= members@);
    count
}

fn trigger_gate(lobby: &Lobby, trigger: Trigger, min_members: u32) -> (r: Option<Gate>)
    ensures
        match r {
            Some(gate) => still_waiting(*lobby, trigger, min_members) == Some(gate@),
            None => still_waiting(*lobby, trigger, min_members) is None,
        },
{
    let members: usize = lobby.members.len();
    match trigger {
        Trigger::Full => {
            // The client's own verdict first. Comparing members against the
            // capacity looks right and is not: Arena reports a capacity of 16-18
            // while you queue solo or as a duo.
            let capacity: usize = lobby.game_config.max_lobby_size as usize;
            if !lobby.game_config.is_lobby_full && capacity > 0 && members < capacity {
                return Some(Gate::WaitingForMembers { have: members, need: capacity });
            }
        },
        Trigger::Members => {
            let need: usize = if min_members >= 1 {
                min_members as usize
            } else {
                1
            };
            if members < need {
                return Some(Gate::WaitingForMembers { have: members, need });
            }
        },
        Trigger::Ready => {
            let ready: usize = count_ready(&lobby.members);
            if ready < members || members == 0 {
                return Some(Gate::NotEveryoneReady { ready, total: members });
            }
        },
    }
    None
}

/// Should we start a search right now, and if not, why not. `cancelled` is the
/// one piece of state that is not in the snapshot: whether the user cancelled
/// this lobby's search themselves.
pub fn evaluate_with(snapshot: &Snapshot, settings: &Settings, cancelled: bool) -> (r: Gate)
    ensures
        r@ == verdict(*snapshot, *settings, cancelled),
{
    if !settings.auto_queue {
        return Gate::Disabled;
    }
    // Searching already, or past the lobby entirely. The phase is empty before
    // the first gameflow event arrives, which is not the same as being in a
    // lobby.
    if snapshot.is_searching() {
        return Gate::AlreadySearching;
    }
    if !snapshot.phase.as_str().is_empty() && !text::same(snapshot.phase.as_str(), "Lobby") {
        return Gate::WrongPhase(snapshot.phase.clone());
    }
    // After "already searching", so leaving the queue is reported as the user's
    // choice it was rather than as an error, and before everything else, so no
    // other condition can talk us back into queueing.
    if cancelled {
        return Gate::CancelledByUser;
    }
    let lobby = match &snapshot.lobby {
        Some(lobby) => lobby,
        None => {
            return Gate::NoLobby;
        },
    };
    if lobby.game_config.is_custom {
        return Gate::CustomGame;
    }
    // The client rejects a search from anyone but the leader.
    if !lobby.i_am_leader() {
        return Gate::NotLeader;
    }
    // Checked before the client's verdict so the message names the real problem
    // rather than the generic refusal it causes.
    if let Some(search) = &snapshot.search {
        let penalty = search.penalty_remaining();
        if penalty.millis > 0 {
            return Gate::Penalty { secs: penalty };
        }
    }
    if lobby.restrictions.len() > 0 {
        return Gate::Restricted(lobby.restrictions[0].restriction_code.clone());
    }
    if let Some(gate) = trigger_gate(
        lobby,
        Trigger::parse(settings.auto_queue_trigger.as_str()),
        settings.auto_queue_min_members,
    ) {
        return gate;
    }
    // Everything the client knows, in one boolean. Last, so the specific messages
    // above get a chance to explain a refusal first.
    if !lobby.can_start_activity {
        return Gate::ClientRefuses;
    }
    Gate::Ready
}

/// A search is only ever started for someone who asked for it, who leads a lobby
/// that the client lets start, and who has neither cancelled, nor is searching,
/// nor serves a penalty.
pub proof fn law_ready_means_allowed(snapshot: Snapshot, settings: Settings, cancelled: bool)
    requires
        verdict(snapshot, settings, cancelled) is Ready,
    ensures
        settings.auto_queue,
        !cancelled,
        !snapshot.searching(),
        snapshot.phase@.len() == 0 || snapshot.phase@ == "Lobby"@,
        snapshot.lobby matches Some(lobby) && {
            &&& lobby.can_start_activity
            &&& lobby.led_by_me()
            &&& !lobby.game_config.is_custom
            &&& lobby.restrictions@.len() == 0
        },
        penalty_of(snapshot) <= 0,
{
}

/// Leaving the queue by hand outranks every reason to enter it again.
pub proof fn law_a_hand_cancel_beats_every_lobby(snapshot: Snapshot, settings: Settings)
    ensures
        !(verdict(snapshot, settings, true) is Ready),
{
}

proof fn lemma_ready_count(members: Seq<LobbyMember>)
    ensures
        ready_count(members) <= members.len(),
        ready_count(members) == members.len() <==> forall|i: int|
            0 <= i < members.len() ==> (#[trigger] members[i]).counts_as_ready(),
    decreases members.len(),
{
    if members.len() > 0 {
        let shorter = members.drop_last();
        lemma_ready_count(shorter);
        assert forall|i: int| 0 <= i < shorter.len() implies #[trigger] shorter[i]
            == members[i] by {}
        if ready_count(members) == members.len() {
            assert forall|i: int| 0 <= i < members.len() implies (
            #[trigger] members[i]).counts_as_ready() by {
                if i < shorter.len() {
                    assert(shorter[i].counts_as_ready());
                }
            }
        }
        if forall|i: int| 0 <= i < members.len() ==> (#[trigger] members[i]).counts_as_ready() {
            assert(members[members.len() - 1].counts_as_ready());
            assert forall|i: int| 0 <= i < shorter.len() implies (
            #[trigger] shorter[i]).counts_as_ready() by {
                assert(members[i].counts_as_ready());
            }
        }
    }
}

/// A search is started exactly where the user's trigger is met in a lobby that
/// the user leads and nothing stands in the way.
///
/// The trigger "members" is a headcount of at least one; "ready" is that there is
/// somebody and everybody is ready; anything else is a lobby without an empty
/// seat: one that the client calls full, that names no capacity, or that has as
/// many members as seats.
pub proof fn law_when_a_search_is_started(snapshot: Snapshot, settings: Settings, cancelled: bool)
    ensures
        verdict(snapshot, settings, cancelled) is Ready <==> {
            &&& settings.auto_queue
            &&& !cancelled
            &&& snapshot.phase@.len() == 0 || snapshot.phase@ == "Lobby"@
            &&& snapshot.search matches Some(search) ==> {
                &&& !search.is_currently_in_queue
                &&& search.search_state@ != "Searching"@
                &&& search.low_priority_data.penalty_time_remaining.millis <= 0
                &&& forall|i: int|
                    0 <= i < search.errors@.len() ==> (
                    #[trigger] search.errors@[i]).penalty_time_remaining.millis <= 0
            }
            &&& snapshot.lobby matches Some(lobby) && {
                &&& !lobby.game_config.is_custom
                &&& {
                    ||| lobby.local_member.is_leader
                    ||| lobby.local_member.summoner_id != 0 && exists|i: int|
                        0 <= i < lobby.members@.len() && (#[trigger] lobby.members@[i]).is_leader
                            && lobby.members@[i].summoner_id == lobby.local_member.summoner_id
                }
                &&& lobby.restrictions@.len() == 0
                &&& lobby.can_start_activity
                &&& settings.auto_queue_trigger@ == "members"@ ==> {
                    &&& lobby.members@.len() >= 1
                    &&& lobby.members@.len() >= settings.auto_queue_min_members
                }
                &&& settings.auto_queue_trigger@ == "ready"@ ==> {
                    &&& lobby.members@.len() >= 1
                    &&& forall|i: int|
                        0 <= i < lobby.members@.len() ==> {
                            let member = #[trigger] lobby.members@[i];
                            match member.ready {
                                Some(ready) => ready,
                                None => member.member_data@.contains_key("ready"@)
                                    && member.member_data@["ready"@]@.boolean() == Some(true),
                            }
                        }
                }
                &&& settings.auto_queue_trigger@ != "members"@ && settings.auto_queue_trigger@
                    != "ready"@ ==> {
                    ||| lobby.game_config.is_lobby_full
                    ||| lobby.game_config.max_lobby_size == 0
                    ||| lobby.members@.len() >= lobby.game_config.max_lobby_size
                }
            }
        },
{
    reveal_strlit("members");
    reveal_strlit("ready");
    reveal_strlit("");
    reveal_strlit("Lobby");
    assert("members"@.len() == 7 && "ready"@.len() == 5);
    if snapshot.phase@.len() == 0 {
        assert(snapshot.phase@ =~= ""@);
    }
    if let Some(search) = snapshot.search {
        lol_state::law_the_worst_penalty_counts(search);
    }
    if let Some(lobby) = snapshot.lobby {
        lemma_ready_count(lobby.members@);
        assert(forall|i: int|
            0 <= i < lobby.members@.len() ==> ((#[trigger] lobby.members@[i]).counts_as_ready()
                == match lobby.members@[i].ready {
                Some(ready) => ready,
                None => lobby.members@[i].member_data@.contains_key("ready"@)
                    && lobby.members@[i].member_data@["ready"@]@.boolean() == Some(true),
            }));
    }
}

/// What the user reads while a trigger waits is true: so many are here, so many
/// are needed, and that is more; so many are ready, of so many.
pub proof fn law_what_is_waited_for_is_true(
    snapshot: Snapshot,
    settings: Settings,
    cancelled: bool,
)
    ensures
        verdict(snapshot, settings, cancelled) matches GateView::WaitingForMembers { have, need }
            ==> {
            let lobby = snapshot.lobby->0;
            &&& snapshot.lobby is Some
            &&& have == lobby.members@.len()
            &&& have < need
            &&& settings.auto_queue_trigger@ != "ready"@
            &&& settings.auto_queue_trigger@ == "members"@ ==> need
                == settings.auto_queue_min_members || need == 1
                && settings.auto_queue_min_members == 0
            &&& settings.auto_queue_trigger@ != "members"@ ==> need
                == lobby.game_config.max_lobby_size && !lobby.game_config.is_lobby_full
        },
        verdict(snapshot, settings, cancelled) matches GateView::NotEveryoneReady { ready, total }
            ==> {
            let lobby = snapshot.lobby->0;
            &&& snapshot.lobby is Some
            &&& settings.auto_queue_trigger@ == "ready"@
            &&& total == lobby.members@.len()
            &&& ready < total || total == 0
        },
        verdict(snapshot, settings, cancelled) matches GateView::Restricted(code) ==> {
            let lobby = snapshot.lobby->0;
            &&& snapshot.lobby is Some
            &&& lobby.restrictions@.len() > 0
            &&& code == lobby.restrictions@[0].restriction_code@
        },
        verdict(snapshot, settings, cancelled) matches GateView::WrongPhase(phase) ==> phase
            == snapshot.phase@ && phase.len() > 0 && phase != "Lobby"@,
        verdict(snapshot, settings, cancelled) is ClientRefuses ==> snapshot.lobby is Some
            && !snapshot.lobby->0.can_start_activity,
        verdict(snapshot, settings, cancelled) is CancelledByUser ==> cancelled,
        verdict(snapshot, settings, cancelled) is NoLobby ==> snapshot.lobby is None,
        verdict(snapshot, settings, cancelled) is CustomGame ==> snapshot.lobby is Some
            && snapshot.lobby->0.game_config.is_custom,
        verdict(snapshot, settings, cancelled) is Disabled <==> !settings.auto_queue,
{
    reveal_strlit("members");
    reveal_strlit("ready");
    assert("members"@.len() == 7 && "ready"@.len() == 5);
    if let Some(lobby) = snapshot.lobby {
        lemma_ready_count(lobby.members@);
    }
}

/// A penalty that is shown is one that the client reports, and the longest of
/// them.
pub proof fn law_the_shown_penalty_is_the_longest(
    snapshot: Snapshot,
    settings: Settings,
    cancelled: bool,
    i: int,
)
    requires
        verdict(snapshot, settings, cancelled) is Penalty,
    ensures
        ({
            let secs = verdict(snapshot, settings, cancelled)->Penalty_0;
            let search = snapshot.search->0;
            &&& snapshot.search is Some
            &&& secs.millis > 0
            &&& search.low_priority_data.penalty_time_remaining.millis <= secs.millis
            &&& 0 <= i < search.errors@.len() ==> search.errors@[i].penalty_time_remaining.millis
                <= secs.millis
        }),
{
    if let Some(search) = snapshot.search {
        lol_state::law_the_worst_penalty_counts(search);
    }
}

/// One member more, with nothing else changed, never keeps a headcount or a full
/// lobby from being reached.
pub proof fn law_a_joining_member_helps(
    smaller: Snapshot,
    larger: Snapshot,
    settings: Settings,
    cancelled: bool,
)
    requires
        verdict(smaller, settings, cancelled) is Ready,
        settings.auto_queue_trigger@ != "ready"@,
        larger.lobby is Some,
        smaller.lobby matches Some(lobby) && larger.lobby->0.members@.len() >= lobby.members@.len()
            && larger == (Snapshot {
            lobby: Some(Lobby { members: larger.lobby->0.members, ..lobby }),
            ..smaller
        }) && (forall|i: int|
            0 <= i < lobby.members@.len() ==> (#[trigger] larger.lobby->0.members@[i])
                == lobby.members@[i]),
    ensures
        verdict(larger, settings, cancelled) is Ready,
{
    let lobby = smaller.lobby->0;
    let more = larger.lobby->0;
    if !lobby.local_member.is_leader {
        let i = choose|i: int|
            0 <= i < lobby.members@.len() && (#[trigger] lobby.members@[i]).summoner_id
                == lobby.local_member.summoner_id && lobby.members@[i].is_leader;
        assert(more.members@[i] == lobby.members@[i]);
    }
}

/// A span reads as its whole seconds, rounded to the nearest, with minutes from a
/// minute on.
pub proof fn law_how_a_span_reads(span: Seconds)
    ensures
        span.millis <= 0 ==> rounded_secs(span) == 0,
        span.millis > 0 ==> rounded_secs(span) * 1000 - 500 <= span.millis < rounded_secs(span)
            * 1000 + 500,
        rounded_secs(span) < 60 ==> duration_text(span) == text::decimal(rounded_secs(span))
            + " s"@,
        rounded_secs(span) >= 60 ==> duration_text(span) == text::decimal(
            rounded_secs(span) / 60,
        ) + " min "@ + text::decimal(rounded_secs(span) % 60) + " s"@,
{
}

} // verus!

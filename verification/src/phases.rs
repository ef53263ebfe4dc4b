//! The ready check, and what each phase of the game flow sets off.

use crate::json;
use crate::json::Json;
use crate::settings;
use crate::settings::Settings;
use crate::text;
use crate::time;
use crate::time::{Seconds, TimeLeft};
use vstd::prelude::*;

verus! {

// ── Ready check ──

/// How long a ready check can be answered, in milliseconds.
pub const READY_CHECK_MILLIS: i64 = 12000;

/// One accept per ready check. The client emits the ready check about once a
/// second for as long as it is open.
#[derive(Clone, Copy, PartialEq, Eq, Debug, Structural)]
pub struct ReadyCheck {
    /// An accept for the current ready check is under way.
    pub in_flight: bool,
}

impl ReadyCheck {
    /// What an event makes of this, and whether the match is to be accepted.
    pub open spec fn after_event(self, auto_accept: bool, data: json::Document) -> (
        ReadyCheck,
        bool,
    ) {
        if !auto_accept {
            (self, false)
        } else if data.string_at("state"@) != Some("InProgress"@) {
            (ReadyCheck { in_flight: false }, false)
        } else if data.string_at("playerResponse"@) == Some("None"@) && !self.in_flight {
            (ReadyCheck { in_flight: true }, true)
        } else {
            (self, false)
        }
    }

    pub fn new() -> (r: Self)
        ensures
            !r.in_flight,
    {
        ReadyCheck { in_flight: false }
    }

    /// Takes one ready-check event: how long to wait before accepting, where the
    /// match is to be accepted at all.
    pub fn receive(&mut self, settings: &Settings, data: &Json) -> (r: Option<Seconds>)
        ensures
            *final(self) == old(self).after_event(settings.auto_accept, data@).0,
            r == (if old(self).after_event(settings.auto_accept, data@).1 {
                Some(accept_wait(*settings))
            } else {
                None
            }),
            r matches Some(wait) ==> {
                let wanted = settings.accept_delay_secs.millis;
                &&& 0 <= wait.millis
                &&& wanted >= 0 ==> wait.millis <= wanted
                &&& wanted >= 0 && wanted + settings.action_margin_secs.millis <= 12000
                    ==> wait.millis == wanted
            },
    {
        if !settings.auto_accept {
            return None;
        }
        let is_in_progress = match data.str_at("state") {
            Some(s) => text::same(s, "InProgress"),
            None => false,
        };
        let no_response = match data.str_at("playerResponse") {
            Some(s) => text::same(s, "None"),
            None => false,
        };
        if !is_in_progress {
            self.in_flight = false;
            return None;
        }
        if !no_response || self.in_flight {
            return None;
        }
        self.in_flight = true;
        Some(
            time::clamp_delay(
                settings.accept_delay_secs,
                TimeLeft::Left(Seconds { millis: READY_CHECK_MILLIS }),
                settings.action_margin_secs,
            ),
        )
    }

    /// The client has answered an accept; `None` is that there was no client to
    /// ask. The line for the log, if any. After a failure the next event tries
    /// again.
    pub fn answered(&mut self, outcome: &Option<Result<(), String>>) -> (line: Option<String>)
        ensures
            final(self).in_flight == (old(self).in_flight && *outcome matches Some(Ok(_))),
            match line {
                Some(line) => accept_line(*outcome) == Some(line@),
                None => accept_line(*outcome) is None,
            },
    {
        match outcome {
            Some(Ok(_)) => Some("Partida acceptada!".to_owned()),
            Some(Err(why)) => {
                self.in_flight = false;
                Some(text::cat("Error acceptant: ", why.as_str()))
            },
            None => {
                self.in_flight = false;
                None
            },
        }
    }

    pub fn rearm(&mut self)
        ensures
            !final(self).in_flight,
    {
        self.in_flight = false;
    }
}

pub open spec fn accept_line(outcome: Option<Result<(), String>>) -> Option<Seq<char>> {
    match outcome {
        Some(Ok(_)) => Some("Partida acceptada!"@),
        Some(Err(why)) => Some("Error acceptant: "@ + why@),
        None => None,
    }
}

/// How long to wait before accepting: as configured, but always before the
/// ready check runs out.
pub open spec fn accept_wait(settings: Settings) -> Seconds {
    Seconds {
        millis: time::clamped(
            settings.accept_delay_secs,
            TimeLeft::Left(Seconds { millis: READY_CHECK_MILLIS }),
            settings.action_margin_secs,
        ) as i64,
    }
}

/// A ready check that is being accepted is not accepted again before it ends,
/// however often it is emitted.
pub proof fn law_one_accept_per_ready_check(
    before: ReadyCheck,
    auto_accept: bool,
    first: json::Document,
    second: json::Document,
)
    requires
        before.after_event(auto_accept, first).1,
        second.string_at("state"@) == Some("InProgress"@),
    ensures
        !before.after_event(auto_accept, first).0.after_event(auto_accept, second).1,
        before.after_event(auto_accept, first).0.after_event(auto_accept, second).0.in_flight,
{
}

// ── Game flow ──

/// What a phase of the game flow sets off.
#[derive(Clone, Copy, PartialEq, Eq, Debug, Structural)]
pub struct PhaseReaction {
    /// The game is real now: one-shot entries are spent.
    pub game_started: bool,
    pub open_overlay: bool,
    pub connect_sync: bool,
    /// The game is over: the overlay closes, the relay is left and the enemies
    /// are forgotten.
    pub game_over: bool,
    /// Champ select has been left: its memory starts over.
    pub forget_draft: bool,
    /// The ready check has been left.
    pub rearm_accept: bool,
}

pub open spec fn over_phase(phase: Seq<char>) -> bool {
    phase == "EndOfGame"@ || phase == "Lobby"@ || phase == "None"@ || phase == "WaitingForStats"@
}

pub open spec fn reaction_to(phase: Seq<char>, settings: Settings) -> PhaseReaction {
    let started = phase == "InProgress"@;
    PhaseReaction {
        game_started: started,
        open_overlay: started && settings.overlay_enabled,
        connect_sync: started && settings.sync_enabled && settings.sync_server_url@.len() > 0,
        game_over: over_phase(phase),
        forget_draft: phase != "ChampSelect"@,
        rearm_accept: phase != "ReadyCheck"@,
    }
}

/// What a phase of the game flow sets off.
///
/// One-shots are tied to the game and not to the pick: a dodged champ select
/// never became a game, and burning the one-shot there would leave the user
/// disarmed for a re-queue they did not ask for. Sync does not depend on the
/// overlay.
pub fn handle_gameflow_phase(phase: &str, settings: &Settings) -> (r: PhaseReaction)
    ensures
        r == reaction_to(phase@, *settings),
{
    let started = text::same(phase, "InProgress");
    let in_draft = text::same(phase, "ChampSelect");
    let over = text::same(phase, "EndOfGame") || text::same(phase, "Lobby") || text::same(
        phase,
        "None",
    ) || text::same(phase, "WaitingForStats");
    PhaseReaction {
        game_started: started,
        open_overlay: started && settings.overlay_enabled,
        connect_sync: started && settings.sync_enabled
            && !settings.sync_server_url.as_str().is_empty(),
        game_over: over,
        forget_draft: !in_draft,
        rearm_accept: !text::same(phase, "ReadyCheck"),
    }
}

/// A draft spends no one-shot: only a game that actually started does.
pub proof fn law_a_dodged_draft_spends_nothing(phase: Seq<char>, settings: Settings)
    ensures
        reaction_to(phase, settings).game_started == (phase == "InProgress"@),
        !reaction_to("ChampSelect"@, settings).game_started,
{
    reveal_strlit("ChampSelect");
    reveal_strlit("InProgress");
    assert("ChampSelect"@.len() != "InProgress"@.len());
}

// ── One-shots ──

pub open spec fn spent_lists(lists: Map<Seq<char>, settings::RoleListsView>) -> Map<
    Seq<char>,
    settings::RoleListsView,
> {
    lists.map_values(|l: settings::RoleListsView| settings::spent_roles(l))
}

/// How many one-shots are armed, in both books.
pub open spec fn armed(settings: Settings) -> nat {
    settings::armed_in_book(settings::book(settings.pick_lists.listed()))
        + settings::armed_in_book(settings::book(settings.ban_lists.listed()))
}

/// How many one-shots were spent, in a sentence.
pub open spec fn spent_line(count: nat) -> Seq<char> {
    text::decimal(count) + " "@ + (if count == 1 {
        "champion"@
    } else {
        "champions"@
    }) + " d'un sol ús "@ + (if count == 1 {
        "s'ha desactivat"@
    } else {
        "s'han desactivat"@
    })
}

/// Spends every "just this game" entry, now that the game has actually started:
/// the line for the log, where there was any. The settings then have to be saved
/// and shown.
pub fn spend_one_shot_entries(settings: &mut Settings) -> (line: Option<String>)
    ensures
        final(settings)@ == (settings::SettingsView {
            pick_lists: spent_lists(old(settings)@.pick_lists),
            ban_lists: spent_lists(old(settings)@.ban_lists),
            ..old(settings)@
        }),
        match line {
            Some(line) => armed(*old(settings)) > 0 && line@ == spent_line(
                settings::counted(armed(*old(settings))) as nat,
            ),
            None => armed(*old(settings)) == 0,
        },
{
    let ghost before = settings@;
    let picks: usize = settings::spend_one_shots(&mut settings.pick_lists);
    let bans: usize = settings::spend_one_shots(&mut settings.ban_lists);
    proof {
        assert(settings@.pick_lists =~= spent_lists(before.pick_lists));
        assert(settings@.ban_lists =~= spent_lists(before.ban_lists));
    }
    let count: usize = picks.saturating_add(bans);
    if count == 0 {
        return None;
    }
    let mut line = text::cat(text::write_u64(count as u64).as_str(), " ");
    line.append(
        if count == 1 {
            "champion"
        } else {
            "champions"
        },
    );
    line.append(" d'un sol ús ");
    line.append(
        if count == 1 {
            "s'ha desactivat"
        } else {
            "s'han desactivat"
        },
    );
    Some(line)
}

// ── Laws ──

/// The wait before an accept is the configured one: exactly that wherever it fits
/// into the twelve seconds of a ready check together with the margin, never
/// longer, and never negative. One that does not fit ends where the margin
/// begins.
pub proof fn law_an_accept_waits_as_configured(settings: Settings)
    ensures
        ({
            let wait = accept_wait(settings).millis;
            let wanted = settings.accept_delay_secs.millis;
            let margin = settings.action_margin_secs.millis;
            &&& 0 <= wait
            &&& wanted >= 0 ==> wait <= wanted
            &&& wanted <= 0 ==> wait == 0
            &&& wanted >= 0 && wanted + margin <= 12000 ==> wait == wanted
            &&& margin <= 12000 < wanted + margin && wanted >= 0 ==> wait == 12000 - margin
            &&& margin > 12000 ==> wait == 0
        }),
{
}

/// Of two users who differ only in the configured delay, the one with the longer
/// delay never accepts first.
pub proof fn law_a_longer_delay_accepts_no_earlier(a: Settings, b: Settings)
    requires
        a.action_margin_secs == b.action_margin_secs,
        a.accept_delay_secs.millis <= b.accept_delay_secs.millis,
    ensures
        accept_wait(a).millis <= accept_wait(b).millis,
{
}

/// A match is accepted exactly where the user wants that, the ready check is in
/// progress, the player has not answered it and no accept is under way. Whatever
/// else the event says makes no difference.
pub proof fn law_when_a_match_is_accepted(
    before: ReadyCheck,
    auto_accept: bool,
    data: json::Document,
)
    ensures
        before.after_event(auto_accept, data).1 <==> {
            &&& auto_accept
            &&& !before.in_flight
            &&& data.member("state"@) matches Some(state) && state.string() == Some("InProgress"@)
            &&& data.member("playerResponse"@) matches Some(answer) && answer.string() == Some(
                "None"@,
            )
        },
        before.after_event(auto_accept, data).1 ==> before.after_event(auto_accept, data).0.in_flight,
{
}

/// A ready check that is no longer in progress makes way for the next one, which
/// is accepted again.
pub proof fn law_the_next_ready_check_is_accepted(
    before: ReadyCheck,
    over: json::Document,
    next: json::Document,
)
    requires
        over.string_at("state"@) != Some("InProgress"@),
        next.string_at("state"@) == Some("InProgress"@),
        next.string_at("playerResponse"@) == Some("None"@),
    ensures
        !before.after_event(true, over).1,
        before.after_event(true, over).0.after_event(true, next).1,
{
}

/// With auto accept off, nothing is accepted and nothing is remembered.
pub proof fn law_nothing_is_accepted_unasked(before: ReadyCheck, data: json::Document)
    ensures
        before.after_event(false, data) == (before, false),
{
}

/// The overlay and the relay wait for a game that has started, each on its own
/// switch; a game is over in four phases, and a running game or a draft is none
/// of them.
pub proof fn law_what_a_phase_sets_off(phase: Seq<char>, settings: Settings)
    ensures
        ({
            let r = reaction_to(phase, settings);
            &&& r.game_started <==> phase == "InProgress"@
            &&& r.open_overlay <==> phase == "InProgress"@ && settings.overlay_enabled
            &&& r.connect_sync <==> {
                &&& phase == "InProgress"@
                &&& settings.sync_enabled
                &&& settings.sync_server_url@ != Seq::<char>::empty()
            }
            &&& r.game_over <==> {
                ||| phase == "None"@
                ||| phase == "Lobby"@
                ||| phase == "EndOfGame"@
                ||| phase == "WaitingForStats"@
            }
            &&& !(r.game_started && r.game_over)
            &&& r.forget_draft <==> phase != "ChampSelect"@
            &&& r.rearm_accept <==> phase != "ReadyCheck"@
        }),
{
    reveal_strlit("InProgress");
    reveal_strlit("None");
    reveal_strlit("Lobby");
    reveal_strlit("EndOfGame");
    reveal_strlit("WaitingForStats");
    assert("InProgress"@.len() == 10 && "None"@.len() == 4 && "Lobby"@.len() == 5
        && "EndOfGame"@.len() == 9 && "WaitingForStats"@.len() == 15);
    if settings.sync_server_url@.len() == 0 {
        assert(settings.sync_server_url@ =~= Seq::<char>::empty());
    }
}

/// When the one-shots are spent, every mode keeps its lists, and in each of them every
/// one-shot of every lane is disabled.
pub proof fn law_one_shots_are_spent_in_every_mode(
    lists: Map<Seq<char>, settings::RoleListsView>,
    mode: Seq<char>,
    i: int,
)
    ensures
        spent_lists(lists).contains_key(mode) <==> lists.contains_key(mode),
        lists.contains_key(mode) ==> {
            let before = lists[mode];
            let after = spent_lists(lists)[mode];
            &&& after.default.len() == before.default.len()
            &&& 0 <= i < before.default.len() ==> after.default[i].name == before.default[i].name
                && (after.default[i].disabled <==> before.default[i].disabled
                || before.default[i].once)
            &&& 0 <= i < before.top.len() ==> (after.top[i].disabled <==> before.top[i].disabled
                || before.top[i].once)
            &&& 0 <= i < before.jungle.len() ==> (after.jungle[i].disabled
                <==> before.jungle[i].disabled || before.jungle[i].once)
            &&& 0 <= i < before.middle.len() ==> (after.middle[i].disabled
                <==> before.middle[i].disabled || before.middle[i].once)
            &&& 0 <= i < before.bottom.len() ==> (after.bottom[i].disabled
                <==> before.bottom[i].disabled || before.bottom[i].once)
            &&& 0 <= i < before.utility.len() ==> (after.utility[i].disabled
                <==> before.utility[i].disabled || before.utility[i].once)
        },
{
}

} // verus!

//! What every event of the client does to what is known, and what it calls for.
//!
//! The handlers change the state and say what is to be shown, fetched or waited
//! for; whoever delivers the events carries that out.

use crate::auto_queue;
use crate::auto_queue::{AutoQueue, Evaluation};
use crate::champions;
use crate::champions::Champions;
use crate::draft;
use crate::draft::{DraftInput, DraftMemory, Plan};
use crate::json;
use crate::json::Json;
use crate::lcu;
use crate::lcu::QueueModeInfo;
use crate::lol_state::{
    ChampSelect, ChampionSelection, GridChampion, Lobby, LobbyMember, LolState, Search, Snapshot,
};
use crate::mode;
use crate::overlay;
use crate::overlay::OverlayState;
use crate::panel;
use crate::panel::{ClientState, PanelInput};
use crate::phases;
use crate::phases::{PhaseReaction, ReadyCheck};
use crate::queues::QueueTable;
use crate::settings;
use crate::settings::Settings;
use crate::spells;
use crate::summoners;
use crate::summoners::SummonerNames;
use crate::text;
use std::collections::{HashMap, HashSet};
use vstd::prelude::*;

verus! {

// ── Tables that the client sends as lists ──

/// The champions in a list of ids.
fn id_set(ids: &Vec<i32>) -> (r: HashSet<i32>)
    ensures
        r@ == ids@.to_set(),
{
    broadcast use vstd::std_specs::hash::group_hash_axioms;

    let mut set: HashSet<i32> = HashSet::new();
    let mut i: usize = 0;
    assert(set@ =~= ids@.take(0).to_set());
    while i < ids.len()
        invariant
            i <= ids@.len(),
            set@ == ids@.take(i as int).to_set(),
        decreases ids@.len() - i,
    {
        let ghost before = ids@.take(i as int);
        set.insert(ids[i]);
        proof {
            let after = ids@.take(i + 1);
            assert(after =~= before.push(ids@[i as int]));
            assert forall|id: i32| #[trigger] set@.contains(id) == after.to_set().contains(id) by {
                if before.contains(id) {
                    let k = choose|k: int| 0 <= k < before.len() && before[k] == id;
                    assert(after[k] == id);
                }
                if id == ids@[i as int] {
                    assert(after[i as int] == id);
                }
                if after.contains(id) && id != ids@[i as int] {
                    let k = choose|k: int| 0 <= k < after.len() && after[k] == id;
                    assert(before[k] == id);
                }
            }
            assert(set@ =~= after.to_set());
        }
        i += 1;
    }
    assert(ids@.take(i as int) =~= ids@);
    set
}

/// The grid in a list of champions; of two entries for one champion the later
/// one stands.
pub open spec fn grid_in(champions: Seq<GridChampion>) -> Map<i32, ChampionSelection>
    decreases champions.len(),
{
    if champions.len() == 0 {
        Map::empty()
    } else {
        grid_in(champions.drop_last()).insert(
            champions.last().id,
            champions.last().selection_status,
        )
    }
}

/// The champion grid, by id.
pub fn grid_of(champions: &Vec<GridChampion>) -> (r: HashMap<i32, ChampionSelection>)
    ensures
        r@ == grid_in(champions@),
{
    broadcast use vstd::std_specs::hash::group_hash_axioms;

    let mut grid: HashMap<i32, ChampionSelection> = HashMap::new();
    let mut i: usize = 0;
    assert(grid@ =~= grid_in(champions@.take(0)));
    while i < champions.len()
        invariant
            i <= champions@.len(),
            grid@ == grid_in(champions@.take(i as int)),
        decreases champions@.len() - i,
    {
        proof {
            assert(champions@.take(i + 1).drop_last() =~= champions@.take(i as int));
            assert(champions@.take(i + 1).last() == champions@[i as int]);
        }
        grid.insert(champions[i].id, champions[i].selection_status);
        i += 1;
    }
    assert(champions@.take(i as int) =~= champions@);
    grid
}


// ── What is known ──

/// Everything that is remembered from one event to the next.
#[derive(Debug)]
pub struct Engine {
    pub state: LolState,
    /// The queue we are in.
    pub mode: Option<QueueModeInfo>,
    pub queues: QueueTable,
    pub draft: DraftMemory,
    pub ready_check: ReadyCheck,
    pub auto_queue: AutoQueue,
    pub overlay: OverlayState,
}

/// When the info panel is refreshed.
#[derive(Clone, Copy, PartialEq, Eq, Debug, Structural)]
pub enum Refresh {
    Never,
    /// Unless it has just been: champ select re-emits its session on every hover
    /// and every timer tick.
    Throttled,
    Now,
}

/// What an event calls for.
#[derive(Debug)]
pub struct Reaction {
    /// The mode is another one: it is to be shown.
    pub show_mode: bool,
    /// What the mode means for the user interface is to be shown.
    pub show_context: bool,
    /// What auto queue came to.
    pub evaluation: Option<Evaluation>,
    /// The champion tables are to be fetched: the client pushes them only when
    /// they change.
    pub fetch_tables: bool,
    /// The names of the lobby's members are to be looked up.
    pub look_up_names: bool,
    pub refresh: Refresh,
}

pub struct ReactionView {
    pub show_mode: bool,
    pub show_context: bool,
    pub evaluation: Option<auto_queue::EvaluationView>,
    pub fetch_tables: bool,
    pub look_up_names: bool,
    pub refresh: Refresh,
}

impl View for Reaction {
    type V = ReactionView;

    open spec fn view(&self) -> ReactionView {
        ReactionView {
            show_mode: self.show_mode,
            show_context: self.show_context,
            evaluation: match self.evaluation {
                Some(e) => Some(e@),
                None => None,
            },
            fetch_tables: self.fetch_tables,
            look_up_names: self.look_up_names,
            refresh: self.refresh,
        }
    }
}

impl Engine {
    pub open spec fn snapshot(self) -> Snapshot {
        self.state.snapshot()
    }

    /// The mode once the client's state is `snapshot`: it is held where it is not
    /// another one.
    pub open spec fn mode_in(self, snapshot: Snapshot) -> Option<mode::ModeView> {
        let now = mode::mode_now(snapshot, self.queues, mode::mode_view(self.mode));
        if mode::mode_differs(mode::mode_view(self.mode), now) {
            now
        } else {
            mode::mode_view(self.mode)
        }
    }

    pub open spec fn mode_changes(self, snapshot: Snapshot) -> bool {
        mode::mode_differs(
            mode::mode_view(self.mode),
            mode::mode_now(snapshot, self.queues, mode::mode_view(self.mode)),
        )
    }

    pub fn new() -> (r: Self)
        ensures
            r.snapshot().phase@ == Seq::<char>::empty(),
            r.snapshot().lobby is None,
            r.snapshot().search is None,
            r.snapshot().champ_select is None,
            r.snapshot().pickable@ == Set::<i32>::empty(),
            r.snapshot().bannable@ == Set::<i32>::empty(),
            r.snapshot().grid@ == Map::<i32, ChampionSelection>::empty(),
            r.mode is None,
            forall|id: i64| #[trigger] r.queues.lookup(id) is None,
            r.draft@ == (draft::MemoryView {
                last_action: Seq::empty(),
                last_intent: Seq::empty(),
                decision: None,
            }),
            !r.ready_check.in_flight,
            r.auto_queue@ == (auto_queue::AutoQueueView {
                generation: 0,
                last_gate: Seq::empty(),
                cancelled_for: None,
                was_searching: false,
            }),
            r.overlay.enemies@.len() == 0,
            r.overlay.game_id is None,
            r.overlay.spells.table() == overlay::fallback_spells(spells::spell_table()),
    {
        Engine {
            state: LolState::new(),
            mode: None,
            queues: QueueTable::new(),
            draft: DraftMemory::new(),
            ready_check: ReadyCheck::new(),
            auto_queue: AutoQueue::new(),
            overlay: OverlayState::new(),
        }
    }

    /// The client is gone: nothing that belonged to its session is left.
    pub fn on_disconnected(&mut self) -> (r: Reaction)
        ensures
            final(self).snapshot().lobby is None,
            final(self).snapshot().champ_select is None,
            final(self).snapshot().pickable@ == Set::<i32>::empty(),
            final(self).snapshot().bannable@ == Set::<i32>::empty(),
            final(self).snapshot().grid@ == Map::<i32, ChampionSelection>::empty(),
            final(self).snapshot().phase == old(self).snapshot().phase,
            final(self).snapshot().search == old(self).snapshot().search,
            final(self).mode is None,
            final(self).draft@ == (draft::MemoryView {
                last_action: Seq::empty(),
                last_intent: Seq::empty(),
                ..old(self).draft@
            }),
            !final(self).ready_check.in_flight,
            final(self).auto_queue@ == (auto_queue::AutoQueueView {
                last_gate: Seq::empty(),
                ..old(self).auto_queue@
            }),
            final(self).queues == old(self).queues,
            final(self).overlay == old(self).overlay,
            r@ == (ReactionView {
                show_mode: true,
                show_context: true,
                evaluation: None,
                fetch_tables: false,
                look_up_names: false,
                refresh: Refresh::Now,
            }),
    {
        self.draft.forget();
        self.ready_check.rearm();
        self.mode = None;
        self.state.set_lobby(None);
        self.state.clear_champ_select();
        self.auto_queue.forget_gate();
        Reaction {
            show_mode: true,
            show_context: true,
            evaluation: None,
            fetch_tables: false,
            look_up_names: false,
            refresh: Refresh::Now,
        }
    }

    /// The champ-select session has changed. `session` is what could be read of
    /// it, `data` the payload itself, which the overlay reads.
    pub fn on_champ_select(
        &mut self,
        session: Option<ChampSelect>,
        data: &Json,
        id_to_name: &HashMap<i32, String>,
    ) -> (r: Reaction)
        ensures
            final(self).snapshot() == (match session {
                Some(session) => Snapshot {
                    champ_select: Some(session),
                    ..old(self).snapshot()
                },
                None => old(self).snapshot(),
            }),
            mode::mode_view(final(self).mode) == (match session {
                Some(_) => old(self).mode_in(final(self).snapshot()),
                None => mode::mode_view(old(self).mode),
            }),
            overlay::enemy_views(final(self).overlay.enemies@) == ({
                let seen = drafted(data@, champions::name_views(id_to_name@), *old(self));
                if seen.len() > 0 {
                    seen
                } else {
                    overlay::enemy_views(old(self).overlay.enemies@)
                }
            }),
            final(self).overlay.game_id == old(self).overlay.game_id,
            final(self).overlay.spells == old(self).overlay.spells,
            final(self).queues == old(self).queues,
            final(self).draft == old(self).draft,
            final(self).ready_check == old(self).ready_check,
            final(self).auto_queue == old(self).auto_queue,
            r@ == (ReactionView {
                show_mode: session is Some && old(self).mode_changes(final(self).snapshot()),
                show_context: session matches Some(session) && (old(self).mode_changes(
                    final(self).snapshot(),
                ) || (match old(self).snapshot().champ_select {
                    Some(before) => before.my_role() != session.my_role(),
                    None => true,
                })),
                evaluation: None,
                fetch_tables: old(self).snapshot().grid@.dom().len() == 0,
                look_up_names: false,
                refresh: Refresh::Throttled,
            }),
    {
        let mut show_mode = false;
        let mut show_context = false;
        if let Some(session) = session {
            let role_changed = mode::role_changed(&self.state.get().champ_select, &session);
            self.state.set_champ_select(Some(session));
            show_mode = mode::refresh_queue_mode(&mut self.mode, self.state.get(), &self.queues);
            show_context = role_changed || show_mode;
        }
        let fetch_tables = !self.state.get().has_grid();
        let enemies = overlay::extract_enemies(data, id_to_name, &self.overlay.spells);
        if enemies.len() > 0 {
            self.overlay.enemies = enemies;
        }
        Reaction {
            show_mode,
            show_context,
            evaluation: None,
            fetch_tables,
            look_up_names: false,
            refresh: Refresh::Throttled,
        }
    }
}

impl Engine {
    /// Champ select is over: every role list can be configured again.
    pub fn on_champ_select_ended(&mut self) -> (r: Reaction)
        ensures
            final(self).snapshot().champ_select is None,
            final(self).snapshot().pickable@ == Set::<i32>::empty(),
            final(self).snapshot().bannable@ == Set::<i32>::empty(),
            final(self).snapshot().grid@ == Map::<i32, ChampionSelection>::empty(),
            final(self).snapshot().phase == old(self).snapshot().phase,
            final(self).snapshot().lobby == old(self).snapshot().lobby,
            final(self).snapshot().search == old(self).snapshot().search,
            mode::mode_view(final(self).mode) == old(self).mode_in(final(self).snapshot()),
            final(self).draft@ == (draft::MemoryView {
                last_intent: Seq::empty(),
                ..old(self).draft@
            }),
            final(self).queues == old(self).queues,
            final(self).ready_check == old(self).ready_check,
            final(self).auto_queue == old(self).auto_queue,
            final(self).overlay == old(self).overlay,
            r@ == (ReactionView {
                show_mode: old(self).mode_changes(final(self).snapshot()),
                show_context: true,
                evaluation: None,
                fetch_tables: false,
                look_up_names: false,
                refresh: Refresh::Now,
            }),
    {
        self.state.clear_champ_select();
        self.draft.forget_intent();
        let show_mode = mode::refresh_queue_mode(&mut self.mode, self.state.get(), &self.queues);
        Reaction {
            show_mode,
            show_context: true,
            evaluation: None,
            fetch_tables: false,
            look_up_names: false,
            refresh: Refresh::Now,
        }
    }

    /// The game flow has reached a phase. Where a game has started, the one-shot
    /// entries of the settings are spent; the third result is the line for the
    /// log if there were any.
    pub fn on_phase(&mut self, phase: &str, settings: &mut Settings) -> (r: (
        Reaction,
        PhaseReaction,
        Option<String>,
    ))
        ensures
            final(self).snapshot().phase@ == phase@,
            final(self).snapshot() == (Snapshot {
                phase: final(self).snapshot().phase,
                ..old(self).snapshot()
            }),
            r.1 == phases::reaction_to(phase@, *old(settings)),
            final(self).overlay == (if r.1.game_over {
                OverlayState {
                    enemies: final(self).overlay.enemies,
                    game_id: None,
                    ..old(self).overlay
                }
            } else {
                old(self).overlay
            }),
            r.1.game_over ==> final(self).overlay.enemies@.len() == 0,
            final(self).draft@ == (if r.1.forget_draft {
                draft::MemoryView {
                    last_action: Seq::empty(),
                    last_intent: Seq::empty(),
                    ..old(self).draft@
                }
            } else {
                old(self).draft@
            }),
            final(self).ready_check.in_flight == (old(self).ready_check.in_flight
                && !r.1.rearm_accept),
            final(self).auto_queue@ == old(self).auto_queue@.noted(
                final(self).snapshot(),
            ).evaluated(final(self).snapshot(), *final(settings)),
            final(self).mode == old(self).mode,
            final(self).queues == old(self).queues,
            final(settings)@ == (if r.1.game_started {
                settings::SettingsView {
                    pick_lists: phases::spent_lists(old(settings)@.pick_lists),
                    ban_lists: phases::spent_lists(old(settings)@.ban_lists),
                    ..old(settings)@
                }
            } else {
                old(settings)@
            }),
            match r.2 {
                Some(line) => r.1.game_started && phases::armed(*old(settings)) > 0 && line@
                    == phases::spent_line(
                    settings::counted(phases::armed(*old(settings))) as nat,
                ),
                None => !r.1.game_started || phases::armed(*old(settings)) == 0,
            },
            r.0@ == (ReactionView {
                show_mode: false,
                show_context: false,
                evaluation: Some(
                    old(self).auto_queue@.noted(final(self).snapshot()).evaluation(
                        final(self).snapshot(),
                        *final(settings),
                    ),
                ),
                fetch_tables: false,
                look_up_names: false,
                refresh: Refresh::Now,
            }),
    {
        self.state.set_phase(phase);
        let reaction = phases::handle_gameflow_phase(phase, settings);
        let spent = if reaction.game_started {
            phases::spend_one_shot_entries(settings)
        } else {
            None
        };
        if reaction.game_over {
            self.overlay.enemies = Vec::new();
            self.overlay.game_id = None;
        }
        if reaction.forget_draft {
            self.draft.forget();
        }
        if reaction.rearm_accept {
            self.ready_check.rearm();
        }
        self.auto_queue.note_search_state(self.state.get());
        let evaluation = self.auto_queue.evaluate(self.state.get(), settings);
        (
            Reaction {
                show_mode: false,
                show_context: false,
                evaluation: Some(evaluation),
                fetch_tables: false,
                look_up_names: false,
                refresh: Refresh::Now,
            },
            reaction,
            spent,
        )
    }

    /// The lobby has changed, or is gone. It is where we learn whether this queue
    /// has lanes at all.
    pub fn on_lobby(&mut self, lobby: Option<Lobby>, settings: &Settings) -> (r: Reaction)
        ensures
            final(self).snapshot() == (Snapshot { lobby, ..old(self).snapshot() }),
            mode::mode_view(final(self).mode) == old(self).mode_in(final(self).snapshot()),
            final(self).auto_queue@ == old(self).auto_queue@.evaluated(
                final(self).snapshot(),
                *settings,
            ),
            final(self).queues == old(self).queues,
            final(self).draft == old(self).draft,
            final(self).ready_check == old(self).ready_check,
            final(self).overlay == old(self).overlay,
            r@ == (ReactionView {
                show_mode: old(self).mode_changes(final(self).snapshot()),
                show_context: true,
                evaluation: Some(
                    old(self).auto_queue@.evaluation(final(self).snapshot(), *settings),
                ),
                fetch_tables: false,
                look_up_names: lobby matches Some(lobby) && lobby.members@.len() > 0,
                refresh: Refresh::Now,
            }),
    {
        let look_up_names = match &lobby {
            Some(lobby) => lobby.members.len() > 0,
            None => false,
        };
        self.state.set_lobby(lobby);
        let show_mode = mode::refresh_queue_mode(&mut self.mode, self.state.get(), &self.queues);
        let evaluation = self.auto_queue.evaluate(self.state.get(), settings);
        Reaction {
            show_mode,
            show_context: true,
            evaluation: Some(evaluation),
            fetch_tables: false,
            look_up_names,
            refresh: Refresh::Now,
        }
    }

    /// The search has changed, or is gone.
    pub fn on_search(&mut self, search: Option<Search>, settings: &Settings) -> (r: Reaction)
        ensures
            final(self).snapshot() == (Snapshot { search, ..old(self).snapshot() }),
            final(self).auto_queue@ == old(self).auto_queue@.noted(
                final(self).snapshot(),
            ).evaluated(final(self).snapshot(), *settings),
            final(self).mode == old(self).mode,
            final(self).queues == old(self).queues,
            final(self).draft == old(self).draft,
            final(self).ready_check == old(self).ready_check,
            final(self).overlay == old(self).overlay,
            r@ == (ReactionView {
                show_mode: false,
                show_context: false,
                evaluation: Some(
                    old(self).auto_queue@.noted(final(self).snapshot()).evaluation(
                        final(self).snapshot(),
                        *settings,
                    ),
                ),
                fetch_tables: false,
                look_up_names: false,
                refresh: Refresh::Throttled,
            }),
    {
        self.state.set_search(search);
        self.auto_queue.note_search_state(self.state.get());
        let evaluation = self.auto_queue.evaluate(self.state.get(), settings);
        Reaction {
            show_mode: false,
            show_context: false,
            evaluation: Some(evaluation),
            fetch_tables: false,
            look_up_names: false,
            refresh: Refresh::Throttled,
        }
    }

    /// The settings of auto queue have changed. A lobby that is already sitting
    /// full produces no further events, so the verdict is asked for at once.
    pub fn on_auto_queue_settings(&mut self, settings: &Settings) -> (r: Reaction)
        ensures
            ({
                let fresh = auto_queue::AutoQueueView {
                    last_gate: Seq::empty(),
                    cancelled_for: None,
                    ..old(self).auto_queue@
                };
                &&& final(self).auto_queue@ == fresh.evaluated(old(self).snapshot(), *settings)
                &&& r@ == (ReactionView {
                    show_mode: false,
                    show_context: false,
                    evaluation: Some(fresh.evaluation(old(self).snapshot(), *settings)),
                    fetch_tables: false,
                    look_up_names: false,
                    refresh: Refresh::Now,
                })
            }),
            final(self).state == old(self).state,
            final(self).mode == old(self).mode,
            final(self).queues == old(self).queues,
            final(self).draft == old(self).draft,
            final(self).ready_check == old(self).ready_check,
            final(self).overlay == old(self).overlay,
    {
        self.auto_queue.settings_changed();
        let evaluation = self.auto_queue.evaluate(self.state.get(), settings);
        Reaction {
            show_mode: false,
            show_context: false,
            evaluation: Some(evaluation),
            fetch_tables: false,
            look_up_names: false,
            refresh: Refresh::Now,
        }
    }

    // ── The champion tables ──

    /// The champions that can be picked have been pushed.
    pub fn on_pickable(&mut self, ids: &Vec<i32>)
        ensures
            final(self).snapshot().pickable@ == ids@.to_set(),
            final(self).snapshot() == (Snapshot {
                pickable: final(self).snapshot().pickable,
                ..old(self).snapshot()
            }),
            *final(self) == (Engine { state: final(self).state, ..*old(self) }),
    {
        self.state.set_pickable(id_set(ids));
    }

    /// The champions that can be banned have been pushed.
    pub fn on_bannable(&mut self, ids: &Vec<i32>)
        ensures
            final(self).snapshot().bannable@ == ids@.to_set(),
            final(self).snapshot() == (Snapshot {
                bannable: final(self).snapshot().bannable,
                ..old(self).snapshot()
            }),
            *final(self) == (Engine { state: final(self).state, ..*old(self) }),
    {
        self.state.set_bannable(id_set(ids));
    }

    /// One champion of the grid has been pushed.
    pub fn on_grid_champion(&mut self, champion: &GridChampion)
        ensures
            final(self).snapshot().grid@ == old(self).snapshot().grid@.insert(
                champion.id,
                champion.selection_status,
            ),
            final(self).snapshot() == (Snapshot {
                grid: final(self).snapshot().grid,
                ..old(self).snapshot()
            }),
            *final(self) == (Engine { state: final(self).state, ..*old(self) }),
    {
        self.state.update_grid_champion(champion.id, champion.selection_status);
    }

    /// The client has answered with its champion tables. An answer that is not a
    /// list, or that never came, leaves the table as it is.
    pub fn load_tables(
        &mut self,
        pickable: Option<&Json>,
        bannable: Option<&Json>,
        grid: Option<&Vec<GridChampion>>,
    )
        ensures
            final(self).snapshot().pickable@ == (match listed_ids(pickable) {
                Some(ids) => ids.to_set(),
                None => old(self).snapshot().pickable@,
            }),
            final(self).snapshot().bannable@ == (match listed_ids(bannable) {
                Some(ids) => ids.to_set(),
                None => old(self).snapshot().bannable@,
            }),
            final(self).snapshot().grid@ == (match grid {
                Some(champions) => grid_in(champions@),
                None => old(self).snapshot().grid@,
            }),
            final(self).snapshot() == (Snapshot {
                pickable: final(self).snapshot().pickable,
                bannable: final(self).snapshot().bannable,
                grid: final(self).snapshot().grid,
                ..old(self).snapshot()
            }),
            *final(self) == (Engine { state: final(self).state, ..*old(self) }),
    {
        if let Some(data) = pickable {
            if data.as_array().is_some() {
                self.on_pickable(&lcu::champion_ids(data));
            }
        }
        if let Some(data) = bannable {
            if data.as_array().is_some() {
                self.on_bannable(&lcu::champion_ids(data));
            }
        }
        if let Some(champions) = grid {
            self.state.set_grid(grid_of(champions));
        }
    }

    // ── What the state comes to ──

    /// The members of the lobby whose names are not known yet.
    pub fn strangers(&self, names: &SummonerNames) -> (r: Vec<String>)
        ensures
            text::texts(r@) == (match self.snapshot().lobby {
                Some(lobby) => summoners::unknown(names.known(), puuids(lobby)),
                None => Seq::empty(),
            }),
    {
        let mut ids: Vec<String> = Vec::new();
        let lobby = match &self.state.get().lobby {
            Some(lobby) => lobby,
            None => {
                assert(text::texts(ids@) =~= Seq::empty());
                return ids;
            },
        };
        let mut i: usize = 0;
        assert(text::texts(ids@) =~= puuids(*lobby).take(0));
        while i < lobby.members.len()
            invariant
                i <= lobby.members@.len(),
                text::texts(ids@) == puuids(*lobby).take(i as int),
            decreases lobby.members@.len() - i,
        {
            let ghost before = text::texts(ids@);
            ids.push(lobby.members[i].puuid.clone());
            assert(text::texts(ids@) =~= before.push(puuids(*lobby)[i as int]));
            i += 1;
            assert(text::texts(ids@) =~= puuids(*lobby).take(i as int));
        }
        assert(puuids(*lobby).take(i as int) =~= puuids(*lobby));
        names.missing(&ids)
    }

    /// Decides what to do in champ select right now.
    pub fn plan(
        &mut self,
        settings: &Settings,
        champions: &Champions,
        now_epoch_ms: i64,
    ) -> (r: Plan)
        ensures
            (final(self).draft@, r@) == old(self).draft@.planned(
                *settings,
                old(self).snapshot(),
                mode::game_mode_of(old(self).mode),
                old(self).queues,
                champions.ids(),
                now_epoch_ms,
            ),
            *final(self) == (Engine { draft: final(self).draft, ..*old(self) }),
    {
        let current_mode: Option<&str> = match &self.mode {
            Some(q) => Some(q.game_mode.as_str()),
            None => None,
        };
        self.draft.plan(
            &DraftInput {
                settings,
                snapshot: self.state.get(),
                champions,
                queues: &self.queues,
                current_mode,
                now_epoch_ms,
            },
        )
    }

    /// Decides again once the wait for an action is over.
    pub fn due(
        &mut self,
        settings: &Settings,
        champions: &Champions,
        action_id: i64,
        now_epoch_ms: i64,
    ) -> (r: Plan)
        ensures
            (final(self).draft@, r@) == old(self).draft@.due(
                *settings,
                old(self).snapshot(),
                mode::game_mode_of(old(self).mode),
                old(self).queues,
                champions.ids(),
                now_epoch_ms,
                action_id,
            ),
            *final(self) == (Engine { draft: final(self).draft, ..*old(self) }),
    {
        let current_mode: Option<&str> = match &self.mode {
            Some(q) => Some(q.game_mode.as_str()),
            None => None,
        };
        self.draft.due(
            &DraftInput {
                settings,
                snapshot: self.state.get(),
                champions,
                queues: &self.queues,
                current_mode,
                now_epoch_ms,
            },
            action_id,
        )
    }

    /// Everything that the info panel shows.
    pub fn client_state(
        &mut self,
        settings: &Settings,
        id_to_name: &HashMap<i32, String>,
        names: &SummonerNames,
        connected: bool,
        now_epoch_ms: i64,
    ) -> (r: ClientState)
        ensures
            r@ == (PanelInput {
                snapshot: &old(self).snapshot(),
                settings,
                id_to_name,
                summoners: names,
                queues: &old(self).queues,
                current_mode: &old(self).mode,
                decision: &old(self).draft.decision,
                connected,
                cancelled: old(self).auto_queue@.holds_off(old(self).snapshot()),
                now_epoch_ms,
            }).panel(),
            final(self).auto_queue@ == old(self).auto_queue@.checked(old(self).snapshot()),
            *final(self) == (Engine { auto_queue: final(self).auto_queue, ..*old(self) }),
    {
        let cancelled = self.auto_queue.cancel_suppressed(self.state.get());
        panel::build_client_state(
            &PanelInput {
                snapshot: self.state.get(),
                settings,
                id_to_name,
                summoners: names,
                queues: &self.queues,
                current_mode: &self.mode,
                decision: &self.draft.decision,
                connected,
                cancelled,
                now_epoch_ms,
            },
        )
    }
}

/// The ids in an answer that is a list.
pub open spec fn listed_ids(answer: Option<&Json>) -> Option<Seq<i32>> {
    match answer {
        Some(data) => match data@.array() {
            Some(items) => Some(lcu::ids_in(items)),
            None => None,
        },
        None => None,
    }
}

/// Who is in a lobby.
pub open spec fn puuids(lobby: Lobby) -> Seq<Seq<char>> {
    lobby.members@.map_values(|m: LobbyMember| m.puuid@)
}

/// The enemies that a champ-select payload shows.
pub open spec fn drafted(
    data: json::Document,
    names: Map<i32, Seq<char>>,
    engine: Engine,
) -> Seq<overlay::EnemyView> {
    match data.array_at("theirTeam"@) {
        Some(team) => overlay::by_role(
            overlay::enemies_in_draft(team, names, engine.overlay.spells.table()),
        ),
        None => Seq::empty(),
    }
}

/// The client deletes the lobby before the first session of a draft arrives. The
/// mode is held until then, so that the right lists are read.
pub proof fn law_the_mode_is_held_through_a_draft(engine: Engine, snapshot: Snapshot)
    requires
        snapshot.lobby is None,
        snapshot.champ_select is None,
        mode::playing_phase(snapshot.phase@),
    ensures
        !engine.mode_changes(snapshot),
        engine.mode_in(snapshot) == mode::mode_view(engine.mode),
{
}

/// A champion's grid entry is the last one that was sent for it.
pub proof fn law_the_latest_grid_entry_counts(champions: Seq<GridChampion>, i: int)
    requires
        0 <= i < champions.len(),
        forall|j: int| i < j < champions.len() ==> (#[trigger] champions[j]).id != champions[i].id,
    ensures
        grid_in(champions).contains_key(champions[i].id),
        grid_in(champions)[champions[i].id] == champions[i].selection_status,
    decreases champions.len(),
{
    if i < champions.len() - 1 {
        let shorter = champions.drop_last();
        assert(shorter[i] == champions[i]);
        assert forall|j: int| i < j < shorter.len() implies (#[trigger] shorter[j]).id
            != shorter[i].id by {
            assert(shorter[j] == champions[j]);
        }
        law_the_latest_grid_entry_counts(shorter, i);
        assert(champions[champions.len() - 1].id != champions[i].id);
    }
}

/// The mode that is remembered is, by name and queue, the one that the client's state
/// comes to, and it is shown again exactly where one of the two has changed.
pub proof fn law_the_engine_follows_the_mode(engine: Engine, snapshot: Snapshot)
    ensures
        ({
            let before = mode::mode_view(engine.mode);
            let now = mode::mode_now(snapshot, engine.queues, before);
            let after = engine.mode_in(snapshot);
            &&& after is Some <==> now is Some
            &&& after is Some ==> after->0.game_mode == now->0.game_mode && after->0.queue_id
                == now->0.queue_id
            &&& engine.mode_changes(snapshot) <==> !(before is None && now is None) && !(before
                is Some && now is Some && before->0.game_mode == now->0.game_mode
                && before->0.queue_id == now->0.queue_id)
        }),
{
}

/// A draft shows every enemy who has locked a champion, and only those.
pub proof fn law_a_draft_shows_its_enemies(
    team: Seq<json::Document>,
    data: json::Document,
    names: Map<i32, Seq<char>>,
    engine: Engine,
    i: int,
)
    requires
        data.array_at("theirTeam"@) == Some(team),
        0 <= i < team.len(),
    ensures
        overlay::enemy_in_draft(team[i], names, engine.overlay.spells.table()) matches Some((_, e))
            ==> drafted(data, names, engine).contains(e),
{
    let table = engine.overlay.spells.table();
    let all = overlay::enemies_in_draft(team, names, table);
    if let Some((order, e)) = overlay::enemy_in_draft(team[i], names, table) {
        lemma_drafted(team, names, table, i);
        let w = choose|w: int| 0 <= w < all.len() && all[w] == (order, e);
        overlay::law_sorting_by_role_keeps_everyone(all, w);
    }
}

proof fn lemma_drafted(
    team: Seq<json::Document>,
    names: Map<i32, Seq<char>>,
    table: Map<i32, overlay::SpellDataView>,
    i: int,
)
    requires
        0 <= i < team.len(),
    ensures
        overlay::enemy_in_draft(team[i], names, table) matches Some(e)
            ==> overlay::enemies_in_draft(team, names, table).contains(e),
        forall|w: int|
            0 <= w < overlay::enemies_in_draft(team, names, table).len() ==> (
            #[trigger] overlay::enemies_in_draft(team, names, table)[w]).0
                <= overlay::NO_LANE_ORDER,
    decreases team.len(),
{
    let shorter = team.drop_last();
    let before = overlay::enemies_in_draft(shorter, names, table);
    let after = overlay::enemies_in_draft(team, names, table);
    overlay::law_lane_names_agree(text::uppercase(team.last().string_or("assignedPosition"@, ""@)));
    if shorter.len() > 0 {
        lemma_drafted(shorter, names, table, if i < shorter.len() { i } else { 0 });
    }
    if i < shorter.len() {
        assert(shorter[i] == team[i]);
        if let Some(e) = overlay::enemy_in_draft(team[i], names, table) {
            let w = choose|w: int| 0 <= w < before.len() && before[w] == e;
            assert(after[w] == e);
        }
    } else if let Some(e) = overlay::enemy_in_draft(team.last(), names, table) {
        assert(after[after.len() - 1] == e);
    }
    assert forall|w: int| 0 <= w < after.len() implies (#[trigger] after[w]).0
        <= overlay::NO_LANE_ORDER by {
        if w < before.len() {
            assert(after[w] == before[w]);
        }
    }
}

} // verus!

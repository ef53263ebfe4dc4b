//! Champ select: what to do with the client's current state, and what to make of
//! how it went.
//!
//! The decisions are made here; the requests they name, the waits before them
//! and the answers to them belong to whoever asks.

use crate::champions;
use crate::champions::Champions;
use crate::lol_state;
use crate::lol_state::{Action, ChampSelect, Snapshot};
use crate::queues;
use crate::queues::QueueTable;
use crate::selection;
use crate::selection::{Choice, Draft, Exhausted, Intent, PassedOver, Skipped};
use crate::settings;
use crate::settings::{ChampionEntry, Settings};
use crate::text;
use crate::time;
use crate::time::{Seconds, TimeLeft};
use vstd::prelude::*;

verus! {

// ── What is remembered between events ──

/// What selection last decided, and what it passed over. It is what turns pick
/// and ban from a black box into something that can be explained.
#[derive(Debug)]
pub struct Decision {
    pub what: Intent,
    /// The name and the id of the champion that was chosen.
    pub chosen: Option<(String, i32)>,
    pub passed_over: Vec<PassedOver>,
}

pub struct DecisionView {
    pub what: Intent,
    pub chosen: Option<(Seq<char>, i32)>,
    pub passed_over: Seq<(Seq<char>, Skipped)>,
}

impl View for Decision {
    type V = DecisionView;

    open spec fn view(&self) -> DecisionView {
        DecisionView {
            what: self.what,
            chosen: match self.chosen {
                Some(c) => Some((c.0@, c.1)),
                None => None,
            },
            passed_over: selection::passed_view(self.passed_over@),
        }
    }
}

/// What is remembered between the events of a draft.
#[derive(Debug)]
pub struct DraftMemory {
    /// The last action that was acted on, so that a session that is emitted
    /// again is not acted on again.
    pub last_action: String,
    /// The last declared pick intent: planning re-emits the session constantly.
    pub last_intent: String,
    pub decision: Option<Decision>,
}

#[verifier::ext_equal]
pub struct MemoryView {
    pub last_action: Seq<char>,
    pub last_intent: Seq<char>,
    pub decision: Option<DecisionView>,
}

impl View for DraftMemory {
    type V = MemoryView;

    open spec fn view(&self) -> MemoryView {
        MemoryView {
            last_action: self.last_action@,
            last_intent: self.last_intent@,
            decision: match self.decision {
                Some(d) => Some(d@),
                None => None,
            },
        }
    }
}

// ── What to do ──

/// What to do in champ select right now.
#[derive(Debug)]
pub enum Plan {
    Nothing,
    /// Hover a champion on a pick that is not ours yet, so that the team sees
    /// what we intend to play.
    Declare { action_id: i64, champion_id: i32, name: String },
    /// Ban after a wait.
    Ban { action_id: i64, champion_id: i32, name: String, note: Option<String>, delay: Seconds },
    /// Pick after a wait, with or without showing it first.
    Pick {
        action_id: i64,
        champion_id: i32,
        name: String,
        note: Option<String>,
        hover: bool,
        delay: Seconds,
    },
    /// Let Arena roll the champion, after a wait.
    Bravery { action_id: i64, note: Option<String>, delay: Seconds },
    /// Nothing in the list was usable; say so.
    Exhausted { line: String },
}

pub enum PlanView {
    Nothing,
    Declare { action_id: i64, champion_id: i32, name: Seq<char> },
    Ban {
        action_id: i64,
        champion_id: i32,
        name: Seq<char>,
        note: Option<Seq<char>>,
        delay: Seconds,
    },
    Pick {
        action_id: i64,
        champion_id: i32,
        name: Seq<char>,
        note: Option<Seq<char>>,
        hover: bool,
        delay: Seconds,
    },
    Bravery { action_id: i64, note: Option<Seq<char>>, delay: Seconds },
    Exhausted { line: Seq<char> },
}

impl View for Plan {
    type V = PlanView;

    open spec fn view(&self) -> PlanView {
        match self {
            Plan::Nothing => PlanView::Nothing,
            Plan::Declare { action_id, champion_id, name } => PlanView::Declare {
                action_id: *action_id,
                champion_id: *champion_id,
                name: name@,
            },
            Plan::Ban { action_id, champion_id, name, note, delay } => PlanView::Ban {
                action_id: *action_id,
                champion_id: *champion_id,
                name: name@,
                note: text::optional(*note),
                delay: *delay,
            },
            Plan::Pick { action_id, champion_id, name, note, hover, delay } => PlanView::Pick {
                action_id: *action_id,
                champion_id: *champion_id,
                name: name@,
                note: text::optional(*note),
                hover: *hover,
                delay: *delay,
            },
            Plan::Bravery { action_id, note, delay } => PlanView::Bravery {
                action_id: *action_id,
                note: text::optional(*note),
                delay: *delay,
            },
            Plan::Exhausted { line } => PlanView::Exhausted { line: line@ },
        }
    }
}

impl PlanView {
    /// A ban, a pick or a roll on this action.
    pub open spec fn commits_on(self, id: i64) -> bool {
        match self {
            PlanView::Ban { action_id, .. } => action_id == id,
            PlanView::Pick { action_id, .. } => action_id == id,
            PlanView::Bravery { action_id, .. } => action_id == id,
            _ => false,
        }
    }

    /// The same plan, with nothing left to wait for.
    pub open spec fn at_once(self) -> PlanView {
        match self {
            PlanView::Ban { action_id, champion_id, name, note, .. } => PlanView::Ban {
                action_id,
                champion_id,
                name,
                note,
                delay: Seconds { millis: 0 },
            },
            PlanView::Pick { action_id, champion_id, name, note, hover, .. } => PlanView::Pick {
                action_id,
                champion_id,
                name,
                note,
                hover,
                delay: Seconds { millis: 0 },
            },
            PlanView::Bravery { action_id, note, .. } => PlanView::Bravery {
                action_id,
                note,
                delay: Seconds { millis: 0 },
            },
            _ => self,
        }
    }
}

impl Plan {
    fn at_once(self) -> (r: Plan)
        ensures
            r@ == self@.at_once(),
    {
        let delay = Seconds { millis: 0 };
        match self {
            Plan::Ban { action_id, champion_id, name, note, .. } => Plan::Ban {
                action_id,
                champion_id,
                name,
                note,
                delay,
            },
            Plan::Pick { action_id, champion_id, name, note, hover, .. } => Plan::Pick {
                action_id,
                champion_id,
                name,
                note,
                hover,
                delay,
            },
            Plan::Bravery { action_id, note, .. } => Plan::Bravery { action_id, note, delay },
            plan => plan,
        }
    }
}

// ── The pieces of a decision ──

/// The mode being played: the one that is known, else what the client's table
/// says of the session's queue.
pub open spec fn draft_mode(
    current: Option<Seq<char>>,
    table: QueueTable,
    queue_id: i64,
) -> Option<Seq<char>> {
    match current {
        Some(mode) => Some(mode),
        None => match table.lookup(queue_id) {
            Some(info) => Some(info.game_mode),
            None => None,
        },
    }
}

/// Whether there is anything of ours to pick or ban. ARAM hands champions out
/// from the bench.
pub open spec fn has_draft(table: QueueTable, queue_id: i64, mode: Option<Seq<char>>) -> bool {
    match table.lookup(queue_id) {
        Some(info) => queues::drafts(info.game_mode, info.map_id),
        None => mode != Some("ARAM"@),
    }
}

pub open spec fn is_arena(mode: Option<Seq<char>>) -> bool {
    mode == Some(settings::ARENA_MODE@)
}

/// The champion table as a function of the name.
pub open spec fn resolver(ids: Map<Seq<char>, i32>) -> spec_fn(Seq<char>) -> Option<i32> {
    |name: Seq<char>| champions::resolved(ids, champions::normalized(name))
}

/// Everything that a decision in champ select rests on.
pub ghost struct Table {
    pub settings: Settings,
    pub snapshot: Snapshot,
    pub ids: Map<Seq<char>, i32>,
    pub mode: Option<Seq<char>>,
}

impl Table {
    pub open spec fn list(self, intent: Intent, role: Seq<char>) -> Seq<ChampionEntry> {
        settings::effective(
            match intent {
                Intent::Pick => self.settings.pick_lists@,
                Intent::Ban => self.settings.ban_lists@,
            },
            settings::mode_bucket(self.settings.per_mode_lists, self.mode),
            role,
        )
    }

    pub open spec fn draft(self, intent: Intent) -> Draft {
        Draft {
            intent,
            snapshot: self.snapshot,
            avoid_ally_hover: self.settings.avoid_ally_hover,
            arena: is_arena(self.mode),
        }
    }

    /// What the list for this role comes to.
    pub open spec fn chosen(self, intent: Intent, role: Seq<char>) -> Result<
        selection::ChoiceView,
        Seq<(Seq<char>, Skipped)>,
    > {
        let list = self.list(intent, role);
        self.draft(intent).walk(list, selection::ids_by(list, resolver(self.ids)), 0)
    }

    /// What a ban comes to: where only the client's table stands in the way of
    /// every entry, the first champion is tried anyway.
    pub open spec fn chosen_ban(self, role: Seq<char>) -> Result<
        selection::ChoiceView,
        Seq<(Seq<char>, Skipped)>,
    > {
        let list = self.list(Intent::Ban, role);
        match self.chosen(Intent::Ban, role) {
            Ok(choice) => Ok(choice),
            Err(passed) => if selection::only_unavailable(passed) {
                match selection::first_resolved(
                    list,
                    selection::ids_by(list, resolver(self.ids)),
                    0,
                ) {
                    Some(choice) => Ok(choice),
                    None => Err(passed),
                }
            } else {
                Err(passed)
            },
        }
    }
}

/// Which backup was taken and what it replaced. Silent when the first choice
/// went through.
pub open spec fn fallback_note(what: Seq<char>, choice: selection::ChoiceView) -> Option<
    Seq<char>,
> {
    if choice.passed_over.len() == 0 {
        None
    } else {
        Some(
            what + " alternatiu: "@ + choice.name + " (omesos: "@ + selection::description(
                choice.passed_over,
            ) + ")"@,
        )
    }
}

/// That nothing in the list was usable, with every entry and why.
pub open spec fn exhausted_line(what: Seq<char>, passed: Seq<(Seq<char>, Skipped)>) -> Seq<char> {
    if passed.len() == 0 {
        "Cap campió configurat per al "@ + what
    } else {
        "Llista de "@ + what + " esgotada: "@ + selection::description(passed)
    }
}

fn announce_fallback(what: &str, choice: &Choice) -> (r: Option<String>)
    ensures
        text::optional(r) == fallback_note(what@, choice@),
{
    if choice.passed_over.len() == 0 {
        return None;
    }
    let mut line = text::cat(what, " alternatiu: ");
    line.append(choice.name.as_str());
    line.append(" (omesos: ");
    line.append(selection::describe(choice.passed_over.as_slice()).as_str());
    line.append(")");
    Some(line)
}

fn report_exhausted(what: &str, exhausted: &Exhausted) -> (r: String)
    ensures
        r@ == exhausted_line(what@, selection::passed_view(exhausted.passed_over@)),
{
    if exhausted.passed_over.len() == 0 {
        text::cat("Cap campió configurat per al ", what)
    } else {
        let mut line = text::cat3("Llista de ", what, " esgotada: ");
        line.append(selection::describe(exhausted.passed_over.as_slice()).as_str());
        line
    }
}

/// The key that marks an action as acted on.
pub open spec fn action_key(action_type: Seq<char>, cell_id: i64) -> Seq<char> {
    action_type + ":"@ + text::decimal_int(cell_id as int)
}

/// The key that marks an intent as declared.
pub open spec fn intent_key(action_id: i64, champion_id: i32) -> Seq<char> {
    "intent:"@ + text::decimal_int(action_id as int) + ":"@ + text::decimal_int(champion_id as int)
}

pub open spec fn delay_of(delay: Seconds, left: TimeLeft, margin: Seconds) -> Seconds {
    Seconds { millis: time::clamped(delay, left, margin) as i64 }
}

pub open spec fn time_is_up(left: TimeLeft) -> bool {
    left matches TimeLeft::Left(left) && left.millis <= 0
}

impl MemoryView {
    pub open spec fn recorded(
        self,
        what: Intent,
        chosen: Option<(Seq<char>, i32)>,
        passed: Seq<(Seq<char>, Skipped)>,
    ) -> MemoryView {
        MemoryView {
            decision: Some(DecisionView { what, chosen, passed_over: passed }),
            ..self
        }
    }

    /// The list came to nothing. The action is open again: a champion may free
    /// up before the timer runs out.
    pub open spec fn exhausted(
        self,
        what: Intent,
        name: Seq<char>,
        passed: Seq<(Seq<char>, Skipped)>,
    ) -> (MemoryView, PlanView) {
        (
            MemoryView {
                last_action: Seq::empty(),
                ..self.recorded(what, None, passed)
            },
            PlanView::Exhausted { line: exhausted_line(name, passed) },
        )
    }

    pub open spec fn ban(
        self,
        table: Table,
        session: ChampSelect,
        action_id: i64,
        left: TimeLeft,
    ) -> (MemoryView, PlanView) {
        match table.chosen_ban(session.my_role()) {
            Err(passed) => self.exhausted(Intent::Ban, "ban"@, passed),
            Ok(choice) => (
                self.recorded(
                    Intent::Ban,
                    Some((choice.name, choice.champion_id)),
                    choice.passed_over,
                ),
                PlanView::Ban {
                    action_id,
                    champion_id: choice.champion_id,
                    name: choice.name,
                    note: fallback_note("Ban"@, choice),
                    delay: delay_of(
                        table.settings.ban_delay_secs,
                        left,
                        table.settings.action_margin_secs,
                    ),
                },
            ),
        }
    }

    pub open spec fn pick(
        self,
        table: Table,
        session: ChampSelect,
        action_id: i64,
        left: TimeLeft,
    ) -> (MemoryView, PlanView) {
        let delay = delay_of(
            table.settings.pick_delay_secs,
            left,
            table.settings.action_margin_secs,
        );
        match table.chosen(Intent::Pick, session.my_role()) {
            Err(passed) => self.exhausted(Intent::Pick, "pick"@, passed),
            Ok(choice) => (
                self.recorded(
                    Intent::Pick,
                    Some((choice.name, choice.champion_id)),
                    choice.passed_over,
                ),
                if choice.champion_id == settings::BRAVERY_ID {
                    PlanView::Bravery { action_id, note: fallback_note("Pick"@, choice), delay }
                } else {
                    PlanView::Pick {
                        action_id,
                        champion_id: choice.champion_id,
                        name: choice.name,
                        note: fallback_note("Pick"@, choice),
                        hover: table.settings.hover_pick,
                        delay,
                    }
                },
            ),
        }
    }

    /// The intent to declare while the team is planning. Bravery is never
    /// declared: it is a commit, not a champion that can be shown.
    pub open spec fn intent(self, table: Table, session: ChampSelect) -> (MemoryView, PlanView) {
        match lol_state::first_open_pick(session.actions@, session.local_player_cell_id) {
            None => (self, PlanView::Nothing),
            Some(action) => match table.chosen(Intent::Pick, session.my_role()) {
                Err(_) => (self, PlanView::Nothing),
                Ok(choice) => {
                    let key = intent_key(action.id, choice.champion_id);
                    if choice.champion_id == settings::BRAVERY_ID || action.champion_id
                        == choice.champion_id || self.last_intent == key {
                        (self, PlanView::Nothing)
                    } else {
                        (
                            MemoryView { last_intent: key, ..self },
                            PlanView::Declare {
                                action_id: action.id,
                                champion_id: choice.champion_id,
                                name: choice.name,
                            },
                        )
                    }
                },
            },
        }
    }

    /// What to do about my open action.
    pub open spec fn act(
        self,
        table: Table,
        session: ChampSelect,
        action: Action,
        left: TimeLeft,
    ) -> (MemoryView, PlanView) {
        let key = action_key(action.action_type@, session.local_player_cell_id);
        let marked = MemoryView { last_action: key, ..self };
        if self.last_action == key {
            (self, PlanView::Nothing)
        } else if action.action_type@ == "ban"@ && table.settings.auto_ban {
            marked.ban(table, session, action.id, left)
        } else if action.action_type@ == "pick"@ && table.settings.auto_pick {
            marked.pick(table, session, action.id, left)
        } else {
            (MemoryView { last_action: Seq::empty(), ..self }, PlanView::Nothing)
        }
    }

    /// What to do in champ select right now.
    pub open spec fn planned(
        self,
        settings: Settings,
        snapshot: Snapshot,
        current_mode: Option<Seq<char>>,
        queues: QueueTable,
        ids: Map<Seq<char>, i32>,
        now_epoch_ms: i64,
    ) -> (MemoryView, PlanView) {
        match snapshot.champ_select {
            None => (self, PlanView::Nothing),
            Some(session) => {
                let mode = draft_mode(current_mode, queues, session.queue_id);
                let table = Table { settings, snapshot, ids, mode };
                let left = session.timer.time_left(now_epoch_ms as int);
                if session.is_spectating || !has_draft(queues, session.queue_id, mode) {
                    (self, PlanView::Nothing)
                } else if session.timer.phase@ == "PLANNING"@ {
                    if settings.auto_pick && settings.hover_pick {
                        self.intent(table, session)
                    } else {
                        (self, PlanView::Nothing)
                    }
                } else if session.timer.phase@ == "GAME_STARTING"@ || time_is_up(left) {
                    (self, PlanView::Nothing)
                } else {
                    match lol_state::open_action(session.actions@, session.local_player_cell_id) {
                        None => (self, PlanView::Nothing),
                        Some(action) => self.act(table, session, action, left),
                    }
                }
            },
        }
    }

    /// What to do about an action once its wait is over: what it comes to on the
    /// session of this moment, as if it had not been acted on yet, and at once.
    /// Nothing where the action is no longer the open one: the next session
    /// decides afresh.
    pub open spec fn due(
        self,
        settings: Settings,
        snapshot: Snapshot,
        current_mode: Option<Seq<char>>,
        queues: QueueTable,
        ids: Map<Seq<char>, i32>,
        now_epoch_ms: i64,
        action_id: i64,
    ) -> (MemoryView, PlanView) {
        match snapshot.champ_select {
            None => (self.unmarked(), PlanView::Nothing),
            Some(session) => {
                let mode = draft_mode(current_mode, queues, session.queue_id);
                let table = Table { settings, snapshot, ids, mode };
                let left = session.timer.time_left(now_epoch_ms as int);
                match lol_state::open_action(session.actions@, session.local_player_cell_id) {
                    None => (self.unmarked(), PlanView::Nothing),
                    Some(action) => if action.id == action_id {
                        let (after, plan) = self.unmarked().act(table, session, action, left);
                        (after, plan.at_once())
                    } else {
                        (self.unmarked(), PlanView::Nothing)
                    },
                }
            },
        }
    }

    /// As if no action had been acted on yet.
    pub open spec fn unmarked(self) -> MemoryView {
        MemoryView { last_action: Seq::empty(), ..self }
    }
}

// ── Deciding ──

fn choose_from(
    intent: Intent,
    list: &Vec<ChampionEntry>,
    snapshot: &Snapshot,
    champions: &Champions,
    avoid_ally_hover: bool,
    arena: bool,
) -> (r: Result<Choice, Exhausted>)
    ensures
        selection::outcome(r) == (Draft {
            intent,
            snapshot: *snapshot,
            avoid_ally_hover,
            arena,
        }).walk(list@, selection::ids_by(list@, resolver(champions.ids())), 0),
{
    let resolve = |name: &str| -> (id: Option<i32>)
        ensures
            id == champions::resolved(champions.ids(), champions::normalized(name@)),
        { champions.resolve_id(name) };
    assert(selection::computes(resolve, resolver(champions.ids())));
    selection::choose_champion(
        intent,
        list.as_slice(),
        snapshot,
        resolve,
        avoid_ally_hover,
        arena,
    )
}

fn try_anyway(
    list: &Vec<ChampionEntry>,
    exhausted: &Exhausted,
    champions: &Champions,
) -> (r: Option<Choice>)
    ensures
        selection::optional_choice(r) == if selection::only_unavailable(
            selection::passed_view(exhausted.passed_over@),
        ) {
            selection::first_resolved(
                list@,
                selection::ids_by(list@, resolver(champions.ids())),
                0,
            )
        } else {
            None
        },
{
    let resolve = |name: &str| -> (id: Option<i32>)
        ensures
            id == champions::resolved(champions.ids(), champions::normalized(name@)),
        { champions.resolve_id(name) };
    assert(selection::computes(resolve, resolver(champions.ids())));
    selection::ignoring_availability(list.as_slice(), exhausted, resolve)
}

/// What everything in a draft is decided from.
pub struct DraftInput<'a> {
    pub settings: &'a Settings,
    pub snapshot: &'a Snapshot,
    pub champions: &'a Champions,
    pub queues: &'a QueueTable,
    /// The mode being played, where it is known.
    pub current_mode: Option<&'a str>,
    /// The current time in milliseconds since the epoch.
    pub now_epoch_ms: i64,
}

impl<'a> DraftInput<'a> {
    pub open spec fn table(self, mode: Option<Seq<char>>) -> Table {
        Table {
            settings: *self.settings,
            snapshot: *self.snapshot,
            ids: self.champions.ids(),
            mode,
        }
    }

    fn mode_of(&self, queue_id: i64) -> (r: Option<&str>)
        ensures
            settings::optional_text(r) == draft_mode(
                settings::optional_text(self.current_mode),
                *self.queues,
                queue_id,
            ),
    {
        match self.current_mode {
            Some(mode) => Some(mode),
            None => match self.queues.get(queue_id) {
                Some(info) => Some(info.game_mode.as_str()),
                None => None,
            },
        }
    }

    fn choose_for(&self, intent: Intent, mode: Option<&str>, role: &str) -> (r: (
        Vec<ChampionEntry>,
        Result<Choice, Exhausted>,
    ))
        ensures
            r.0@ == self.table(settings::optional_text(mode)).list(intent, role@),
            selection::outcome(r.1) == self.table(settings::optional_text(mode)).chosen(
                intent,
                role@,
            ),
    {
        let list = match intent {
            Intent::Pick => self.settings.pick_list_for(mode, role),
            Intent::Ban => self.settings.ban_list_for(mode, role),
        };
        let arena = match mode {
            Some(mode) => text::same(mode, settings::ARENA_MODE),
            None => false,
        };
        let outcome = choose_from(
            intent,
            &list,
            self.snapshot,
            self.champions,
            self.settings.avoid_ally_hover,
            arena,
        );
        (list, outcome)
    }
}

impl DraftMemory {
    pub fn new() -> (r: Self)
        ensures
            r@ == (MemoryView {
                last_action: Seq::empty(),
                last_intent: Seq::empty(),
                decision: None,
            }),
    {
        DraftMemory { last_action: String::new(), last_intent: String::new(), decision: None }
    }

    /// The draft is over, or the client is gone: nothing has been acted on. The
    /// client restarts its action ids from small integers every draft, so two
    /// drafts in a row could otherwise share a key.
    pub fn forget(&mut self)
        ensures
            final(self)@ == (MemoryView {
                last_action: Seq::empty(),
                last_intent: Seq::empty(),
                ..old(self)@
            }),
    {
        self.last_action = String::new();
        self.last_intent = String::new();
    }

    pub fn forget_intent(&mut self)
        ensures
            final(self)@ == (MemoryView { last_intent: Seq::empty(), ..old(self)@ }),
    {
        self.last_intent = String::new();
    }

    fn exhaust(&mut self, what: Intent, name: &str, exhausted: Exhausted) -> (r: Plan)
        ensures
            (final(self)@, r@) == old(self)@.exhausted(
                what,
                name@,
                selection::passed_view(exhausted.passed_over@),
            ),
    {
        let line = report_exhausted(name, &exhausted);
        self.decision = Some(
            Decision { what, chosen: None, passed_over: exhausted.passed_over },
        );
        self.last_action = String::new();
        Plan::Exhausted { line }
    }

    fn record(&mut self, what: Intent, choice: Choice) -> (name: String)
        ensures
            name@ == choice@.name,
            final(self)@ == old(self)@.recorded(
                what,
                Some((choice@.name, choice@.champion_id)),
                choice@.passed_over,
            ),
    {
        let name = choice.name.clone();
        self.decision = Some(
            Decision {
                what,
                chosen: Some((choice.name, choice.champion_id)),
                passed_over: choice.passed_over,
            },
        );
        name
    }

    fn plan_ban(
        &mut self,
        input: &DraftInput,
        session: &ChampSelect,
        mode: Option<&str>,
        action_id: i64,
        left: TimeLeft,
    ) -> (r: Plan)
        ensures
            (final(self)@, r@) == old(self)@.ban(
                input.table(settings::optional_text(mode)),
                *session,
                action_id,
                left,
            ),
    {
        let (list, outcome) = input.choose_for(Intent::Ban, mode, session.assigned_position());
        let choice = match outcome {
            Ok(choice) => choice,
            Err(exhausted) => match try_anyway(&list, &exhausted, input.champions) {
                Some(choice) => choice,
                None => {
                    return self.exhaust(Intent::Ban, "ban", exhausted);
                },
            },
        };
        let note = announce_fallback("Ban", &choice);
        let champion_id: i32 = choice.champion_id;
        let name = self.record(Intent::Ban, choice);
        let delay = time::clamp_delay(
            input.settings.ban_delay_secs,
            left,
            input.settings.action_margin_secs,
        );
        Plan::Ban { action_id, champion_id, name, note, delay }
    }

    fn plan_pick(
        &mut self,
        input: &DraftInput,
        session: &ChampSelect,
        mode: Option<&str>,
        action_id: i64,
        left: TimeLeft,
    ) -> (r: Plan)
        ensures
            (final(self)@, r@) == old(self)@.pick(
                input.table(settings::optional_text(mode)),
                *session,
                action_id,
                left,
            ),
    {
        let delay = time::clamp_delay(
            input.settings.pick_delay_secs,
            left,
            input.settings.action_margin_secs,
        );
        let (_, outcome) = input.choose_for(Intent::Pick, mode, session.assigned_position());
        let choice = match outcome {
            Ok(choice) => choice,
            Err(exhausted) => {
                return self.exhaust(Intent::Pick, "pick", exhausted);
            },
        };
        let note = announce_fallback("Pick", &choice);
        let champion_id: i32 = choice.champion_id;
        let name = self.record(Intent::Pick, choice);
        if champion_id == settings::BRAVERY_ID {
            return Plan::Bravery { action_id, note, delay };
        }
        Plan::Pick {
            action_id,
            champion_id,
            name,
            note,
            hover: input.settings.hover_pick,
            delay,
        }
    }

    fn plan_intent(
        &mut self,
        input: &DraftInput,
        session: &ChampSelect,
        mode: Option<&str>,
    ) -> (r: Plan)
        ensures
            (final(self)@, r@) == old(self)@.intent(
                input.table(settings::optional_text(mode)),
                *session,
            ),
    {
        let action = match session.my_first_unfinished_pick() {
            Some(action) => action,
            None => {
                return Plan::Nothing;
            },
        };
        let (_, outcome) = input.choose_for(Intent::Pick, mode, session.assigned_position());
        let choice = match outcome {
            Ok(choice) => choice,
            Err(_) => {
                return Plan::Nothing;
            },
        };
        if choice.champion_id == settings::BRAVERY_ID || action.champion_id
            == choice.champion_id {
            return Plan::Nothing;
        }
        let mut key = text::cat3("intent:", text::write_i64(action.id).as_str(), ":");
        key.append(text::write_i64(choice.champion_id as i64).as_str());
        if text::same(self.last_intent.as_str(), key.as_str()) {
            return Plan::Nothing;
        }
        self.last_intent = key;
        Plan::Declare {
            action_id: action.id,
            champion_id: choice.champion_id,
            name: choice.name,
        }
    }

    fn plan_action(
        &mut self,
        input: &DraftInput,
        session: &ChampSelect,
        mode: Option<&str>,
        action: &Action,
        left: TimeLeft,
    ) -> (r: Plan)
        ensures
            (final(self)@, r@) == old(self)@.act(
                input.table(settings::optional_text(mode)),
                *session,
                *action,
                left,
            ),
    {
        let action_type = action.action_type.as_str();
        let key = text::cat3(
            action_type,
            ":",
            text::write_i64(session.local_player_cell_id).as_str(),
        );
        if text::same(self.last_action.as_str(), key.as_str()) {
            return Plan::Nothing;
        }
        if text::same(action_type, "ban") && input.settings.auto_ban {
            self.last_action = key;
            self.plan_ban(input, session, mode, action.id, left)
        } else if text::same(action_type, "pick") && input.settings.auto_pick {
            self.last_action = key;
            self.plan_pick(input, session, mode, action.id, left)
        } else {
            self.last_action = String::new();
            Plan::Nothing
        }
    }

    /// Decides what to do in champ select right now.
    ///
    /// Planning is where intent is declared, never where anything is committed.
    pub fn plan(&mut self, input: &DraftInput) -> (r: Plan)
        ensures
            (final(self)@, r@) == old(self)@.planned(
                *input.settings,
                *input.snapshot,
                settings::optional_text(input.current_mode),
                *input.queues,
                input.champions.ids(),
                input.now_epoch_ms,
            ),
    {
        let session = match &input.snapshot.champ_select {
            Some(session) => session,
            None => {
                return Plan::Nothing;
            },
        };
        if session.is_spectating {
            return Plan::Nothing;
        }
        let mode = input.mode_of(session.queue_id);
        let drafts = match input.queues.get(session.queue_id) {
            Some(info) => info.has_champ_select(),
            None => match mode {
                Some(mode) => !text::same(mode, "ARAM"),
                None => true,
            },
        };
        if !drafts {
            return Plan::Nothing;
        }
        let left = session.timer.seconds_left(input.now_epoch_ms);
        let phase = session.timer.phase.as_str();
        if text::same(phase, "PLANNING") {
            if input.settings.auto_pick && input.settings.hover_pick {
                return self.plan_intent(input, session, mode);
            }
            return Plan::Nothing;
        }
        let up = match left {
            TimeLeft::Left(left) => left.millis <= 0,
            TimeLeft::Infinite => false,
        };
        if text::same(phase, "GAME_STARTING") || up {
            return Plan::Nothing;
        }
        match session.my_open_action() {
            Some(action) => self.plan_action(input, session, mode, action, left),
            None => Plan::Nothing,
        }
    }

    /// Decides again once the wait for an action is over. A champion that was
    /// banned, taken or hovered meanwhile has made way for the next one. An
    /// action that is no longer open is left alone, and the next session event
    /// decides afresh.
    pub fn due(&mut self, input: &DraftInput, action_id: i64) -> (r: Plan)
        ensures
            (final(self)@, r@) == old(self)@.due(
                *input.settings,
                *input.snapshot,
                settings::optional_text(input.current_mode),
                *input.queues,
                input.champions.ids(),
                input.now_epoch_ms,
                action_id,
            ),
    {
        self.last_action = String::new();
        let session = match &input.snapshot.champ_select {
            Some(session) => session,
            None => {
                return Plan::Nothing;
            },
        };
        let action = match session.my_open_action() {
            Some(action) => action,
            None => {
                return Plan::Nothing;
            },
        };
        if action.id != action_id {
            return Plan::Nothing;
        }
        let mode = input.mode_of(session.queue_id);
        let left = session.timer.seconds_left(input.now_epoch_ms);
        self.plan_action(input, session, mode, action, left).at_once()
    }
}

// ── How it went ──

/// What was asked of the client.
#[derive(Clone, Copy, PartialEq, Eq, Debug, Structural)]
pub enum Deed {
    Ban,
    Pick,
    Bravery,
}

pub open spec fn deed_line(deed: Deed, name: Seq<char>, outcome: Result<(), String>) -> Seq<char> {
    match outcome {
        Ok(_) => match deed {
            Deed::Ban => "Banned "@ + name + "!"@,
            Deed::Pick => "Picked "@ + name + "!"@,
            Deed::Bravery => "Bravery activada!"@,
        },
        Err(why) => match deed {
            Deed::Ban => "Error banning: "@ + why@,
            Deed::Pick => "Error picking: "@ + why@,
            Deed::Bravery => "Error Bravery: "@ + why@,
        },
    }
}

/// The line for the log once a hover has been asked for.
pub fn hover_line(name: &str, outcome: &Result<(), String>) -> (r: String)
    ensures
        r@ == match outcome {
            Ok(_) => "Hovering "@ + name@ + "..."@,
            Err(why) => "Error hovering: "@ + why@,
        },
{
    match outcome {
        Ok(_) => text::cat3("Hovering ", name, "..."),
        Err(why) => text::cat("Error hovering: ", why.as_str()),
    }
}

impl DraftMemory {
    /// An intent has been declared, or not: the line for the log, if any. A
    /// failure is not worth showing: declaring early is a courtesy, and the
    /// client refuses it in plenty of harmless situations.
    pub fn declared(&mut self, name: &str, outcome: &Result<(), String>) -> (r: Option<String>)
        ensures
            text::optional(r) == match outcome {
                Ok(_) => Some("Intenció: "@ + name@),
                Err(_) => None,
            },
            final(self)@ == match outcome {
                Ok(_) => old(self)@,
                Err(_) => (MemoryView { last_intent: Seq::empty(), ..old(self)@ }),
            },
    {
        match outcome {
            Ok(_) => Some(text::cat("Intenció: ", name)),
            Err(_) => {
                self.last_intent = String::new();
                None
            },
        }
    }

    /// The client has answered a ban or a pick: the line for the log. A champion
    /// that was actually locked or banned is remembered as recently used. After
    /// a failure the action is open again, so that the next session event
    /// decides afresh and reaches for the next candidate.
    pub fn done(
        &mut self,
        settings: &mut Settings,
        deed: Deed,
        name: &str,
        outcome: &Result<(), String>,
    ) -> (line: String)
        ensures
            line@ == deed_line(deed, name@, *outcome),
            final(self)@ == match outcome {
                Ok(_) => old(self)@,
                Err(_) => (MemoryView { last_action: Seq::empty(), ..old(self)@ }),
            },
            final(settings)@ == match outcome {
                Ok(_) => remembered(old(settings)@, deed, name@),
                Err(_) => old(settings)@,
            },
    {
        match outcome {
            Ok(_) => match deed {
                Deed::Ban => {
                    settings::push_recent(&mut settings.recent_bans, name);
                    text::cat3("Banned ", name, "!")
                },
                Deed::Pick => {
                    settings::push_recent(&mut settings.recent_picks, name);
                    text::cat3("Picked ", name, "!")
                },
                Deed::Bravery => "Bravery activada!".to_owned(),
            },
            Err(why) => {
                self.last_action = String::new();
                match deed {
                    Deed::Ban => text::cat("Error banning: ", why.as_str()),
                    Deed::Pick => text::cat("Error picking: ", why.as_str()),
                    Deed::Bravery => text::cat("Error Bravery: ", why.as_str()),
                }
            },
        }
    }
}

/// The settings once a champion has been used.
pub open spec fn remembered(
    s: settings::SettingsView,
    deed: Deed,
    name: Seq<char>,
) -> settings::SettingsView {
    match deed {
        Deed::Ban => settings::SettingsView {
            recent_bans: settings::with_recent(s.recent_bans, name),
            ..s
        },
        Deed::Pick => settings::SettingsView {
            recent_picks: settings::with_recent(s.recent_picks, name),
            ..s
        },
        Deed::Bravery => s,
    }
}

// ── Laws ──

/// While the team is planning, nothing is ever committed.
pub proof fn law_planning_commits_to_nothing(
    m: MemoryView,
    settings: Settings,
    snapshot: Snapshot,
    mode: Option<Seq<char>>,
    queues: QueueTable,
    ids: Map<Seq<char>, i32>,
    now_epoch_ms: i64,
)
    requires
        snapshot.champ_select matches Some(session) && session.timer.phase@ == "PLANNING"@,
    ensures
        ({
            let plan = m.planned(settings, snapshot, mode, queues, ids, now_epoch_ms).1;
            plan is Nothing || plan is Declare
        }),
{
}

/// A champion is banned, picked or rolled only where the user has switched that
/// on, and always on the player's own open action.
pub proof fn law_only_what_was_asked_for(
    m: MemoryView,
    settings: Settings,
    snapshot: Snapshot,
    mode: Option<Seq<char>>,
    queues: QueueTable,
    ids: Map<Seq<char>, i32>,
    now_epoch_ms: i64,
)
    ensures
        ({
            let plan = m.planned(settings, snapshot, mode, queues, ids, now_epoch_ms).1;
            &&& plan is Ban ==> settings.auto_ban
            &&& plan is Pick || plan is Bravery || plan is Declare ==> settings.auto_pick
            &&& plan is Declare ==> settings.hover_pick
            &&& plan is Ban || plan is Pick || plan is Bravery ==> {
                let session = snapshot.champ_select->0;
                let id = match plan {
                    PlanView::Ban { action_id, .. } => action_id,
                    PlanView::Pick { action_id, .. } => action_id,
                    PlanView::Bravery { action_id, .. } => action_id,
                    _ => 0,
                };
                &&& snapshot.champ_select is Some
                &&& lol_state::open_action(session.actions@, session.local_player_cell_id) matches Some(a)
                    && a.id == id && !session.is_spectating
            }
        }),
{
}

/// A session that is emitted again is not acted on again: once a ban or a pick
/// has been planned, the same state plans nothing more.
pub proof fn law_nothing_is_done_twice(
    m: MemoryView,
    settings: Settings,
    snapshot: Snapshot,
    mode: Option<Seq<char>>,
    queues: QueueTable,
    ids: Map<Seq<char>, i32>,
    now_epoch_ms: i64,
    later_epoch_ms: i64,
)
    requires
        ({
            let plan = m.planned(settings, snapshot, mode, queues, ids, now_epoch_ms).1;
            plan is Ban || plan is Pick || plan is Bravery || plan is Declare
        }),
    ensures
        ({
            let after = m.planned(settings, snapshot, mode, queues, ids, now_epoch_ms).0;
            after.planned(settings, snapshot, mode, queues, ids, later_epoch_ms) == (
                after,
                PlanView::Nothing,
            )
        }),
{
}

/// Whatever is committed is committed before the user's margin at the end of the
/// phase begins, where there is that much time left at all.
pub proof fn law_a_plan_keeps_the_margin(
    m: MemoryView,
    settings: Settings,
    snapshot: Snapshot,
    mode: Option<Seq<char>>,
    queues: QueueTable,
    ids: Map<Seq<char>, i32>,
    now_epoch_ms: i64,
)
    requires
        snapshot.champ_select is Some,
        snapshot.champ_select->0.timer.time_left(now_epoch_ms as int) is Left,
    ensures
        ({
            let plan = m.planned(settings, snapshot, mode, queues, ids, now_epoch_ms).1;
            let left = snapshot.champ_select->0.timer.time_left(now_epoch_ms as int)->Left_0;
            let margin = settings.action_margin_secs;
            let delay = match plan {
                PlanView::Ban { delay, .. } => delay,
                PlanView::Pick { delay, .. } => delay,
                PlanView::Bravery { delay, .. } => delay,
                _ => Seconds { millis: 0 },
            };
            &&& delay.millis >= 0
            &&& left.millis >= margin.millis && (plan is Ban || plan is Pick || plan is Bravery)
                ==> delay.millis + margin.millis <= left.millis
        }),
{
    let left = snapshot.champ_select->0.timer.time_left(now_epoch_ms as int)->Left_0;
    time::law_a_delay_leaves_the_margin(
        settings.ban_delay_secs,
        left,
        settings.action_margin_secs,
    );
    time::law_a_delay_leaves_the_margin(
        settings.pick_delay_secs,
        left,
        settings.action_margin_secs,
    );
}

/// What is committed once a wait is over is usable at that moment, not when the
/// wait began: the client allows it, nobody has banned or taken it, and no
/// teammate's hover that counts is on it. A ban that is tried although the
/// client's table leaves out the whole list is the one exception.
pub proof fn law_what_is_due_is_usable_then(
    m: MemoryView,
    settings: Settings,
    snapshot: Snapshot,
    mode: Option<Seq<char>>,
    queues: QueueTable,
    ids: Map<Seq<char>, i32>,
    now_epoch_ms: i64,
    action_id: i64,
)
    requires
        snapshot.champ_select is Some,
    ensures
        ({
            let plan = m.due(settings, snapshot, mode, queues, ids, now_epoch_ms, action_id).1;
            let session = snapshot.champ_select->0;
            let table = Table {
                settings,
                snapshot,
                ids,
                mode: draft_mode(mode, queues, session.queue_id),
            };
            &&& plan matches PlanView::Pick { champion_id, .. } ==> {
                let draft = table.draft(Intent::Pick);
                &&& !draft.forbidden(champion_id)
                &&& !draft.banned(champion_id)
                &&& !draft.taken(champion_id)
                &&& !(draft.hover_counts() && draft.hovered_by_ally(champion_id))
            }
            &&& plan matches PlanView::Ban { champion_id, .. } ==> {
                let draft = table.draft(Intent::Ban);
                table.chosen(Intent::Ban, session.my_role()) is Ok ==> {
                    &&& !draft.forbidden(champion_id)
                    &&& !draft.banned(champion_id)
                    &&& !(draft.hover_counts() && draft.hovered_by_ally(champion_id))
                }
            }
        }),
{
    let session = snapshot.champ_select->0;
    let table = Table {
        settings,
        snapshot,
        ids,
        mode: draft_mode(mode, queues, session.queue_id),
    };
    let role = session.my_role();
    if table.chosen(Intent::Pick, role) is Ok {
        let list = table.list(Intent::Pick, role);
        selection::law_a_choice_is_usable(
            table.draft(Intent::Pick),
            list,
            selection::ids_by(list, resolver(ids)),
            0,
        );
    }
    if table.chosen(Intent::Ban, role) is Ok {
        let list = table.list(Intent::Ban, role);
        selection::law_a_choice_is_usable(
            table.draft(Intent::Ban),
            list,
            selection::ids_by(list, resolver(ids)),
            0,
        );
    }
}

/// Where nothing has changed during the wait, what was planned is what is
/// committed, with nothing more to wait for.
pub proof fn law_an_unchanged_session_keeps_the_choice(
    m: MemoryView,
    settings: Settings,
    snapshot: Snapshot,
    mode: Option<Seq<char>>,
    queues: QueueTable,
    ids: Map<Seq<char>, i32>,
    now_epoch_ms: i64,
    later_epoch_ms: i64,
    action_id: i64,
)
    requires
        m.planned(settings, snapshot, mode, queues, ids, now_epoch_ms).1.commits_on(action_id),
    ensures
        ({
            let (after, plan) = m.planned(settings, snapshot, mode, queues, ids, now_epoch_ms);
            after.due(settings, snapshot, mode, queues, ids, later_epoch_ms, action_id) == (
                after,
                plan.at_once(),
            )
        }),
{
    reveal_strlit(":");
    let session = snapshot.champ_select->0;
    let action = lol_state::open_action(session.actions@, session.local_player_cell_id)->0;
    assert(action_key(action.action_type@, session.local_player_cell_id).len() > 0);
}

/// Once a wait is over, nothing is committed but on the action that was waited
/// for, only while that action is the player's open one, only where the settings
/// ask for it, and never after a further wait. Where that action is no longer
/// open, nothing is marked as acted on.
pub proof fn law_a_wait_ends_on_its_own_action(
    m: MemoryView,
    settings: Settings,
    snapshot: Snapshot,
    mode: Option<Seq<char>>,
    queues: QueueTable,
    ids: Map<Seq<char>, i32>,
    now_epoch_ms: i64,
    action_id: i64,
)
    ensures
        ({
            let (after, plan) = m.due(
                settings,
                snapshot,
                mode,
                queues,
                ids,
                now_epoch_ms,
                action_id,
            );
            let still_open = snapshot.champ_select matches Some(session)
                && lol_state::open_action(session.actions@, session.local_player_cell_id)
                matches Some(a) && a.id == action_id;
            &&& !still_open ==> plan is Nothing && after == m.unmarked()
            &&& plan !is Declare
            &&& plan is Ban ==> settings.auto_ban
            &&& plan is Pick || plan is Bravery ==> settings.auto_pick
            &&& plan is Ban || plan is Pick || plan is Bravery ==> {
                let session = snapshot.champ_select->0;
                &&& plan.commits_on(action_id)
                &&& plan.at_once() == plan
                &&& snapshot.champ_select is Some
                &&& lol_state::open_action(session.actions@, session.local_player_cell_id) matches Some(a)
                    && a.id == action_id
            }
        }),
{
}

/// Bravery is never shown as an intent: it is a commit, not a champion.
pub proof fn law_bravery_is_never_declared(
    m: MemoryView,
    settings: Settings,
    snapshot: Snapshot,
    mode: Option<Seq<char>>,
    queues: QueueTable,
    ids: Map<Seq<char>, i32>,
    now_epoch_ms: i64,
)
    ensures
        m.planned(settings, snapshot, mode, queues, ids, now_epoch_ms).1 matches PlanView::Declare {
            champion_id,
            ..
        } ==> champion_id != settings::BRAVERY_ID,
{
}

/// The entry at this place of a list is the first that can be used for this kind of
/// action right now.
pub open spec fn first_usable_at(
    intent: Intent,
    settings: Settings,
    snapshot: Snapshot,
    ids: Map<Seq<char>, i32>,
    mode: Option<Seq<char>>,
    list: Seq<ChampionEntry>,
    k: int,
) -> bool {
    let fits = |j: int|
        selection::usable(
            intent,
            snapshot,
            settings.avoid_ally_hover,
            mode == Some("CHERRY"@),
            list[j],
            resolver(ids)(list[j].name@),
        );
    &&& 0 <= k < list.len()
    &&& fits(k)
    &&& forall|j: int| 0 <= j < k ==> !#[trigger] fits(j)
}

/// The pick list that counts for a player: that of the mode being played, behind the
/// global one, for the position that the session assigns to this seat.
pub open spec fn list_of_seat(
    lists: Map<Seq<char>, settings::RoleLists>,
    per_mode_lists: bool,
    mode: Option<Seq<char>>,
    session: ChampSelect,
    seat: int,
) -> Seq<ChampionEntry> {
    settings::effective(
        lists,
        settings::mode_bucket(per_mode_lists, mode),
        session.my_team@[seat].assigned_position@,
    )
}

/// The local player sits here.
pub open spec fn is_my_seat(session: ChampSelect, seat: int) -> bool {
    &&& 0 <= seat < session.my_team@.len()
    &&& session.my_team@[seat].cell_id == session.local_player_cell_id
    &&& forall|j: int|
        0 <= j < seat ==> (#[trigger] session.my_team@[j]).cell_id != session.local_player_cell_id
}

/// The plan picks this entry, or rolls where the entry is Bravery.
pub open spec fn picks_entry(
    plan: PlanView,
    ids: Map<Seq<char>, i32>,
    entry: ChampionEntry,
) -> bool {
    match plan {
        PlanView::Pick { champion_id, name, .. } => name == entry.name@ && champion_id
            == selection::comes_to(entry, resolver(ids)(entry.name@)),
        PlanView::Bravery { .. } => selection::comes_to(entry, resolver(ids)(entry.name@)) == -3,
        PlanView::Declare { champion_id, name, .. } => name == entry.name@ && champion_id
            == selection::comes_to(entry, resolver(ids)(entry.name@)),
        _ => false,
    }
}

proof fn lemma_chosen_is_first_usable(
    table: Table,
    intent: Intent,
    session: ChampSelect,
    seat: int,
    list: Seq<ChampionEntry>,
)
    requires
        is_my_seat(session, seat),
        intent == Intent::Pick ==> list == list_of_seat(
            table.settings.pick_lists@,
            table.settings.per_mode_lists,
            table.mode,
            session,
            seat,
        ),
        intent == Intent::Ban ==> list == list_of_seat(
            table.settings.ban_lists@,
            table.settings.per_mode_lists,
            table.mode,
            session,
            seat,
        ),
    ensures
        match table.chosen(intent, session.my_role()) {
            Ok(choice) => {
                let at = choice.passed_over.len() as int;
                &&& first_usable_at(
                    intent,
                    table.settings,
                    table.snapshot,
                    table.ids,
                    table.mode,
                    list,
                    at,
                )
                &&& choice.name == list[at].name@
                &&& choice.champion_id == selection::comes_to(
                    list[at],
                    resolver(table.ids)(list[at].name@),
                )
            },
            Err(_) => forall|k: int|
                !(#[trigger] first_usable_at(
                    intent,
                    table.settings,
                    table.snapshot,
                    table.ids,
                    table.mode,
                    list,
                    k,
                )),
        },
{
    lol_state::law_my_role_is_that_of_my_seat(session, seat);
    let role = session.my_role();
    assert(list == table.list(intent, role));
    let resolved = selection::ids_by(list, resolver(table.ids));
    let draft = table.draft(intent);
    selection::law_the_choice_is_the_first_usable(draft, list, resolved);
    let fits = |j: int|
        selection::usable(
            draft.intent,
            draft.snapshot,
            draft.avoid_ally_hover,
            draft.arena,
            list[j],
            resolved[j],
        );
    let here = |j: int|
        selection::usable(
            intent,
            table.snapshot,
            table.settings.avoid_ally_hover,
            table.mode == Some("CHERRY"@),
            list[j],
            resolver(table.ids)(list[j].name@),
        );
    assert forall|j: int| 0 <= j < list.len() implies #[trigger] here(j) == fits(j) by {
        assert(resolved[j] == resolver(table.ids)(list[j].name@));
    }
    match table.chosen(intent, role) {
        Ok(choice) => {
            let at = choice.passed_over.len() as int;
            assert(fits(at) && here(at));
            assert(resolved[at] == resolver(table.ids)(list[at].name@));
            assert forall|j: int| 0 <= j < at implies !#[trigger] here(j) by {
                assert(!fits(j));
            }
        },
        Err(_) => {
            assert forall|k: int|
                !(#[trigger] first_usable_at(
                    intent,
                    table.settings,
                    table.snapshot,
                    table.ids,
                    table.mode,
                    list,
                    k,
                )) by {
                if 0 <= k < list.len() {
                    assert(!fits(k) && !here(k));
                }
            }
        },
    }
}

/// The first usable entry of the list is the one that is chosen.
proof fn lemma_first_usable_is_chosen(
    table: Table,
    intent: Intent,
    session: ChampSelect,
    seat: int,
    list: Seq<ChampionEntry>,
    k: int,
)
    requires
        is_my_seat(session, seat),
        intent == Intent::Pick ==> list == list_of_seat(
            table.settings.pick_lists@,
            table.settings.per_mode_lists,
            table.mode,
            session,
            seat,
        ),
        intent == Intent::Ban ==> list == list_of_seat(
            table.settings.ban_lists@,
            table.settings.per_mode_lists,
            table.mode,
            session,
            seat,
        ),
        first_usable_at(
            intent,
            table.settings,
            table.snapshot,
            table.ids,
            table.mode,
            list,
            k,
        ),
    ensures
        table.chosen(intent, session.my_role()) matches Ok(choice) && choice.name == list[k].name@
            && choice.champion_id == selection::comes_to(
            list[k],
            resolver(table.ids)(list[k].name@),
        ),
        intent == Intent::Ban ==> resolver(table.ids)(list[k].name@) == Some(
            selection::comes_to(list[k], resolver(table.ids)(list[k].name@)),
        ),
{
    lemma_chosen_is_first_usable(table, intent, session, seat, list);
    let here = |j: int|
        selection::usable(
            intent,
            table.snapshot,
            table.settings.avoid_ally_hover,
            table.mode == Some("CHERRY"@),
            list[j],
            resolver(table.ids)(list[j].name@),
        );
    assert(here(k));
    if let Ok(choice) = table.chosen(intent, session.my_role()) {
        let at = choice.passed_over.len() as int;
        assert(here(at));
        if at < k {
            assert(!here(at));
        }
        if k < at {
            assert(!here(k));
        }
    }
}

/// Whatever is picked, rolled or shown to the team is the first usable entry of the
/// pick list for the mode being played and for the position that the session
/// assigns to the local player, when an action opens as well as when its wait is
/// over. Every entry before it cannot be used.
pub proof fn law_a_pick_is_the_first_usable_of_my_list(
    m: MemoryView,
    settings: Settings,
    snapshot: Snapshot,
    mode: Option<Seq<char>>,
    queues: QueueTable,
    ids: Map<Seq<char>, i32>,
    now_epoch_ms: i64,
    action_id: i64,
    seat: int,
)
    requires
        snapshot.champ_select is Some,
        is_my_seat(snapshot.champ_select->0, seat),
    ensures
        ({
            let session = snapshot.champ_select->0;
            let played = draft_mode(mode, queues, session.queue_id);
            let list = list_of_seat(
                settings.pick_lists@,
                settings.per_mode_lists,
                played,
                session,
                seat,
            );
            let planned = m.planned(settings, snapshot, mode, queues, ids, now_epoch_ms).1;
            let due = m.due(settings, snapshot, mode, queues, ids, now_epoch_ms, action_id).1;
            &&& planned is Pick || planned is Bravery || planned is Declare ==> exists|k: int|
                first_usable_at(Intent::Pick, settings, snapshot, ids, played, list, k)
                    && picks_entry(planned, ids, #[trigger] list[k])
            &&& due is Pick || due is Bravery ==> exists|k: int|
                first_usable_at(Intent::Pick, settings, snapshot, ids, played, list, k)
                    && picks_entry(due, ids, #[trigger] list[k])
        }),
{
    let session = snapshot.champ_select->0;
    let played = draft_mode(mode, queues, session.queue_id);
    let table = Table { settings, snapshot, ids, mode: played };
    let list = list_of_seat(settings.pick_lists@, settings.per_mode_lists, played, session, seat);
    lemma_chosen_is_first_usable(table, Intent::Pick, session, seat, list);
    if let Ok(choice) = table.chosen(Intent::Pick, session.my_role()) {
        let at = choice.passed_over.len() as int;
        assert(first_usable_at(Intent::Pick, settings, snapshot, ids, played, list, at));
        let planned = m.planned(settings, snapshot, mode, queues, ids, now_epoch_ms).1;
        let due = m.due(settings, snapshot, mode, queues, ids, now_epoch_ms, action_id).1;
        assert(planned is Pick || planned is Bravery || planned is Declare ==> picks_entry(
            planned,
            ids,
            list[at],
        ));
        assert(due is Pick || due is Bravery ==> picks_entry(due, ids, list[at]));
    }
}

/// Whatever is banned is the first usable entry of the ban list for the mode being
/// played and for the local player's position. Only where no entry can be used is
/// another one tried: one that the list names and that is known.
pub proof fn law_a_ban_is_the_first_usable_of_my_list(
    m: MemoryView,
    settings: Settings,
    snapshot: Snapshot,
    mode: Option<Seq<char>>,
    queues: QueueTable,
    ids: Map<Seq<char>, i32>,
    now_epoch_ms: i64,
    action_id: i64,
    seat: int,
    k: int,
)
    requires
        snapshot.champ_select is Some,
        is_my_seat(snapshot.champ_select->0, seat),
        ({
            let session = snapshot.champ_select->0;
            let played = draft_mode(mode, queues, session.queue_id);
            let list = list_of_seat(
                settings.ban_lists@,
                settings.per_mode_lists,
                played,
                session,
                seat,
            );
            first_usable_at(Intent::Ban, settings, snapshot, ids, played, list, k)
        }),
    ensures
        ({
            let session = snapshot.champ_select->0;
            let played = draft_mode(mode, queues, session.queue_id);
            let entry = list_of_seat(
                settings.ban_lists@,
                settings.per_mode_lists,
                played,
                session,
                seat,
            )[k];
            let planned = m.planned(settings, snapshot, mode, queues, ids, now_epoch_ms).1;
            let due = m.due(settings, snapshot, mode, queues, ids, now_epoch_ms, action_id).1;
            &&& planned matches PlanView::Ban { champion_id, name, .. } ==> name == entry.name@
                && Some(champion_id) == resolver(ids)(entry.name@)
            &&& due matches PlanView::Ban { champion_id, name, .. } ==> name == entry.name@
                && Some(champion_id) == resolver(ids)(entry.name@)
        }),
{
    let session = snapshot.champ_select->0;
    let played = draft_mode(mode, queues, session.queue_id);
    let table = Table { settings, snapshot, ids, mode: played };
    let list = list_of_seat(settings.ban_lists@, settings.per_mode_lists, played, session, seat);
    lemma_first_usable_is_chosen(table, Intent::Ban, session, seat, list, k);
}

/// The local player's own pick is open, nothing has been done about it yet, and there
/// is time left for it.
pub open spec fn my_turn_is_open(
    m: MemoryView,
    session: ChampSelect,
    queues: QueueTable,
    mode: Option<Seq<char>>,
    now_epoch_ms: i64,
    action: Action,
) -> bool {
    &&& !session.is_spectating
    &&& has_draft(queues, session.queue_id, draft_mode(mode, queues, session.queue_id))
    &&& session.timer.phase@ != "PLANNING"@
    &&& session.timer.phase@ != "GAME_STARTING"@
    &&& session.timer.is_infinite || session.timer.time_left(now_epoch_ms as int)->Left_0.millis > 0
    &&& lol_state::open_action(session.actions@, session.local_player_cell_id) == Some(action)
    &&& m.last_action != action_key(action.action_type@, session.local_player_cell_id)
}

/// On my turn to pick, with auto pick on and a usable entry in my list, that entry is
/// picked, on my action, shown first where the user wants that. In particular the
/// first usable entry of my own lane is, where nothing before it can be used.
pub proof fn law_my_turn_to_pick_is_taken(
    m: MemoryView,
    settings: Settings,
    snapshot: Snapshot,
    mode: Option<Seq<char>>,
    queues: QueueTable,
    ids: Map<Seq<char>, i32>,
    now_epoch_ms: i64,
    seat: int,
    action: Action,
    k: int,
)
    requires
        settings.auto_pick,
        snapshot.champ_select is Some,
        is_my_seat(snapshot.champ_select->0, seat),
        my_turn_is_open(m, snapshot.champ_select->0, queues, mode, now_epoch_ms, action),
        action.action_type@ == "pick"@,
        ({
            let session = snapshot.champ_select->0;
            let played = draft_mode(mode, queues, session.queue_id);
            let list = list_of_seat(
                settings.pick_lists@,
                settings.per_mode_lists,
                played,
                session,
                seat,
            );
            first_usable_at(Intent::Pick, settings, snapshot, ids, played, list, k)
        }),
    ensures
        ({
            let session = snapshot.champ_select->0;
            let played = draft_mode(mode, queues, session.queue_id);
            let entry = list_of_seat(
                settings.pick_lists@,
                settings.per_mode_lists,
                played,
                session,
                seat,
            )[k];
            let planned = m.planned(settings, snapshot, mode, queues, ids, now_epoch_ms).1;
            &&& planned is Pick || planned is Bravery
            &&& picks_entry(planned, ids, entry)
            &&& planned.commits_on(action.id)
            &&& planned matches PlanView::Pick { hover, .. } ==> hover == settings.hover_pick
        }),
{
    let session = snapshot.champ_select->0;
    let played = draft_mode(mode, queues, session.queue_id);
    let table = Table { settings, snapshot, ids, mode: played };
    let list = list_of_seat(settings.pick_lists@, settings.per_mode_lists, played, session, seat);
    lemma_pick_is_no_ban();
    lemma_first_usable_is_chosen(table, Intent::Pick, session, seat, list, k);
}

proof fn lemma_pick_is_no_ban()
    ensures
        "pick"@ != "ban"@,
{
    reveal_strlit("pick");
    reveal_strlit("ban");
    assert("pick"@.len() == 4 && "ban"@.len() == 3);
}

/// The first entry that the user has put under the position being played is the one
/// that is picked, where it can be used and no global entry comes before it: what
/// stands under another lane, or under none, does not matter.
pub proof fn law_the_first_entry_of_my_lane_is_picked(
    m: MemoryView,
    settings: Settings,
    snapshot: Snapshot,
    mode: Seq<char>,
    queues: QueueTable,
    ids: Map<Seq<char>, i32>,
    now_epoch_ms: i64,
    seat: int,
    action: Action,
)
    requires
        settings.auto_pick,
        settings.per_mode_lists,
        snapshot.champ_select is Some,
        is_my_seat(snapshot.champ_select->0, seat),
        my_turn_is_open(m, snapshot.champ_select->0, queues, Some(mode), now_epoch_ms, action),
        action.action_type@ == "pick"@,
        mode.len() > 0 && mode != "*"@,
        !settings.pick_lists@.contains_key("*"@),
        settings.pick_lists@.contains_key(mode),
        settings::entries_under(
            settings.pick_lists@[mode],
            text::ascii_lower(snapshot.champ_select->0.my_team@[seat].assigned_position@),
        ) matches Some(own) && own.len() > 0 && selection::usable(
            Intent::Pick,
            snapshot,
            settings.avoid_ally_hover,
            mode == "CHERRY"@,
            own[0],
            resolver(ids)(own[0].name@),
        ),
    ensures
        ({
            let own = settings::entries_under(
                settings.pick_lists@[mode],
                text::ascii_lower(snapshot.champ_select->0.my_team@[seat].assigned_position@),
            )->0;
            let planned = m.planned(settings, snapshot, Some(mode), queues, ids, now_epoch_ms).1;
            picks_entry(planned, ids, own[0]) && planned.commits_on(action.id)
        }),
{
    let session = snapshot.champ_select->0;
    let role = session.my_team@[seat].assigned_position@;
    let lists = settings.pick_lists@;
    let own = settings::entries_under(lists[mode], text::ascii_lower(role))->0;
    let list = list_of_seat(lists, true, Some(mode), session, seat);
    settings::law_the_list_of_a_mode(lists, mode, role);
    settings::law_a_lane_has_its_own_list(lists[mode], role);
    assert(list =~= lists[mode].for_role_spec(role));
    assert(list[0] == own[0]);
    assert(first_usable_at(Intent::Pick, settings, snapshot, ids, Some(mode), list, 0));
    law_my_turn_to_pick_is_taken(
        m,
        settings,
        snapshot,
        Some(mode),
        queues,
        ids,
        now_epoch_ms,
        seat,
        action,
        0,
    );
}

/// On my turn to ban, with auto ban on and a usable entry in my list, that entry is
/// banned, on my action.
pub proof fn law_my_turn_to_ban_is_taken(
    m: MemoryView,
    settings: Settings,
    snapshot: Snapshot,
    mode: Option<Seq<char>>,
    queues: QueueTable,
    ids: Map<Seq<char>, i32>,
    now_epoch_ms: i64,
    seat: int,
    action: Action,
    k: int,
)
    requires
        settings.auto_ban,
        snapshot.champ_select is Some,
        is_my_seat(snapshot.champ_select->0, seat),
        my_turn_is_open(m, snapshot.champ_select->0, queues, mode, now_epoch_ms, action),
        action.action_type@ == "ban"@,
        ({
            let session = snapshot.champ_select->0;
            let played = draft_mode(mode, queues, session.queue_id);
            let list = list_of_seat(
                settings.ban_lists@,
                settings.per_mode_lists,
                played,
                session,
                seat,
            );
            first_usable_at(Intent::Ban, settings, snapshot, ids, played, list, k)
        }),
    ensures
        ({
            let session = snapshot.champ_select->0;
            let played = draft_mode(mode, queues, session.queue_id);
            let entry = list_of_seat(
                settings.ban_lists@,
                settings.per_mode_lists,
                played,
                session,
                seat,
            )[k];
            m.planned(settings, snapshot, mode, queues, ids, now_epoch_ms).1 matches PlanView::Ban {
                action_id,
                champion_id,
                name,
                ..
            } && action_id == action.id && name == entry.name@ && Some(champion_id) == resolver(
                ids,
            )(entry.name@)
        }),
{
    let session = snapshot.champ_select->0;
    let played = draft_mode(mode, queues, session.queue_id);
    let table = Table { settings, snapshot, ids, mode: played };
    let list = list_of_seat(settings.ban_lists@, settings.per_mode_lists, played, session, seat);
    lemma_first_usable_is_chosen(table, Intent::Ban, session, seat, list, k);
}

/// The wait is the configured one, the ban's for a ban and the pick's for a pick:
/// exactly that wherever it fits before the margin, and never longer.
pub proof fn law_a_plan_waits_as_configured(
    m: MemoryView,
    settings: Settings,
    snapshot: Snapshot,
    mode: Option<Seq<char>>,
    queues: QueueTable,
    ids: Map<Seq<char>, i32>,
    now_epoch_ms: i64,
)
    requires
        snapshot.champ_select is Some,
    ensures
        ({
            let left = snapshot.champ_select->0.timer.time_left(now_epoch_ms as int);
            let margin = settings.action_margin_secs.millis;
            let as_wanted = |delay: Seconds, wanted: Seconds|
                {
                    &&& 0 <= delay.millis
                    &&& wanted.millis >= 0 ==> delay.millis <= wanted.millis
                    &&& wanted.millis < 0 ==> delay.millis == 0
                    &&& wanted.millis >= 0 && (left is Infinite || wanted.millis + margin
                        <= left->Left_0.millis) ==> delay.millis == wanted.millis
                };
            match m.planned(settings, snapshot, mode, queues, ids, now_epoch_ms).1 {
                PlanView::Ban { delay, .. } => as_wanted(delay, settings.ban_delay_secs),
                PlanView::Pick { delay, .. } => as_wanted(delay, settings.pick_delay_secs),
                PlanView::Bravery { delay, .. } => as_wanted(delay, settings.pick_delay_secs),
                _ => true,
            }
        }),
{
    let left = snapshot.champ_select->0.timer.time_left(now_epoch_ms as int);
    if let TimeLeft::Left(left) = left {
        let margin = settings.action_margin_secs;
        time::law_a_delay_is_kept_where_it_fits(settings.ban_delay_secs, left, margin);
        time::law_a_delay_leaves_the_margin(settings.ban_delay_secs, left, margin);
        time::law_a_delay_is_kept_where_it_fits(settings.pick_delay_secs, left, margin);
        time::law_a_delay_leaves_the_margin(settings.pick_delay_secs, left, margin);
    }
}

/// Once the wait is over, the turn that was waited for is taken by what my list comes
/// to then, whatever was marked before and however little time is left.
pub proof fn law_a_due_pick_is_taken(
    m: MemoryView,
    settings: Settings,
    snapshot: Snapshot,
    mode: Option<Seq<char>>,
    queues: QueueTable,
    ids: Map<Seq<char>, i32>,
    now_epoch_ms: i64,
    seat: int,
    action: Action,
    k: int,
)
    requires
        settings.auto_pick,
        snapshot.champ_select is Some,
        is_my_seat(snapshot.champ_select->0, seat),
        lol_state::open_action(
            snapshot.champ_select->0.actions@,
            snapshot.champ_select->0.local_player_cell_id,
        ) == Some(action),
        action.action_type@ == "pick"@,
        ({
            let session = snapshot.champ_select->0;
            let played = draft_mode(mode, queues, session.queue_id);
            let list = list_of_seat(
                settings.pick_lists@,
                settings.per_mode_lists,
                played,
                session,
                seat,
            );
            first_usable_at(Intent::Pick, settings, snapshot, ids, played, list, k)
        }),
    ensures
        ({
            let session = snapshot.champ_select->0;
            let played = draft_mode(mode, queues, session.queue_id);
            let entry = list_of_seat(
                settings.pick_lists@,
                settings.per_mode_lists,
                played,
                session,
                seat,
            )[k];
            let due = m.due(settings, snapshot, mode, queues, ids, now_epoch_ms, action.id).1;
            &&& due is Pick || due is Bravery
            &&& picks_entry(due, ids, entry)
            &&& due matches PlanView::Pick { delay, .. } ==> delay.millis == 0
            &&& due matches PlanView::Bravery { delay, .. } ==> delay.millis == 0
        }),
{
    let session = snapshot.champ_select->0;
    let played = draft_mode(mode, queues, session.queue_id);
    let table = Table { settings, snapshot, ids, mode: played };
    let list = list_of_seat(settings.pick_lists@, settings.per_mode_lists, played, session, seat);
    lemma_pick_is_no_ban();
    reveal_strlit(":");
    assert(action_key(action.action_type@, session.local_player_cell_id).len() > 0);
    lemma_first_usable_is_chosen(table, Intent::Pick, session, seat, list, k);
}

/// A champion that was banned or picked is remembered as recently used, each in its
/// own row; a failure remembers nothing.
pub proof fn law_what_is_remembered(s: settings::SettingsView, name: Seq<char>)
    ensures
        remembered(s, Deed::Ban, name).recent_bans[0] == name,
        remembered(s, Deed::Ban, name).recent_picks == s.recent_picks,
        remembered(s, Deed::Pick, name).recent_picks[0] == name,
        remembered(s, Deed::Pick, name).recent_bans == s.recent_bans,
        remembered(s, Deed::Bravery, name) == s,
{
    settings::law_the_other_recents_keep_their_order(s.recent_bans, name);
    settings::law_the_other_recents_keep_their_order(s.recent_picks, name);
}

/// The mode of a draft is the one that is known; only without one does the client's
/// table say what the session's queue plays. The Howling Abyss has no draft, under
/// whichever name.
pub proof fn law_the_mode_of_a_draft(
    current: Option<Seq<char>>,
    table: QueueTable,
    queue_id: i64,
)
    ensures
        current is Some ==> draft_mode(current, table, queue_id) == current,
        current is None ==> (table.lookup(queue_id) matches Some(info) ==> draft_mode(
            current,
            table,
            queue_id,
        ) == Some(info.game_mode)),
        current is None && table.lookup(queue_id) is None ==> draft_mode(
            current,
            table,
            queue_id,
        ) is None,
        table.lookup(queue_id) is None ==> (has_draft(table, queue_id, current) <==> current
            != Some("ARAM"@)),
{
}

/// A backup is announced, and a first choice is not; what was chosen is recorded, with
/// everything that was passed over for it.
pub proof fn law_a_backup_is_announced(
    m: MemoryView,
    settings: Settings,
    snapshot: Snapshot,
    mode: Option<Seq<char>>,
    queues: QueueTable,
    ids: Map<Seq<char>, i32>,
    now_epoch_ms: i64,
    seat: int,
    k: int,
)
    requires
        snapshot.champ_select is Some,
        is_my_seat(snapshot.champ_select->0, seat),
        ({
            let session = snapshot.champ_select->0;
            let played = draft_mode(mode, queues, session.queue_id);
            let list = list_of_seat(
                settings.pick_lists@,
                settings.per_mode_lists,
                played,
                session,
                seat,
            );
            first_usable_at(Intent::Pick, settings, snapshot, ids, played, list, k)
        }),
    ensures
        ({
            let (after, plan) = m.planned(settings, snapshot, mode, queues, ids, now_epoch_ms);
            plan matches PlanView::Pick { champion_id, name, note, .. } ==> {
                &&& note is Some <==> k > 0
                &&& after.decision matches Some(d) && d.what == Intent::Pick && d.chosen == Some(
                    (name, champion_id),
                ) && d.passed_over.len() == k
            }
        }),
{
    let session = snapshot.champ_select->0;
    let played = draft_mode(mode, queues, session.queue_id);
    let table = Table { settings, snapshot, ids, mode: played };
    let list = list_of_seat(settings.pick_lists@, settings.per_mode_lists, played, session, seat);
    lemma_chosen_is_first_usable(table, Intent::Pick, session, seat, list);
    let here = |j: int|
        selection::usable(
            Intent::Pick,
            snapshot,
            settings.avoid_ally_hover,
            played == Some("CHERRY"@),
            list[j],
            resolver(ids)(list[j].name@),
        );
    assert(here(k));
    if let Ok(choice) = table.chosen(Intent::Pick, session.my_role()) {
        let at = choice.passed_over.len() as int;
        assert(here(at));
        if at < k {
            assert(!here(at));
        }
        if k < at {
            assert(!here(k));
        }
    }
}

/// Giving up says so, and means that no entry of my list can be used: what is planned
/// then marks nothing, so that the next session is decided afresh.
pub proof fn law_giving_up_means_nothing_is_usable(
    m: MemoryView,
    settings: Settings,
    snapshot: Snapshot,
    mode: Option<Seq<char>>,
    queues: QueueTable,
    ids: Map<Seq<char>, i32>,
    now_epoch_ms: i64,
    seat: int,
    k: int,
)
    requires
        snapshot.champ_select is Some,
        is_my_seat(snapshot.champ_select->0, seat),
        m.planned(settings, snapshot, mode, queues, ids, now_epoch_ms).1 is Exhausted,
    ensures
        ({
            let session = snapshot.champ_select->0;
            let played = draft_mode(mode, queues, session.queue_id);
            let picks = list_of_seat(
                settings.pick_lists@,
                settings.per_mode_lists,
                played,
                session,
                seat,
            );
            let bans = list_of_seat(
                settings.ban_lists@,
                settings.per_mode_lists,
                played,
                session,
                seat,
            );
            let after = m.planned(settings, snapshot, mode, queues, ids, now_epoch_ms).0;
            &&& after.last_action == Seq::<char>::empty()
            &&& after.decision matches Some(d) && d.chosen is None && match d.what {
                Intent::Pick => !first_usable_at(
                    Intent::Pick,
                    settings,
                    snapshot,
                    ids,
                    played,
                    picks,
                    k,
                ),
                Intent::Ban => !first_usable_at(
                    Intent::Ban,
                    settings,
                    snapshot,
                    ids,
                    played,
                    bans,
                    k,
                ),
            }
        }),
{
    let session = snapshot.champ_select->0;
    let played = draft_mode(mode, queues, session.queue_id);
    let table = Table { settings, snapshot, ids, mode: played };
    let picks = list_of_seat(settings.pick_lists@, settings.per_mode_lists, played, session, seat);
    let bans = list_of_seat(settings.ban_lists@, settings.per_mode_lists, played, session, seat);
    lemma_chosen_is_first_usable(table, Intent::Pick, session, seat, picks);
    lemma_chosen_is_first_usable(table, Intent::Ban, session, seat, bans);
}

/// While the team is planning, the champion that my list comes to is shown on my own
/// pick, where the user wants that and it is not shown there yet.
pub proof fn law_planning_shows_my_champion(
    m: MemoryView,
    settings: Settings,
    snapshot: Snapshot,
    mode: Option<Seq<char>>,
    queues: QueueTable,
    ids: Map<Seq<char>, i32>,
    now_epoch_ms: i64,
    seat: int,
    action: Action,
    k: int,
)
    requires
        settings.auto_pick && settings.hover_pick,
        snapshot.champ_select is Some,
        is_my_seat(snapshot.champ_select->0, seat),
        ({
            let session = snapshot.champ_select->0;
            let played = draft_mode(mode, queues, session.queue_id);
            let list = list_of_seat(
                settings.pick_lists@,
                settings.per_mode_lists,
                played,
                session,
                seat,
            );
            let id = selection::comes_to(list[k], resolver(ids)(list[k].name@));
            &&& first_usable_at(Intent::Pick, settings, snapshot, ids, played, list, k)
            &&& id != -3
            &&& action.champion_id != id
            &&& m.last_intent != intent_key(action.id, id)
            &&& !session.is_spectating
            &&& has_draft(queues, session.queue_id, played)
            &&& session.timer.phase@ == "PLANNING"@
            &&& lol_state::first_open_pick(session.actions@, session.local_player_cell_id) == Some(
                action,
            )
        }),
    ensures
        ({
            let session = snapshot.champ_select->0;
            let played = draft_mode(mode, queues, session.queue_id);
            let entry = list_of_seat(
                settings.pick_lists@,
                settings.per_mode_lists,
                played,
                session,
                seat,
            )[k];
            m.planned(settings, snapshot, mode, queues, ids, now_epoch_ms).1
                matches PlanView::Declare { action_id, champion_id, name } && action_id == action.id
                && name == entry.name@ && champion_id == selection::comes_to(
                entry,
                resolver(ids)(entry.name@),
            )
        }),
{
    let session = snapshot.champ_select->0;
    let played = draft_mode(mode, queues, session.queue_id);
    let table = Table { settings, snapshot, ids, mode: played };
    let list = list_of_seat(settings.pick_lists@, settings.per_mode_lists, played, session, seat);
    lemma_first_usable_is_chosen(table, Intent::Pick, session, seat, list, k);
}

/// Where the client's table knows the queue, it decides whether there is a draft.
pub proof fn law_the_table_decides_on_a_draft(
    table: QueueTable,
    queue_id: i64,
    mode: Option<Seq<char>>,
)
    ensures
        table.lookup(queue_id) matches Some(info) ==> (has_draft(table, queue_id, mode) <==> !(
        info.map_id == 12 || info.game_mode == "STRAWBERRY"@ || info.game_mode == "TFT"@
            || "TUTORIAL"@.is_prefix_of(info.game_mode))),
{
}

/// A list entry means the champion that the table lists under its name, however it is
/// typed; a name that the table does not know in any way is nobody.
pub proof fn law_an_entry_means_its_champion(ids: Map<Seq<char>, i32>, name: Seq<char>)
    ensures
        ({
            let key = champions::normalized(name);
            &&& key.len() > 0 && ids.contains_key(key) ==> resolver(ids)(name) == Some(ids[key])
            &&& key.len() == 0 ==> resolver(ids)(name) is None
            &&& (forall|other: Seq<char>| #[trigger]
                ids.contains_key(other) ==> !key.is_prefix_of(other)) ==> resolver(ids)(name)
                is None
        }),
{
    let key = champions::normalized(name);
    champions::law_what_a_typed_name_finds(ids, key, key);
    if ids.contains_key(key) {
        assert(key.is_prefix_of(key));
    }
}

/// What was done about my ban says nothing about my pick, nor the other way round.
pub proof fn law_a_ban_does_not_stand_for_a_pick(cell_id: i64)
    ensures
        action_key("ban"@, cell_id) != action_key("pick"@, cell_id),
{
    reveal_strlit("ban");
    reveal_strlit("pick");
    assert("ban"@.len() == 3 && "pick"@.len() == 4);
    let ban = action_key("ban"@, cell_id);
    let pick = action_key("pick"@, cell_id);
    assert(ban.len() + 1 == pick.len());
}

/// Having shown one champion says nothing about another.
pub proof fn law_each_intent_is_its_own(action_id: i64, a: i32, b: i32)
    requires
        intent_key(action_id, a) == intent_key(action_id, b),
    ensures
        a == b,
{
    let prefix = "intent:"@ + text::decimal_int(action_id as int) + ":"@;
    let (x, y) = (text::decimal_int(a as int), text::decimal_int(b as int));
    assert((prefix + x).skip(prefix.len() as int) =~= x);
    assert((prefix + y).skip(prefix.len() as int) =~= y);
    text::law_integers_are_written_apart(a as int, b as int);
}

/// A ban that no entry of the list allows is tried anyway only where the client's table
/// alone stands in the way of every entry, and then it is the first champion of the
/// list that is known. Where anything else stands in the way of one, nothing is banned.
pub proof fn law_when_a_ban_is_tried_anyway(table: Table, role: Seq<char>, k: int)
    requires
        table.chosen(Intent::Ban, role) is Err,
    ensures
        ({
            let passed = table.chosen(Intent::Ban, role)->Err_0;
            let list = table.list(Intent::Ban, role);
            let known = |j: int|
                !list[j].disabled && !text::blank(list[j].name@) && champions::normalized(
                    list[j].name@,
                ) != champions::normalized("Bravery"@) && resolver(table.ids)(list[j].name@)
                    is Some;
            &&& table.chosen_ban(role) is Ok ==> forall|i: int|
                0 <= i < passed.len() ==> (#[trigger] passed[i]).1 == Skipped::Unavailable
            &&& 0 <= k < list.len() && known(k) && (forall|j: int|
                0 <= j < k ==> !#[trigger] known(j)) && (forall|i: int|
                0 <= i < passed.len() ==> (#[trigger] passed[i]).1 == Skipped::Unavailable)
                ==> table.chosen_ban(role) is Ok && table.chosen_ban(role)->Ok_0.name
                == list[k].name@ && Some(table.chosen_ban(role)->Ok_0.champion_id) == resolver(
                table.ids,
            )(list[k].name@)
        }),
{
    let list = table.list(Intent::Ban, role);
    let ids = selection::ids_by(list, resolver(table.ids));
    let passed = table.chosen(Intent::Ban, role)->Err_0;
    let known = |j: int|
        !list[j].disabled && !text::blank(list[j].name@) && champions::normalized(list[j].name@)
            != champions::normalized("Bravery"@) && resolver(table.ids)(list[j].name@) is Some;
    selection::law_the_choice_is_the_first_usable(table.draft(Intent::Ban), list, ids);
    assert(passed.len() == list.len());
    if 0 <= k < list.len() && known(k) && (forall|j: int| 0 <= j < k ==> !#[trigger] known(j)) {
        assert forall|j: int| #![trigger list[j]] 0 <= j < k implies list[j].disabled || text::blank(
            list[j].name@,
        ) || champions::normalized(list[j].name@) == champions::normalized("Bravery"@)
            || ids[j] is None by {
            assert(!known(j));
            assert(ids[j] == resolver(table.ids)(list[j].name@));
        }
        assert(ids[k] == resolver(table.ids)(list[k].name@));
        selection::law_what_is_tried_anyway(list, ids, k);
    }
}

} // verus!

//! Choosing which champion to pick or ban.
//!
//! Availability is decided **before** the call, not by trying and handling the
//! failure: the candidate is computed afresh on the session as it stands, when an
//! action opens and again when its countdown ends. A champion that gets banned
//! or hovered during the countdown is dropped and the next one takes its place,
//! with no failed request in between.

use crate::champions;
use crate::lol_state;
use crate::lol_state::{ChampSelect, Snapshot};
use crate::settings;
use crate::settings::ChampionEntry;
use crate::text;
use std::collections::HashSet;
use vstd::prelude::*;

verus! {

broadcast use vstd::std_specs::hash::group_hash_axioms;

/// Why a candidate was passed over. Logged, and shown in the info panel, so a
/// list that quietly does nothing can be explained rather than guessed at.
#[derive(Clone, Copy, PartialEq, Eq, Debug, Structural)]
pub enum Skipped {
    /// The name doesn't resolve to a champion: a typo, or the champion table
    /// hasn't loaded yet.
    Unknown,
    /// Switched off by the user, or a one-shot that has already been spent.
    Disabled,
    /// Not in the client's pickable/bannable set: not owned, not in the free
    /// rotation, or restricted in this queue or mode.
    Unavailable,
    Banned,
    /// Locked in by someone else.
    Taken,
    /// An ally is hovering it.
    AllyHovering,
}

impl Skipped {
    pub open spec fn reason_spec(self) -> Seq<char> {
        match self {
            Skipped::Unknown => "no trobat"@,
            Skipped::Disabled => "desactivat"@,
            Skipped::Unavailable => "no disponible"@,
            Skipped::Banned => "banejat"@,
            Skipped::Taken => "ja agafat"@,
            Skipped::AllyHovering => "un aliat l'està hoverejant"@,
        }
    }

    /// Catalan, for the log.
    pub fn reason(self) -> (r: &'static str)
        ensures
            r@ == self.reason_spec(),
    {
        match self {
            Skipped::Unknown => "no trobat",
            Skipped::Disabled => "desactivat",
            Skipped::Unavailable => "no disponible",
            Skipped::Banned => "banejat",
            Skipped::Taken => "ja agafat",
            Skipped::AllyHovering => "un aliat l'està hoverejant",
        }
    }
}

#[derive(Debug)]
pub struct PassedOver {
    pub name: String,
    pub reason: Skipped,
}

#[derive(Debug)]
pub struct Choice {
    pub champion_id: i32,
    pub name: String,
    /// Candidates ahead of this one, and why each was skipped.
    pub passed_over: Vec<PassedOver>,
}

/// Nothing in the list was usable.
#[derive(Debug)]
pub struct Exhausted {
    pub passed_over: Vec<PassedOver>,
}

#[derive(Clone, Copy, PartialEq, Eq, Debug, Structural)]
pub enum Intent {
    Pick,
    Ban,
}

// ── What each candidate comes to ──

/// Everything but the list that decides a choice.
pub ghost struct Draft {
    pub intent: Intent,
    pub snapshot: Snapshot,
    pub avoid_ally_hover: bool,
    pub arena: bool,
}

pub enum Verdict {
    Take(i32),
    Skip(Skipped),
}

impl Draft {
    /// The server's hard rule set for this kind of action.
    pub open spec fn allowed(self) -> Set<i32> {
        match self.intent {
            Intent::Pick => self.snapshot.pickable@,
            Intent::Ban => self.snapshot.bannable@,
        }
    }

    /// The client will not let us have this champion. An empty rule set means
    /// "not loaded yet", not "nothing is allowed".
    pub open spec fn forbidden(self, id: i32) -> bool {
        !self.allowed().is_empty() && !self.allowed().contains(id)
    }

    pub open spec fn banned(self, id: i32) -> bool {
        ||| self.snapshot.grid_entry(id) matches Some(g) && g.is_banned
        ||| self.snapshot.champ_select matches Some(s) && s.banned(id)
    }

    /// An ally is hovering the champion: as the grid says, and the session where
    /// the grid says nothing.
    pub open spec fn hovered_by_ally(self, id: i32) -> bool {
        match self.snapshot.grid_entry(id) {
            Some(g) => g.pick_intented && !g.pick_intented_by_me,
            None => self.snapshot.champ_select matches Some(s) && s.hovered_by_ally(id),
        }
    }

    /// Someone else has the champion, in a mode where that matters.
    pub open spec fn taken(self, id: i32) -> bool {
        &&& match self.snapshot.grid_entry(id) {
            Some(g) => g.picked_by_other_or_banned && !g.selected_by_me,
            None => self.snapshot.champ_select matches Some(s) && s.off_the_table(id),
        }
        &&& !(self.snapshot.champ_select matches Some(s) && s.allow_duplicate_picks)
    }

    /// A teammate's hover stands in the way: for a pick by preference, for a ban
    /// by the client's own rule.
    pub open spec fn hover_counts(self) -> bool {
        match self.intent {
            Intent::Pick => self.avoid_ally_hover,
            Intent::Ban => self.snapshot.champ_select matches Some(s)
                && s.disallow_banning_teammate_hovered_champions,
        }
    }

    /// What one champion comes to.
    pub open spec fn weigh_champion(self, id: i32) -> Verdict {
        if self.forbidden(id) {
            Verdict::Skip(Skipped::Unavailable)
        } else if self.banned(id) {
            Verdict::Skip(Skipped::Banned)
        } else if self.intent == Intent::Pick && self.taken(id) {
            Verdict::Skip(Skipped::Taken)
        } else if self.hover_counts() && self.hovered_by_ally(id) {
            Verdict::Skip(Skipped::AllyHovering)
        } else {
            Verdict::Take(id)
        }
    }

    /// What one list entry comes to. `id` is the champion its name resolves to.
    pub open spec fn weigh(self, entry: ChampionEntry, id: Option<i32>) -> Verdict {
        if !entry.active() {
            Verdict::Skip(Skipped::Disabled)
        } else if is_bravery_entry(entry) {
            if self.arena && self.intent == Intent::Pick {
                Verdict::Take(settings::BRAVERY_ID)
            } else {
                Verdict::Skip(Skipped::Unavailable)
            }
        } else {
            match id {
                None => Verdict::Skip(Skipped::Unknown),
                Some(id) => self.weigh_champion(id),
            }
        }
    }

    pub open spec fn reason(self, entry: ChampionEntry, id: Option<i32>) -> Skipped {
        match self.weigh(entry, id) {
            Verdict::Skip(reason) => reason,
            Verdict::Take(_) => Skipped::Unknown,
        }
    }

    /// The first `k` entries with the reason each was skipped for.
    pub open spec fn passed(
        self,
        list: Seq<ChampionEntry>,
        ids: Seq<Option<i32>>,
        k: nat,
    ) -> Seq<(Seq<char>, Skipped)> {
        Seq::new(k, |i: int| (list[i].name@, self.reason(list[i], ids[i])))
    }

    /// The outcome of walking the list from place `k` on: the first entry that
    /// can be taken, or that there is none.
    pub open spec fn walk(
        self,
        list: Seq<ChampionEntry>,
        ids: Seq<Option<i32>>,
        k: nat,
    ) -> Result<ChoiceView, Seq<(Seq<char>, Skipped)>>
        decreases list.len() - k,
    {
        if k >= list.len() {
            Err(self.passed(list, ids, list.len()))
        } else {
            match self.weigh(list[k as int], ids[k as int]) {
                Verdict::Take(id) => Ok(
                    ChoiceView {
                        champion_id: id,
                        name: list[k as int].name@,
                        passed_over: self.passed(list, ids, k),
                    },
                ),
                Verdict::Skip(_) => self.walk(list, ids, k + 1),
            }
        }
    }
}

pub open spec fn is_bravery_entry(entry: ChampionEntry) -> bool {
    settings::same_champion_spec(entry.name@, settings::BRAVERY_ENTRY@)
}

/// The name of the entry has to be resolved to weigh it.
pub open spec fn needs_id(entry: ChampionEntry) -> bool {
    entry.active() && !is_bravery_entry(entry)
}

#[verifier::ext_equal]
pub struct ChoiceView {
    pub champion_id: i32,
    pub name: Seq<char>,
    pub passed_over: Seq<(Seq<char>, Skipped)>,
}

pub open spec fn passed_view(passed: Seq<PassedOver>) -> Seq<(Seq<char>, Skipped)> {
    passed.map_values(|p: PassedOver| (p.name@, p.reason))
}

impl View for Choice {
    type V = ChoiceView;

    open spec fn view(&self) -> ChoiceView {
        ChoiceView {
            champion_id: self.champion_id,
            name: self.name@,
            passed_over: passed_view(self.passed_over@),
        }
    }
}

/// A choice, or the list that came to nothing, as plain values.
pub open spec fn outcome(r: Result<Choice, Exhausted>) -> Result<
    ChoiceView,
    Seq<(Seq<char>, Skipped)>,
> {
    match r {
        Ok(choice) => Ok(choice@),
        Err(exhausted) => Err(passed_view(exhausted.passed_over@)),
    }
}

/// `id` is an answer that the resolver gives for this name.
pub open spec fn resolves_to<F: Fn(&str) -> Option<i32>>(
    resolve: F,
    name: Seq<char>,
    id: Option<i32>,
) -> bool {
    exists|s: &str| s@ == name && #[trigger] call_ensures(resolve, (s,), id)
}

/// The ids are answers of the resolver to the names that need one, up to the
/// entry that is taken.
pub open spec fn answered<F: Fn(&str) -> Option<i32>>(
    resolve: F,
    list: Seq<ChampionEntry>,
    ids: Seq<Option<i32>>,
    upto: int,
) -> bool {
    &&& ids.len() == list.len()
    &&& forall|i: int|
        0 <= i < upto && needs_id(#[trigger] list[i]) ==> resolves_to(
            resolve,
            list[i].name@,
            ids[i],
        )
}

/// How many entries of the list the outcome rests on.
pub open spec fn looked_at(
    list: Seq<ChampionEntry>,
    r: Result<ChoiceView, Seq<(Seq<char>, Skipped)>>,
) -> int {
    match r {
        Ok(choice) => choice.passed_over.len() as int + 1,
        Err(_) => list.len() as int,
    }
}

/// The resolver is the function `f` of the name.
pub open spec fn computes<F: Fn(&str) -> Option<i32>>(
    resolve: F,
    f: spec_fn(Seq<char>) -> Option<i32>,
) -> bool {
    forall|s: &str, id: Option<i32>| #[trigger] call_ensures(resolve, (s,), id) ==> id == f(s@)
}

/// The ids that a function of the name gives for a list.
pub open spec fn ids_by(list: Seq<ChampionEntry>, f: spec_fn(Seq<char>) -> Option<i32>) -> Seq<
    Option<i32>,
> {
    Seq::new(list.len(), |i: int| f(list[i].name@))
}

impl Draft {
    /// The outcome rests only on the ids of entries that need one and were
    /// looked at.
    pub proof fn lemma_walk_rests_on(
        self,
        list: Seq<ChampionEntry>,
        ids: Seq<Option<i32>>,
        other: Seq<Option<i32>>,
        k: nat,
    )
        requires
            ids.len() == list.len(),
            other.len() == list.len(),
            k <= list.len(),
            forall|i: int|
                0 <= i < k ==> #[trigger] self.weigh(list[i], ids[i]) is Skip,
            forall|i: int|
                0 <= i < looked_at(list, self.walk(list, ids, k)) && needs_id(#[trigger] list[i])
                    ==> ids[i] == other[i],
        ensures
            self.walk(list, other, k) == self.walk(list, ids, k),
        decreases list.len() - k,
    {
        self.lemma_walk_passes(list, ids, k);
        assert forall|i: int| 0 <= i < k implies self.reason(list[i], ids[i]) == #[trigger] self.reason(
            list[i],
            other[i],
        ) by {
            assert(list[i] == list[i]);
        }
        if k < list.len() {
            let e = list[k as int];
            match self.weigh(e, ids[k as int]) {
                Verdict::Take(_) => {
                    assert(self.passed(list, other, k) =~= self.passed(list, ids, k));
                },
                Verdict::Skip(_) => {
                    self.lemma_walk_passes(list, ids, k + 1);
                    self.lemma_walk_rests_on(list, ids, other, k + 1);
                },
            }
        } else {
            assert(self.passed(list, other, list.len()) =~= self.passed(list, ids, list.len()));
        }
    }

    /// A walk that starts at `k` has passed at least `k` entries.
    proof fn lemma_walk_passes(self, list: Seq<ChampionEntry>, ids: Seq<Option<i32>>, k: nat)
        requires
            k <= list.len(),
        ensures
            looked_at(list, self.walk(list, ids, k)) >= k,
            k < list.len() ==> looked_at(list, self.walk(list, ids, k)) > k,
        decreases list.len() - k,
    {
        if k < list.len() {
            self.lemma_walk_passes(list, ids, k + 1);
        }
    }
}

// ── Choosing ──

fn passed_over(name: &str, reason: Skipped) -> (r: PassedOver)
    ensures
        r.name@ == name@,
        r.reason == reason,
{
    PassedOver { name: name.to_owned(), reason }
}

/// What the session says where the grid says nothing yet.
struct Fallback {
    unavailable: HashSet<i32>,
    ally_hovers: HashSet<i32>,
    allow_duplicates: bool,
    hover_blocks_ban: bool,
}

impl Fallback {
    spec fn of(self, session: Option<ChampSelect>) -> bool {
        match session {
            Some(s) => {
                &&& forall|id: i32| #[trigger]
                    self.unavailable@.contains(id) == s.off_the_table(id)
                &&& forall|id: i32| #[trigger]
                    self.ally_hovers@.contains(id) == s.hovered_by_ally(id)
                &&& self.allow_duplicates == s.allow_duplicate_picks
                &&& self.hover_blocks_ban == s.disallow_banning_teammate_hovered_champions
            },
            None => {
                &&& forall|id: i32| !(#[trigger] self.unavailable@.contains(id))
                &&& forall|id: i32| !(#[trigger] self.ally_hovers@.contains(id))
                &&& !self.allow_duplicates
                &&& !self.hover_blocks_ban
            },
        }
    }

    fn from_session(session: &Option<ChampSelect>) -> (r: Self)
        ensures
            r.of(*session),
    {
        match session {
            Some(s) => Fallback {
                unavailable: s.unavailable_champions(),
                ally_hovers: s.ally_pick_intents(),
                allow_duplicates: s.allow_duplicate_picks,
                hover_blocks_ban: s.disallow_banning_teammate_hovered_champions,
            },
            None => Fallback {
                unavailable: HashSet::new(),
                ally_hovers: HashSet::new(),
                allow_duplicates: false,
                hover_blocks_ban: false,
            },
        }
    }
}

fn lists_id(ids: &Vec<i32>, id: i32) -> (r: bool)
    ensures
        r == ids@.contains(id),
{
    let mut i: usize = 0;
    while i < ids.len()
        invariant
            i <= ids@.len(),
            forall|j: int| 0 <= j < i ==> ids@[j] != id,
        decreases ids@.len() - i,
    {
        if ids[i] == id {
            return true;
        }
        i += 1;
    }
    false
}

/// Why this champion cannot be had, if it cannot.
fn objection(
    intent: Intent,
    snapshot: &Snapshot,
    fallback: &Fallback,
    avoid_ally_hover: bool,
    arena: bool,
    id: i32,
) -> (r: Option<Skipped>)
    requires
        fallback.of(snapshot.champ_select),
    ensures
        match r {
            Some(reason) => Verdict::Skip(reason),
            None => Verdict::Take(id),
        } == (Draft { intent, snapshot: *snapshot, avoid_ally_hover, arena }).weigh_champion(id),
{
    let grid = snapshot.selection(id);
    let allowed = match intent {
        Intent::Pick => &snapshot.pickable,
        Intent::Ban => &snapshot.bannable,
    };
    if !allowed.is_empty() && !allowed.contains(&id) {
        return Some(Skipped::Unavailable);
    }
    let banned_on_grid = match grid {
        Some(g) => g.is_banned,
        None => false,
    };
    let banned_in_session = match &snapshot.champ_select {
        Some(s) => lists_id(&s.bans.my_team_bans, id) || lists_id(&s.bans.their_team_bans, id),
        None => false,
    };
    if banned_on_grid || banned_in_session {
        return Some(Skipped::Banned);
    }
    let hovered_by_ally = match grid {
        Some(g) => g.pick_intented && !g.pick_intented_by_me,
        None => fallback.ally_hovers.contains(&id),
    };
    match intent {
        Intent::Pick => {
            let taken = match grid {
                Some(g) => g.picked_by_other_or_banned && !g.selected_by_me,
                None => fallback.unavailable.contains(&id),
            };
            if taken && !fallback.allow_duplicates {
                return Some(Skipped::Taken);
            }
            if avoid_ally_hover && hovered_by_ally {
                return Some(Skipped::AllyHovering);
            }
        },
        Intent::Ban => {
            if fallback.hover_blocks_ban && hovered_by_ally {
                return Some(Skipped::AllyHovering);
            }
        },
    }
    None
}

/// Walks the list in order and takes the first champion that is actually usable.
///
/// `resolve` maps a display name to a champion id. It is asked only for entries
/// that are active and are champions.
pub fn choose_champion<F: Fn(&str) -> Option<i32>>(
    intent: Intent,
    list: &[ChampionEntry],
    snapshot: &Snapshot,
    resolve: F,
    avoid_ally_hover: bool,
    arena: bool,
) -> (r: Result<Choice, Exhausted>)
    requires
        forall|s: &str| call_requires(resolve, (s,)),
    ensures
        exists|ids: Seq<Option<i32>>| #[trigger]
            answered(resolve, list@, ids, looked_at(list@, outcome(r))) && outcome(r) == (Draft {
                intent,
                snapshot: *snapshot,
                avoid_ally_hover,
                arena,
            }).walk(list@, ids, 0),
        forall|f: spec_fn(Seq<char>) -> Option<i32>| #[trigger]
            computes(resolve, f) ==> outcome(r) == (Draft {
                intent,
                snapshot: *snapshot,
                avoid_ally_hover,
                arena,
            }).walk(list@, ids_by(list@, f), 0),
{
    let ghost draft = Draft { intent, snapshot: *snapshot, avoid_ally_hover, arena };
    let ghost mut ids: Seq<Option<i32>> = Seq::new(list@.len(), |i: int| None);
    let fallback = Fallback::from_session(&snapshot.champ_select);
    let mut passed: Vec<PassedOver> = Vec::new();
    let mut i: usize = 0;
    while i < list.len()
        invariant
            i <= list@.len(),
            draft == (Draft { intent, snapshot: *snapshot, avoid_ally_hover, arena }),
            fallback.of(snapshot.champ_select),
            forall|s: &str| call_requires(resolve, (s,)),
            answered(resolve, list@, ids, i as int),
            passed@.len() == i,
            forall|j: int|
                0 <= j < i ==> draft.weigh(#[trigger] list@[j], ids[j]) == Verdict::Skip(
                    passed@[j].reason,
                ) && passed@[j].name@ == list@[j].name@,
            draft.walk(list@, ids, 0) == draft.walk(list@, ids, i as nat),
        decreases list@.len() - i,
    {
        let entry = &list[i];
        let name = entry.name.as_str();
        let mut objection_here: Option<Skipped> = None;
        let mut champion_id: i32 = settings::BRAVERY_ID;
        let ghost before = ids;
        if !entry.is_active() {
            objection_here = Some(Skipped::Disabled);
        } else if settings::is_bravery(name) {
            if !(arena && intent == Intent::Pick) {
                objection_here = Some(Skipped::Unavailable);
            }
        } else {
            let answer = resolve(name);
            proof {
                ids = ids.update(i as int, answer);
                assert(call_ensures(resolve, (name,), answer));
                assert(resolves_to(resolve, list@[i as int].name@, answer));
                assert forall|j: int| 0 <= j < i implies draft.weigh(#[trigger] list@[j], ids[j])
                    == draft.weigh(list@[j], before[j]) by {}
                lemma_skips_lead(draft, list@, ids, i as nat);
            }
            match answer {
                None => {
                    objection_here = Some(Skipped::Unknown);
                },
                Some(id) => {
                    champion_id = id;
                    objection_here = objection(
                        intent,
                        snapshot,
                        &fallback,
                        avoid_ally_hover,
                        arena,
                        id,
                    );
                },
            }
        }
        match objection_here {
            Some(reason) => {
                passed.push(passed_over(name, reason));
            },
            None => {
                let r: Result<Choice, Exhausted> = Ok(
                    Choice { champion_id, name: entry.name.clone(), passed_over: passed },
                );
                proof {
                    assert(passed_view(passed@) =~= draft.passed(list@, ids, i as nat));
                    assert(outcome(r) == draft.walk(list@, ids, 0));
                    assert(answered(resolve, list@, ids, looked_at(list@, outcome(r))));
                    lemma_for_any_function(draft, list@, ids, resolve, r);
                }
                return r;
            },
        }
        i += 1;
    }
    let r: Result<Choice, Exhausted> = Err(Exhausted { passed_over: passed });
    proof {
        assert(passed_view(passed@) =~= draft.passed(list@, ids, list@.len()));
        lemma_for_any_function(draft, list@, ids, resolve, r);
    }
    r
}

proof fn lemma_skips_lead(draft: Draft, list: Seq<ChampionEntry>, ids: Seq<Option<i32>>, k: nat)
    requires
        k <= list.len(),
        forall|j: int| 0 <= j < k ==> draft.weigh(#[trigger] list[j], ids[j]) is Skip,
    ensures
        draft.walk(list, ids, 0) == draft.walk(list, ids, k),
    decreases k,
{
    if k > 0 {
        lemma_skips_lead(draft, list, ids, (k - 1) as nat);
        assert(draft.weigh(list[k - 1], ids[k - 1]) is Skip);
    }
}

proof fn lemma_for_any_function<F: Fn(&str) -> Option<i32>>(
    draft: Draft,
    list: Seq<ChampionEntry>,
    ids: Seq<Option<i32>>,
    resolve: F,
    r: Result<Choice, Exhausted>,
)
    requires
        outcome(r) == draft.walk(list, ids, 0),
        answered(resolve, list, ids, looked_at(list, outcome(r))),
    ensures
        forall|f: spec_fn(Seq<char>) -> Option<i32>| #[trigger]
            computes(resolve, f) ==> outcome(r) == draft.walk(list, ids_by(list, f), 0),
{
    assert forall|f: spec_fn(Seq<char>) -> Option<i32>| #[trigger]
        computes(resolve, f) implies outcome(r) == draft.walk(list, ids_by(list, f), 0) by {
        let other = ids_by(list, f);
        assert forall|i: int|
            0 <= i < looked_at(list, draft.walk(list, ids, 0)) && needs_id(
                #[trigger] list[i],
            ) implies ids[i] == other[i] by {
            draft.lemma_walk_passes(list, ids, 0);
            lemma_looked_at(draft, list, ids, 0);
            assert(resolves_to(resolve, list[i].name@, ids[i]));
        }
        draft.lemma_walk_rests_on(list, ids, other, 0);
    }
}

proof fn lemma_looked_at(draft: Draft, list: Seq<ChampionEntry>, ids: Seq<Option<i32>>, k: nat)
    requires
        k <= list.len(),
    ensures
        looked_at(list, draft.walk(list, ids, k)) <= list.len(),
    decreases list.len() - k,
{
    if k < list.len() {
        lemma_looked_at(draft, list, ids, k + 1);
    }
}

// ── When only the table stands in the way ──

/// Every candidate was rejected by the client's availability table, and by
/// nothing else.
pub open spec fn only_unavailable(passed: Seq<(Seq<char>, Skipped)>) -> bool {
    &&& passed.len() > 0
    &&& forall|i: int| 0 <= i < passed.len() ==> (#[trigger] passed[i]).1
        == Skipped::Unavailable
}

/// The first champion of the list that can be resolved at all, from place `k`
/// on.
pub open spec fn first_resolved(
    list: Seq<ChampionEntry>,
    ids: Seq<Option<i32>>,
    k: nat,
) -> Option<ChoiceView>
    decreases list.len() - k,
{
    if k >= list.len() {
        None
    } else {
        match ids[k as int] {
            Some(id) => if needs_id(list[k as int]) {
                Some(
                    ChoiceView {
                        champion_id: id,
                        name: list[k as int].name@,
                        passed_over: Seq::empty(),
                    },
                )
            } else {
                first_resolved(list, ids, k + 1)
            },
            None => first_resolved(list, ids, k + 1),
        }
    }
}

pub open spec fn optional_choice(r: Option<Choice>) -> Option<ChoiceView> {
    match r {
        Some(choice) => Some(choice@),
        None => None,
    }
}

/// Last resort when every candidate was rejected by the client's own
/// availability table and by nothing else.
///
/// The table is the one input that cannot be verified, and when it is wrong the
/// cost of trusting it is total: the action is simply never taken. A rejected
/// request costs nothing and is re-armed on the next session event. So when the
/// *only* thing standing in the way is the table, try anyway. A list whose
/// entries are banned, taken or hovered has been answered honestly and is not
/// second-guessed.
pub fn ignoring_availability<F: Fn(&str) -> Option<i32>>(
    list: &[ChampionEntry],
    exhausted: &Exhausted,
    resolve: F,
) -> (r: Option<Choice>)
    requires
        forall|s: &str| call_requires(resolve, (s,)),
    ensures
        !only_unavailable(passed_view(exhausted.passed_over@)) ==> r is None,
        only_unavailable(passed_view(exhausted.passed_over@)) ==> exists|ids: Seq<Option<i32>>, upto: int|
            #[trigger]
            answered(resolve, list@, ids, upto) && (r is None ==> upto == list@.len())
                && optional_choice(r) == first_resolved(list@, ids, 0),
        only_unavailable(passed_view(exhausted.passed_over@)) ==> forall|
            f: spec_fn(Seq<char>) -> Option<i32>,
        | #[trigger]
            computes(resolve, f) ==> optional_choice(r) == first_resolved(
                list@,
                ids_by(list@, f),
                0,
            ),
{
    let passed = &exhausted.passed_over;
    if passed.len() == 0 {
        return None;
    }
    let mut p: usize = 0;
    while p < passed.len()
        invariant
            p <= passed@.len(),
            passed@ == exhausted.passed_over@,
            forall|j: int| 0 <= j < p ==> (#[trigger] passed@[j]).reason == Skipped::Unavailable,
        decreases passed@.len() - p,
    {
        if passed[p].reason != Skipped::Unavailable {
            assert(passed_view(passed@)[p as int].1 != Skipped::Unavailable);
            return None;
        }
        p += 1;
    }
    let ghost mut ids: Seq<Option<i32>> = Seq::new(list@.len(), |i: int| None);
    let mut i: usize = 0;
    while i < list.len()
        invariant
            i <= list@.len(),
            only_unavailable(passed_view(exhausted.passed_over@)),
            forall|s: &str| call_requires(resolve, (s,)),
            answered(resolve, list@, ids, i as int),
            forall|j: int| 0 <= j < i && needs_id(#[trigger] list@[j]) ==> ids[j] is None,
            forall|j: int| 0 <= j < i ==> #[trigger] ids[j] is None,
        decreases list@.len() - i,
    {
        let entry = &list[i];
        if entry.is_active() && !settings::is_bravery(entry.name.as_str()) {
            let name = entry.name.as_str();
            let answer = resolve(name);
            proof {
                ids = ids.update(i as int, answer);
                assert(call_ensures(resolve, (name,), answer));
                assert(resolves_to(resolve, list@[i as int].name@, answer));
            }
            if let Some(id) = answer {
                let r = Some(
                    Choice { champion_id: id, name: entry.name.clone(), passed_over: Vec::new() },
                );
                proof {
                    assert(passed_view(r->0.passed_over@) =~= Seq::empty());
                    lemma_first_resolved(list@, ids, 0, i as nat);
                    assert(answered(resolve, list@, ids, i + 1));
                    lemma_resolved_for_any_function(list@, ids, resolve, i as nat);
                }
                return r;
            }
        }
        proof {
            if !needs_id(list@[i as int]) {
                ids = ids.update(i as int, None);
            }
        }
        i += 1;
    }
    proof {
        lemma_first_resolved(list@, ids, 0, list@.len());
        lemma_resolved_for_any_function(list@, ids, resolve, list@.len());
    }
    None
}

proof fn lemma_first_resolved(
    list: Seq<ChampionEntry>,
    ids: Seq<Option<i32>>,
    from: nat,
    k: nat,
)
    requires
        from <= k <= list.len(),
        forall|j: int| from <= j < k && needs_id(#[trigger] list[j]) ==> ids[j] is None,
    ensures
        first_resolved(list, ids, from) == first_resolved(list, ids, k),
    decreases k - from,
{
    if from < k {
        lemma_first_resolved(list, ids, from + 1, k);
        assert(needs_id(list[from as int]) ==> ids[from as int] is None);
    }
}

proof fn lemma_resolved_for_any_function<F: Fn(&str) -> Option<i32>>(
    list: Seq<ChampionEntry>,
    ids: Seq<Option<i32>>,
    resolve: F,
    k: nat,
)
    requires
        k <= list.len(),
        answered(resolve, list, ids, if k < list.len() { k as int + 1 } else { k as int }),
        forall|j: int| 0 <= j < k && needs_id(#[trigger] list[j]) ==> ids[j] is None,
        k < list.len() ==> needs_id(list[k as int]) && ids[k as int] is Some,
    ensures
        forall|f: spec_fn(Seq<char>) -> Option<i32>| #[trigger]
            computes(resolve, f) ==> first_resolved(list, ids_by(list, f), 0) == first_resolved(
                list,
                ids,
                0,
            ),
{
    assert forall|f: spec_fn(Seq<char>) -> Option<i32>| #[trigger]
        computes(resolve, f) implies first_resolved(list, ids_by(list, f), 0) == first_resolved(
        list,
        ids,
        0,
    ) by {
        let other = ids_by(list, f);
        assert forall|j: int| 0 <= j < k && needs_id(#[trigger] list[j]) implies other[j] is None by {
            assert(resolves_to(resolve, list[j].name@, ids[j]));
        }
        lemma_first_resolved(list, other, 0, k);
        lemma_first_resolved(list, ids, 0, k);
        if k < list.len() {
            assert(resolves_to(resolve, list[k as int].name@, ids[k as int]));
            assert(other[k as int] == ids[k as int]);
        }
    }
}

// ── For the log ──

/// One skipped candidate and why.
pub open spec fn described(p: (Seq<char>, Skipped)) -> Seq<char> {
    p.0 + " ("@ + p.1.reason_spec() + ")"@
}

/// Everything that was skipped, and why.
pub open spec fn description(passed: Seq<(Seq<char>, Skipped)>) -> Seq<char> {
    text::joined(passed.map_values(|p: (Seq<char>, Skipped)| described(p)), ", "@)
}

/// A one-line summary of what was skipped, for the log.
pub fn describe(passed_over: &[PassedOver]) -> (r: String)
    ensures
        r@ == description(passed_view(passed_over@)),
{
    let ghost all = passed_view(passed_over@).map_values(|p: (Seq<char>, Skipped)| described(p));
    let mut parts: Vec<String> = Vec::new();
    let mut i: usize = 0;
    while i < passed_over.len()
        invariant
            i <= passed_over@.len(),
            all == passed_view(passed_over@).map_values(|p: (Seq<char>, Skipped)| described(p)),
            text::texts(parts@) == all.take(i as int),
        decreases passed_over@.len() - i,
    {
        let p = &passed_over[i];
        let mut line = text::cat(p.name.as_str(), " (");
        line.append(p.reason.reason());
        line.append(")");
        let ghost before = text::texts(parts@);
        parts.push(line);
        assert(text::texts(parts@) =~= before.push(all[i as int]));
        i += 1;
        assert(all.take(i as int) =~= before.push(all[i - 1]));
    }
    assert(all.take(i as int) =~= all);
    text::join(&parts, ", ")
}

// ── What a choice guarantees ──

/// A champion that is chosen is an active entry of the list, the client allows
/// it, nobody has banned it, nobody else has it where that matters, and no
/// teammate's hover that counts is on it; the one exception is Bravery, which
/// only an Arena pick can come to.
pub proof fn law_a_choice_is_usable(
    draft: Draft,
    list: Seq<ChampionEntry>,
    ids: Seq<Option<i32>>,
    k: nat,
)
    requires
        k <= list.len(),
        draft.walk(list, ids, k) is Ok,
    ensures
        ({
            let choice = draft.walk(list, ids, k)->Ok_0;
            let at = choice.passed_over.len() as int;
            &&& k <= at < list.len()
            &&& list[at].active()
            &&& choice.name == list[at].name@
            &&& is_bravery_entry(list[at]) ==> draft.arena && draft.intent == Intent::Pick
                && choice.champion_id == settings::BRAVERY_ID
            &&& !is_bravery_entry(list[at]) ==> {
                let id = choice.champion_id;
                &&& ids[at] == Some(id)
                &&& !draft.forbidden(id)
                &&& !draft.banned(id)
                &&& draft.intent == Intent::Pick ==> !draft.taken(id)
                &&& !(draft.hover_counts() && draft.hovered_by_ally(id))
            }
        }),
    decreases list.len() - k,
{
    if k < list.len() {
        if let Verdict::Skip(_) = draft.weigh(list[k as int], ids[k as int]) {
            law_a_choice_is_usable(draft, list, ids, k + 1);
        }
    }
}

/// A longer list does not change a choice: what stands behind the entry that was
/// taken is never looked at.
pub proof fn law_later_entries_do_not_matter(
    draft: Draft,
    list: Seq<ChampionEntry>,
    ids: Seq<Option<i32>>,
    more: Seq<ChampionEntry>,
    more_ids: Seq<Option<i32>>,
    k: nat,
)
    requires
        ids.len() == list.len(),
        k <= list.len(),
        draft.walk(list, ids, k) is Ok,
    ensures
        draft.walk(list + more, ids + more_ids, k) == draft.walk(list, ids, k),
    decreases list.len() - k,
{
    if k < list.len() {
        assert((list + more)[k as int] == list[k as int]);
        assert((ids + more_ids)[k as int] == ids[k as int]);
        match draft.weigh(list[k as int], ids[k as int]) {
            Verdict::Skip(_) => {
                law_later_entries_do_not_matter(draft, list, ids, more, more_ids, k + 1);
            },
            Verdict::Take(_) => {
                assert(draft.passed(list + more, ids + more_ids, k) =~= draft.passed(list, ids, k));
            },
        }
    }
}

/// The client lets us have this champion now: its rule set allows it or is not
/// known, nobody has banned it, for a pick nobody else has it where that matters,
/// and no ally hovers it where that counts.
pub open spec fn obtainable(
    intent: Intent,
    snapshot: Snapshot,
    avoid_ally_hover: bool,
    id: i32,
) -> bool {
    let rules = if intent == Intent::Pick {
        snapshot.pickable@
    } else {
        snapshot.bannable@
    };
    let on_grid = snapshot.grid@.contains_key(id);
    let grid = snapshot.grid@[id];
    let session = snapshot.champ_select->0;
    let in_draft = snapshot.champ_select is Some;
    let banned = on_grid && grid.is_banned || in_draft && (
    session.bans.my_team_bans@.contains(id) || session.bans.their_team_bans@.contains(id));
    let locked = if on_grid {
        grid.picked_by_other_or_banned && !grid.selected_by_me
    } else {
        in_draft && id > 0 && ((exists|i: int|
            0 <= i < session.my_team@.len() && (#[trigger] session.my_team@[i]).champion_id == id
                && session.my_team@[i].cell_id != session.local_player_cell_id) || (exists|i: int|
            0 <= i < session.their_team@.len() && (#[trigger] session.their_team@[i]).champion_id
                == id && session.their_team@[i].cell_id != session.local_player_cell_id))
    };
    let hovered = if on_grid {
        grid.pick_intented && !grid.pick_intented_by_me
    } else {
        in_draft && id > 0 && exists|i: int|
            0 <= i < session.my_team@.len() && (
            #[trigger] session.my_team@[i]).champion_pick_intent == id
                && session.my_team@[i].champion_id <= 0 && session.my_team@[i].cell_id
                != session.local_player_cell_id
    };
    &&& rules == Set::<i32>::empty() || rules.contains(id)
    &&& !banned
    &&& intent == Intent::Pick && locked ==> in_draft && session.allow_duplicate_picks
    &&& intent == Intent::Pick && hovered ==> !avoid_ally_hover
    &&& intent == Intent::Ban && hovered ==> !(in_draft
        && session.disallow_banning_teammate_hovered_champions)
}

/// An entry can be used now: it is neither parked nor blank, and it is Bravery in an
/// Arena pick or a known champion that can be had.
pub open spec fn usable(
    intent: Intent,
    snapshot: Snapshot,
    avoid_ally_hover: bool,
    arena: bool,
    entry: ChampionEntry,
    id: Option<i32>,
) -> bool {
    &&& !entry.disabled
    &&& !text::blank(entry.name@)
    &&& if champions::normalized(entry.name@) == champions::normalized("Bravery"@) {
        arena && intent == Intent::Pick
    } else {
        id is Some && obtainable(intent, snapshot, avoid_ally_hover, id->0)
    }
}

/// What an entry that is used comes to: the client's own sentinel for Bravery, else
/// its champion.
pub open spec fn comes_to(entry: ChampionEntry, id: Option<i32>) -> i32 {
    if champions::normalized(entry.name@) == champions::normalized("Bravery"@) {
        (-3) as i32
    } else {
        id->0
    }
}

/// A champion is taken exactly where it can be had.
pub proof fn law_what_can_be_had_is_taken(draft: Draft, id: i32)
    ensures
        draft.weigh_champion(id) is Take <==> obtainable(
            draft.intent,
            draft.snapshot,
            draft.avoid_ally_hover,
            id,
        ),
        draft.weigh_champion(id) matches Verdict::Take(taken) ==> taken == id,
{
    assert(draft.allowed().is_empty() <==> draft.allowed() == Set::<i32>::empty()) by {
        if draft.allowed().is_empty() {
            assert(draft.allowed() =~= Set::<i32>::empty());
        }
    }
    if let Some(session) = draft.snapshot.champ_select {
        lol_state::law_what_is_off_the_table(session, id);
        if session.hovered_by_ally(id) {
            let i = choose|i: int|
                0 <= i < session.my_team@.len() && (#[trigger] session.my_team@[i]).cell_id
                    != session.local_player_cell_id && session.my_team@[i].champion_id <= 0
                    && session.my_team@[i].champion_pick_intent == id;
            assert(session.my_team@[i].champion_pick_intent == id);
        }
    }
}

/// An entry is taken exactly where it can be used, and then for what it comes to.
pub proof fn law_what_can_be_used_is_taken(draft: Draft, entry: ChampionEntry, id: Option<i32>)
    ensures
        draft.weigh(entry, id) is Take <==> usable(
            draft.intent,
            draft.snapshot,
            draft.avoid_ally_hover,
            draft.arena,
            entry,
            id,
        ),
        draft.weigh(entry, id) matches Verdict::Take(taken) ==> taken == comes_to(entry, id),
{
    if let Some(id) = id {
        law_what_can_be_had_is_taken(draft, id);
    }
}

proof fn lemma_walk_at(draft: Draft, list: Seq<ChampionEntry>, ids: Seq<Option<i32>>, k: nat)
    requires
        k <= list.len(),
    ensures
        match draft.walk(list, ids, k) {
            Ok(choice) => {
                let at = choice.passed_over.len() as int;
                &&& k <= at < list.len()
                &&& choice.passed_over == draft.passed(list, ids, at as nat)
                &&& draft.weigh(list[at], ids[at]) == Verdict::Take(choice.champion_id)
                &&& choice.name == list[at].name@
                &&& forall|j: int|
                    k <= j < at ==> draft.weigh(#[trigger] list[j], ids[j]) is Skip
            },
            Err(passed) => {
                &&& passed == draft.passed(list, ids, list.len())
                &&& forall|j: int|
                    k <= j < list.len() ==> draft.weigh(#[trigger] list[j], ids[j]) is Skip
            },
        },
    decreases list.len() - k,
{
    if k < list.len() {
        if draft.weigh(list[k as int], ids[k as int]) is Skip {
            lemma_walk_at(draft, list, ids, k + 1);
        }
    }
}

/// The choice is the first entry of the list that can be used, for what it comes to,
/// with the entries before it named one by one; there is none exactly where no
/// entry can be used.
pub proof fn law_the_choice_is_the_first_usable(
    draft: Draft,
    list: Seq<ChampionEntry>,
    ids: Seq<Option<i32>>,
)
    ensures
        ({
            let fits = |j: int|
                usable(
                    draft.intent,
                    draft.snapshot,
                    draft.avoid_ally_hover,
                    draft.arena,
                    list[j],
                    ids[j],
                );
            match draft.walk(list, ids, 0) {
                Ok(choice) => {
                    let at = choice.passed_over.len() as int;
                    &&& 0 <= at < list.len()
                    &&& fits(at)
                    &&& forall|j: int| 0 <= j < at ==> !#[trigger] fits(j)
                    &&& choice.champion_id == comes_to(list[at], ids[at])
                    &&& choice.name == list[at].name@
                    &&& forall|j: int|
                        0 <= j < at ==> (#[trigger] choice.passed_over[j]).0 == list[j].name@
                },
                Err(passed) => {
                    &&& passed.len() == list.len()
                    &&& forall|j: int| 0 <= j < list.len() ==> !#[trigger] fits(j)
                    &&& forall|j: int|
                        0 <= j < list.len() ==> (#[trigger] passed[j]).0 == list[j].name@
                },
            }
        }),
{
    lemma_walk_at(draft, list, ids, 0);
    assert forall|j: int| #![trigger list[j]]
        draft.weigh(list[j], ids[j]) is Take <==> usable(
            draft.intent,
            draft.snapshot,
            draft.avoid_ally_hover,
            draft.arena,
            list[j],
            ids[j],
        ) by {
        law_what_can_be_used_is_taken(draft, list[j], ids[j]);
    }
    if let Ok(choice) = draft.walk(list, ids, 0) {
        let at = choice.passed_over.len() as int;
        law_what_can_be_used_is_taken(draft, list[at], ids[at]);
    }
}

/// Where the first entries of a list cannot be used and the next one can, it is that
/// one that is chosen.
pub proof fn law_the_first_usable_is_chosen(
    draft: Draft,
    list: Seq<ChampionEntry>,
    ids: Seq<Option<i32>>,
    k: int,
)
    requires
        0 <= k < list.len(),
        usable(
            draft.intent,
            draft.snapshot,
            draft.avoid_ally_hover,
            draft.arena,
            list[k],
            ids[k],
        ),
        forall|j: int|
            #![trigger list[j]]
            0 <= j < k ==> !usable(
                draft.intent,
                draft.snapshot,
                draft.avoid_ally_hover,
                draft.arena,
                list[j],
                ids[j],
            ),
    ensures
        draft.walk(list, ids, 0) matches Ok(choice) && {
            &&& choice.champion_id == comes_to(list[k], ids[k])
            &&& choice.name == list[k].name@
            &&& choice.passed_over.len() == k
        },
{
    law_the_choice_is_the_first_usable(draft, list, ids);
    let fits = |j: int|
        usable(
            draft.intent,
            draft.snapshot,
            draft.avoid_ally_hover,
            draft.arena,
            list[j],
            ids[j],
        );
    assert(fits(k));
    match draft.walk(list, ids, 0) {
        Ok(choice) => {
            let at = choice.passed_over.len() as int;
            assert(fits(at));
            if at < k {
                assert(list[at] == list[at]);
            }
        },
        Err(_) => {},
    }
}

/// The reason that is given is the true one: the client's rules, a ban, somebody
/// else's lock or an ally's hover, in this order of rank.
pub proof fn law_the_reason_is_true(draft: Draft, entry: ChampionEntry, id: Option<i32>)
    ensures
        ({
            let parked = entry.disabled || text::blank(entry.name@);
            let bravery = champions::normalized(entry.name@) == champions::normalized("Bravery"@);
            let rules = if draft.intent == Intent::Pick {
                draft.snapshot.pickable@
            } else {
                draft.snapshot.bannable@
            };
            match draft.weigh(entry, id) {
                Verdict::Skip(Skipped::Disabled) => parked,
                Verdict::Skip(Skipped::Unknown) => !parked && !bravery && id is None,
                Verdict::Skip(Skipped::Unavailable) => !parked && (bravery || id is Some
                    && !rules.contains(id->0)),
                Verdict::Skip(Skipped::Banned) => !parked && id is Some && draft.banned(id->0),
                Verdict::Skip(Skipped::Taken) => !parked && id is Some && draft.intent
                    == Intent::Pick && draft.taken(id->0) && !draft.banned(id->0),
                Verdict::Skip(Skipped::AllyHovering) => !parked && id is Some
                    && draft.hovered_by_ally(id->0) && !draft.banned(id->0),
                Verdict::Take(_) => !parked,
            }
        }),
{
}

/// What is tried although the table refuses it is the first champion of the list
/// that is neither parked nor unknown.
pub proof fn law_what_is_tried_anyway(list: Seq<ChampionEntry>, ids: Seq<Option<i32>>, k: int)
    requires
        0 <= k < list.len(),
        ids[k] is Some,
        !list[k].disabled && !text::blank(list[k].name@),
        champions::normalized(list[k].name@) != champions::normalized("Bravery"@),
        forall|j: int|
            #![trigger list[j]]
            0 <= j < k ==> list[j].disabled || text::blank(list[j].name@) || champions::normalized(
                list[j].name@,
            ) == champions::normalized("Bravery"@) || ids[j] is None,
    ensures
        first_resolved(list, ids, 0) matches Some(choice) && choice.champion_id == ids[k]->0
            && choice.name == list[k].name@,
{
    lemma_first_resolved(list, ids, 0, k as nat);
}

} // verus!

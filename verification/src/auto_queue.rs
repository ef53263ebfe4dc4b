//! Starting the queue unasked, and never against the user's will.
//!
//! A verdict does not start a search at once: it arms a timer, and any change
//! before the timer fires retires it. That is what stops a member joining and
//! leaving again from firing a search, and what gives the user a moment to
//! cancel.

use crate::lol_state::{Lobby, LobbyMember, Snapshot};
use crate::queue;
use crate::settings::Settings;
use crate::text;
use crate::time;
use crate::time::Seconds;
use vstd::prelude::*;

verus! {

/// The longest wait between a verdict and the search, in milliseconds.
pub const MAX_DELAY_MILLIS: i64 = 30000;

// ── This lobby, as it is right now ──

pub open spec fn at_most() -> spec_fn(u64, u64) -> bool {
    |a: u64, b: u64| a <= b
}

/// Who is in a lobby, in ascending order.
pub open spec fn sorted_ids(ids: Seq<u64>) -> Seq<u64> {
    ids.sort_by(at_most())
}

pub open spec fn member_ids(members: Seq<LobbyMember>) -> Seq<u64> {
    members.map_values(|m: LobbyMember| m.summoner_id)
}

pub open spec fn id_texts(ids: Seq<u64>) -> Seq<Seq<char>> {
    ids.map_values(|id: u64| text::decimal(id as nat))
}

/// A lobby's party, queue and members in one text. A hand cancel holds until
/// this changes. Anything coarser either sticks forever or is cleared by the
/// very push that the cancel itself produced.
pub open spec fn fingerprint(lobby: Lobby) -> Seq<char> {
    lobby.party_id@ + ":"@ + text::decimal_int(lobby.game_config.queue_id as int) + ":["@
        + text::joined(id_texts(sorted_ids(member_ids(lobby.members@))), ", "@) + "]"@
}

pub open spec fn fingerprint_in(snapshot: Snapshot) -> Option<Seq<char>> {
    match snapshot.lobby {
        Some(lobby) => Some(fingerprint(lobby)),
        None => None,
    }
}

proof fn lemma_at_most_is_total()
    ensures
        vstd::relations::total_ordering(at_most()),
{
}

proof fn lemma_id_inserted(ids: Seq<u64>, x: u64, at: int)
    requires
        vstd::relations::sorted_by(ids, at_most()),
        0 <= at <= ids.len(),
        forall|j: int| 0 <= j < at ==> #[trigger] ids[j] <= x,
        at < ids.len() ==> ids[at] > x,
    ensures
        vstd::relations::sorted_by(ids.insert(at, x), at_most()),
        ids.insert(at, x).to_multiset() == ids.to_multiset().insert(x),
{
    broadcast use vstd::seq_lib::group_to_multiset_ensures;
    broadcast use vstd::multiset::group_multiset_axioms;

    let out = ids.insert(at, x);
    let le = at_most();
    assert forall|i: int, j: int| 0 <= i < j < out.len() implies #[trigger] le(out[i], out[j]) by {
        let a = if i < at {
            i
        } else {
            i - 1
        };
        let b = if j < at {
            j
        } else {
            j - 1
        };
        if i != at && j != at {
            assert(le(ids[a], ids[b]));
        }
        if i == at && at < ids.len() && b > at {
            assert(le(ids[at], ids[b]));
        }
    }
    assert(out.remove(at) =~= ids);
    assert(out[at] == x);
    assert(out.to_multiset().count(x) > 0);
    assert(out.to_multiset() =~= out.to_multiset().remove(x).insert(x));
}

fn sort_ids(ids: &Vec<u64>) -> (r: Vec<u64>)
    ensures
        r@ == sorted_ids(ids@),
{
    let mut out: Vec<u64> = Vec::new();
    let mut i: usize = 0;
    assert(ids@.take(0) =~= out@);
    while i < ids.len()
        invariant
            i <= ids@.len(),
            vstd::relations::sorted_by(out@, at_most()),
            out@.to_multiset() == ids@.take(i as int).to_multiset(),
        decreases ids@.len() - i,
    {
        let x: u64 = ids[i];
        let mut at: usize = 0;
        while at < out.len() && out[at] <= x
            invariant
                at <= out@.len(),
                forall|j: int| 0 <= j < at ==> #[trigger] out@[j] <= x,
            decreases out@.len() - at,
        {
            at += 1;
        }
        proof {
            lemma_id_inserted(out@, x, at as int);
            ids@.take(i as int).to_multiset_ensures();
            assert(ids@.take(i + 1) =~= ids@.take(i as int).push(x));
        }
        out.insert(at, x);
        i += 1;
    }
    proof {
        assert(ids@.take(i as int) =~= ids@);
        lemma_at_most_is_total();
        ids@.lemma_sort_by_ensures(at_most());
        vstd::seq_lib::lemma_sorted_unique(out@, sorted_ids(ids@), at_most());
    }
    out
}

/// The party, the queue and who is in the lobby, in one text.
pub fn lobby_fingerprint(lobby: &Lobby) -> (r: String)
    ensures
        r@ == fingerprint(*lobby),
{
    let mut ids: Vec<u64> = Vec::new();
    let mut i: usize = 0;
    while i < lobby.members.len()
        invariant
            i <= lobby.members@.len(),
            ids@ == member_ids(lobby.members@).take(i as int),
        decreases lobby.members@.len() - i,
    {
        ids.push(lobby.members[i].summoner_id);
        i += 1;
        assert(ids@ =~= member_ids(lobby.members@).take(i as int));
    }
    assert(member_ids(lobby.members@).take(i as int) =~= member_ids(lobby.members@));
    let sorted = sort_ids(&ids);
    let mut parts: Vec<String> = Vec::new();
    let mut k: usize = 0;
    assert(text::texts(parts@) =~= id_texts(sorted@).take(0));
    while k < sorted.len()
        invariant
            k <= sorted@.len(),
            text::texts(parts@) == id_texts(sorted@).take(k as int),
        decreases sorted@.len() - k,
    {
        let ghost before = text::texts(parts@);
        parts.push(text::write_u64(sorted[k]));
        assert(text::texts(parts@) =~= before.push(id_texts(sorted@)[k as int]));
        k += 1;
        assert(text::texts(parts@) =~= id_texts(sorted@).take(k as int));
    }
    assert(id_texts(sorted@).take(k as int) =~= id_texts(sorted@));
    let mut out = text::cat(lobby.party_id.as_str(), ":");
    out.append(text::write_i64(lobby.game_config.queue_id).as_str());
    out.append(":[");
    out.append(text::join(&parts, ", ").as_str());
    out.append("]");
    out
}

fn fingerprint_now(snapshot: &Snapshot) -> (r: Option<String>)
    ensures
        text::optional(r) == fingerprint_in(*snapshot),
{
    match &snapshot.lobby {
        Some(lobby) => Some(lobby_fingerprint(lobby)),
        None => None,
    }
}

// ── What is remembered between events ──

#[derive(Debug)]
pub struct AutoQueue {
    /// Counts the evaluations. A timer that was armed under an older one finds
    /// itself stale and does nothing.
    pub generation: u64,
    /// The last verdict, so that a change is reported once.
    pub last_gate: String,
    /// The lobby in which the user left the queue by hand.
    pub cancelled_for: Option<String>,
    /// Whether we were in the queue at the last event, so that leaving it can be
    /// told from never having been in it.
    pub was_searching: bool,
}

#[verifier::ext_equal]
pub struct AutoQueueView {
    pub generation: u64,
    pub last_gate: Seq<char>,
    pub cancelled_for: Option<Seq<char>>,
    pub was_searching: bool,
}

impl View for AutoQueue {
    type V = AutoQueueView;

    open spec fn view(&self) -> AutoQueueView {
        AutoQueueView {
            generation: self.generation,
            last_gate: self.last_gate@,
            cancelled_for: text::optional(self.cancelled_for),
            was_searching: self.was_searching,
        }
    }
}

/// A generation some evaluations later.
pub open spec fn advanced(generation: u64, evaluations: nat) -> u64 {
    ((generation + evaluations) % 0x1_0000_0000_0000_0000) as u64
}

fn advance(generation: u64) -> (r: u64)
    ensures
        r == advanced(generation, 1),
{
    if generation == u64::MAX {
        0
    } else {
        generation + 1
    }
}

/// The phases in which leaving the queue is a cancel; anything else is the match
/// starting.
pub open spec fn resting_phase(phase: Seq<char>) -> bool {
    phase == ""@ || phase == "None"@ || phase == "Lobby"@
}

/// What an evaluation comes to.
pub struct EvaluationView {
    /// A line for the user's log.
    pub line: Option<Seq<char>>,
    /// A timer to arm: the generation it belongs to, and how long it runs.
    pub timer: Option<(u64, Seconds)>,
}

impl AutoQueueView {
    /// The lobby is marked as one that the user does not want to queue in, and
    /// any pending timer is retired.
    pub open spec fn suppressed(self, snapshot: Snapshot) -> AutoQueueView {
        AutoQueueView {
            generation: advanced(self.generation, 1),
            cancelled_for: match fingerprint_in(snapshot) {
                Some(lobby) => Some(lobby),
                None => self.cancelled_for,
            },
            ..self
        }
    }

    /// A search that stopped without a match, whoever stopped it, marks the
    /// lobby.
    pub open spec fn noted(self, snapshot: Snapshot) -> AutoQueueView {
        let now = AutoQueueView { was_searching: snapshot.searching(), ..self };
        if self.was_searching && !snapshot.searching() && resting_phase(snapshot.phase@) {
            now.suppressed(snapshot)
        } else {
            now
        }
    }

    /// The user cancelled in this very lobby.
    pub open spec fn holds_off(self, snapshot: Snapshot) -> bool {
        self.cancelled_for is Some && fingerprint_in(snapshot) == self.cancelled_for
    }

    /// The mark is gone once the lobby has moved on.
    pub open spec fn checked(self, snapshot: Snapshot) -> AutoQueueView {
        if self.holds_off(snapshot) {
            self
        } else {
            AutoQueueView { cancelled_for: None, ..self }
        }
    }

    pub open spec fn gate(self, snapshot: Snapshot, settings: Settings) -> queue::GateView {
        queue::verdict(snapshot, settings, self.holds_off(snapshot))
    }

    pub open spec fn evaluated(self, snapshot: Snapshot, settings: Settings) -> AutoQueueView {
        AutoQueueView {
            generation: advanced(self.generation, 1),
            last_gate: self.gate(snapshot, settings).message(),
            ..self.checked(snapshot)
        }
    }

    pub open spec fn evaluation(self, snapshot: Snapshot, settings: Settings) -> EvaluationView {
        let gate = self.gate(snapshot, settings);
        EvaluationView {
            line: if gate.message() != self.last_gate && gate.noteworthy() {
                Some("Auto cerca: "@ + gate.message())
            } else {
                None
            },
            timer: if gate is Ready {
                Some(
                    (
                        advanced(self.generation, 1),
                        Seconds {
                            millis: time::bounded(
                                settings.auto_queue_delay_secs,
                                0,
                                MAX_DELAY_MILLIS as int,
                            ) as i64,
                        },
                    ),
                )
            } else {
                None
            },
        }
    }

    /// A timer of this generation starts the search: nobody has evaluated since,
    /// and the verdict still stands.
    pub open spec fn fires(self, generation: u64, snapshot: Snapshot, settings: Settings) -> bool {
        self.generation == generation && self.gate(snapshot, settings) is Ready
    }
}

/// What an evaluation comes to.
#[derive(Debug)]
pub struct Evaluation {
    /// A line for the user's log.
    pub line: Option<String>,
    /// A timer to arm: the generation it belongs to, and how long it runs.
    pub timer: Option<(u64, Seconds)>,
}

impl View for Evaluation {
    type V = EvaluationView;

    open spec fn view(&self) -> EvaluationView {
        EvaluationView { line: text::optional(self.line), timer: self.timer }
    }
}

impl AutoQueue {
    pub fn new() -> (r: Self)
        ensures
            r@ == (AutoQueueView {
                generation: 0,
                last_gate: Seq::empty(),
                cancelled_for: None,
                was_searching: false,
            }),
    {
        AutoQueue {
            generation: 0,
            last_gate: String::new(),
            cancelled_for: None,
            was_searching: false,
        }
    }

    /// Marks the current lobby as "the user does not want to be in the queue".
    pub fn suppress(&mut self, snapshot: &Snapshot)
        ensures
            final(self)@ == old(self)@.suppressed(*snapshot),
    {
        self.generation = advance(self.generation);
        if let Some(lobby) = fingerprint_now(snapshot) {
            self.cancelled_for = Some(lobby);
        }
    }

    /// Notices that a search ended without a match, whoever ended it.
    ///
    /// The button in the League client itself produces no signal of its own: all
    /// there is to see is a search that stopped. So the rule is written in terms
    /// of the transition: we were in the queue, we are not any more, and we did
    /// not end up in a champ select.
    pub fn note_search_state(&mut self, snapshot: &Snapshot)
        ensures
            final(self)@ == old(self)@.noted(*snapshot),
    {
        let searching = snapshot.is_searching();
        let was_searching = self.was_searching;
        self.was_searching = searching;
        if !was_searching || searching {
            return ;
        }
        let phase = snapshot.phase.as_str();
        if text::same(phase, "") || text::same(phase, "None") || text::same(phase, "Lobby") {
            self.suppress(snapshot);
        }
    }

    /// Whether auto queue is currently suppressed by a hand cancel, clearing the
    /// mark once the lobby it was set for has moved on.
    pub fn cancel_suppressed(&mut self, snapshot: &Snapshot) -> (r: bool)
        ensures
            r == old(self)@.holds_off(*snapshot),
            final(self)@ == old(self)@.checked(*snapshot),
    {
        let now = fingerprint_now(snapshot);
        let same_lobby = match (&self.cancelled_for, &now) {
            (Some(marked), Some(lobby)) => text::same(marked.as_str(), lobby.as_str()),
            _ => false,
        };
        if same_lobby {
            return true;
        }
        self.cancelled_for = None;
        false
    }

    /// Comes to a new verdict. Every evaluation retires the pending timer; if the
    /// verdict is still to go, a fresh one is to be armed.
    pub fn evaluate(&mut self, snapshot: &Snapshot, settings: &Settings) -> (r: Evaluation)
        ensures
            final(self)@ == old(self)@.evaluated(*snapshot, *settings),
            r@ == old(self)@.evaluation(*snapshot, *settings),
    {
        let cancelled = self.cancel_suppressed(snapshot);
        let gate = queue::evaluate_with(snapshot, settings, cancelled);
        self.generation = advance(self.generation);
        let described = gate.describe();
        let changed = !text::same(described.as_str(), self.last_gate.as_str());
        let line = if changed && gate.is_noteworthy() {
            Some(text::cat("Auto cerca: ", described.as_str()))
        } else {
            None
        };
        self.last_gate = described;
        let timer = if gate.is_ready() {
            Some((self.generation, time::bound(settings.auto_queue_delay_secs, MAX_DELAY_MILLIS)))
        } else {
            None
        };
        Evaluation { line, timer }
    }

    /// A timer has run out: whether the search is to be started.
    ///
    /// The lobby can have changed during the delay without producing an event,
    /// so the question is asked again rather than trusting the earlier verdict.
    pub fn timer_fired(
        &mut self,
        generation: u64,
        snapshot: &Snapshot,
        settings: &Settings,
    ) -> (r: bool)
        ensures
            r == old(self)@.fires(generation, *snapshot, *settings),
            final(self)@ == if old(self)@.generation == generation {
                old(self)@.checked(*snapshot)
            } else {
                old(self)@
            },
    {
        if self.generation != generation {
            return false;
        }
        let cancelled = self.cancel_suppressed(snapshot);
        queue::evaluate_with(snapshot, settings, cancelled).is_ready()
    }

    /// The user has changed the settings of auto queue. The verdict is reported
    /// on change, so it is forgotten, or the first one under the new settings
    /// would stay silent; and flipping the switch is the way back in after a
    /// cancel.
    pub fn settings_changed(&mut self)
        ensures
            final(self)@ == (AutoQueueView {
                last_gate: Seq::empty(),
                cancelled_for: None,
                ..old(self)@
            }),
    {
        self.last_gate = String::new();
        self.cancelled_for = None;
    }

    /// The user has pressed the start button: the clearest possible statement
    /// that they want to be in the queue, so it lifts what a cancel left.
    pub fn started_by_hand(&mut self)
        ensures
            final(self)@ == (AutoQueueView { cancelled_for: None, ..old(self)@ }),
    {
        self.cancelled_for = None;
    }

    /// The client is gone: the next verdict is reported afresh.
    pub fn forget_gate(&mut self)
        ensures
            final(self)@ == (AutoQueueView { last_gate: Seq::empty(), ..old(self)@ }),
    {
        self.last_gate = String::new();
    }
}

/// The line for the user's log once the search has been asked for.
pub fn start_line(outcome: &Result<(), String>) -> (r: String)
    ensures
        r@ == match outcome {
            Ok(_) => "Cua iniciada"@,
            Err(why) => "Error encuant: "@ + why@,
        },
{
    match outcome {
        Ok(_) => "Cua iniciada".to_owned(),
        Err(why) => text::cat("Error encuant: ", why.as_str()),
    }
}

// ── Laws ──

/// After a hand cancel, no evaluation arms a timer and no timer fires for as
/// long as the lobby stays what it was, whatever else changes.
pub proof fn law_a_cancelled_lobby_is_left_alone(
    q: AutoQueueView,
    at_cancel: Snapshot,
    later: Snapshot,
    settings: Settings,
    generation: u64,
)
    requires
        at_cancel.lobby is Some,
        fingerprint_in(later) == fingerprint_in(at_cancel),
    ensures
        q.suppressed(at_cancel).evaluation(later, settings).timer is None,
        !q.suppressed(at_cancel).fires(generation, later, settings),
        q.suppressed(at_cancel).evaluated(later, settings).cancelled_for == fingerprint_in(
            at_cancel,
        ),
{
}

/// The push that a cancel itself produces does not undo it: the search that it
/// reports as stopped is not started again in that lobby.
pub proof fn law_a_cancel_survives_its_own_push(
    q: AutoQueueView,
    at_cancel: Snapshot,
    pushed: Snapshot,
    settings: Settings,
    generation: u64,
)
    requires
        at_cancel.lobby is Some,
        fingerprint_in(pushed) == fingerprint_in(at_cancel),
    ensures
        ({
            let after = q.suppressed(at_cancel).noted(pushed);
            &&& after.evaluation(pushed, settings).timer is None
            &&& !after.evaluated(pushed, settings).fires(generation, pushed, settings)
            &&& after.evaluated(pushed, settings).cancelled_for == fingerprint_in(at_cancel)
        }),
{
}

/// A search that stops in the lobby is a cancel, whoever stopped it: it is not
/// started again in that lobby.
pub proof fn law_leaving_the_queue_is_a_cancel(
    q: AutoQueueView,
    left: Snapshot,
    later: Snapshot,
    settings: Settings,
)
    requires
        q.was_searching,
        !left.searching(),
        resting_phase(left.phase@),
        left.lobby is Some,
        fingerprint_in(later) == fingerprint_in(left),
    ensures
        q.noted(left).evaluation(later, settings).timer is None,
{
}

/// A match that was found is no cancel: leaving the queue for a draft marks
/// nothing.
pub proof fn law_a_found_match_is_no_cancel(q: AutoQueueView, snapshot: Snapshot)
    requires
        !resting_phase(snapshot.phase@),
    ensures
        q.noted(snapshot).cancelled_for == q.cancelled_for,
{
}

/// Once the lobby is another one, a cancel no longer holds.
pub proof fn law_a_cancel_ends_with_its_lobby(q: AutoQueueView, snapshot: Snapshot)
    requires
        fingerprint_in(snapshot) != q.cancelled_for,
    ensures
        !q.holds_off(snapshot),
        q.checked(snapshot).cancelled_for is None,
{
}

/// A timer never fires after anything has been evaluated since it was armed.
pub proof fn law_an_old_timer_never_fires(
    q: AutoQueueView,
    armed: u64,
    evaluations: nat,
    snapshot: Snapshot,
    settings: Settings,
)
    requires
        q.generation == advanced(armed, evaluations),
        0 < evaluations <= u64::MAX,
    ensures
        !q.fires(armed, snapshot, settings),
{
}

/// Who sits where in a lobby makes no difference to its fingerprint.
pub proof fn law_seating_does_not_matter(a: Seq<u64>, b: Seq<u64>)
    requires
        a.to_multiset() == b.to_multiset(),
    ensures
        sorted_ids(a) == sorted_ids(b),
{
    lemma_at_most_is_total();
    a.lemma_sort_by_ensures(at_most());
    b.lemma_sort_by_ensures(at_most());
    vstd::seq_lib::lemma_sorted_unique(sorted_ids(a), sorted_ids(b), at_most());
}

proof fn lemma_numbers_hold_no_marks(ids: Seq<u64>)
    ensures
        !text::joined(id_texts(ids), ", "@).contains('['),
        forall|i: int|
            0 <= i < ids.len() ==> !(#[trigger] id_texts(ids)[i]).contains(' ') && id_texts(
                ids,
            )[i].len() > 0,
    decreases ids.len(),
{
    reveal_strlit(", ");
    assert forall|i: int| 0 <= i < ids.len() implies !(#[trigger] id_texts(ids)[i]).contains(' ')
        && !id_texts(ids)[i].contains('[') && id_texts(ids)[i].len() > 0 by {
        text::law_a_number_reads_back(ids[i] as nat);
    }
    if ids.len() > 1 {
        lemma_numbers_hold_no_marks(ids.drop_last());
        let parts = id_texts(ids);
        assert(parts.drop_last() =~= id_texts(ids.drop_last()));
        let init = text::joined(parts.drop_last(), ", "@);
        let whole = text::joined(parts, ", "@);
        assert forall|k: int| 0 <= k < whole.len() implies #[trigger] whole[k] != '[' by {
            if k < init.len() {
                assert(whole[k] == init[k]);
            } else if k >= init.len() + 2 {
                assert(whole[k] == parts.last()[k - init.len() - 2]);
            }
        }
    }
}

/// Lists of ids that are written alike are the same list.
proof fn lemma_ids_are_written_apart(a: Seq<u64>, b: Seq<u64>)
    requires
        text::joined(id_texts(a), ", "@) == text::joined(id_texts(b), ", "@),
    ensures
        a == b,
    decreases a.len(),
{
    reveal_strlit(", ");
    lemma_numbers_hold_no_marks(a);
    lemma_numbers_hold_no_marks(b);
    let pa = id_texts(a);
    let pb = id_texts(b);
    if a.len() > 0 {
        text::law_a_number_reads_back(a.last() as nat);
        assert(pa.last() == text::decimal(a.last() as nat));
    }
    if b.len() > 0 {
        text::law_a_number_reads_back(b.last() as nat);
        assert(pb.last() == text::decimal(b.last() as nat));
    }
    let wa = text::joined(pa, ", "@);
    let wb = text::joined(pb, ", "@);
    if a.len() >= 2 {
        let init = text::joined(pa.drop_last(), ", "@);
        assert(wa =~= init.push(',').push(' ') + pa.last());
        assert(wa[init.len() as int + 1] == ' ');
    }
    if b.len() >= 2 {
        let init = text::joined(pb.drop_last(), ", "@);
        assert(wb =~= init.push(',').push(' ') + pb.last());
        assert(wb[init.len() as int + 1] == ' ');
    }
    if a.len() >= 2 && b.len() >= 2 {
        let ia = text::joined(pa.drop_last(), ", "@);
        let ib = text::joined(pb.drop_last(), ", "@);
        assert(pa[a.len() - 1] == pa.last());
        assert(pb[b.len() - 1] == pb.last());
        text::lemma_last_occurrence(ia.push(','), pa.last(), ib.push(','), pb.last(), ' ');
        assert(ia.push(',').drop_last() =~= ia);
        assert(ib.push(',').drop_last() =~= ib);
        assert(pa.drop_last() =~= id_texts(a.drop_last()));
        assert(pb.drop_last() =~= id_texts(b.drop_last()));
        lemma_ids_are_written_apart(a.drop_last(), b.drop_last());
        assert(a =~= a.drop_last().push(a.last()));
        assert(b =~= b.drop_last().push(b.last()));
    } else if a.len() == 1 && b.len() == 1 {
        assert(a =~= b);
    } else if a.len() == 1 && b.len() >= 2 {
        assert(pa[0].contains(' '));
    } else if b.len() == 1 && a.len() >= 2 {
        assert(pb[0].contains(' '));
    } else {
        assert(a =~= b);
    }
}

/// Two lobbies share a fingerprint exactly where they share the party, the queue
/// and the members: that is how long a hand cancel holds.
pub proof fn law_a_cancel_holds_for_one_lobby(a: Lobby, b: Lobby)
    ensures
        (fingerprint(a) == fingerprint(b)) <==> {
            &&& a.party_id@ == b.party_id@
            &&& a.game_config.queue_id == b.game_config.queue_id
            &&& member_ids(a.members@).to_multiset() == member_ids(b.members@).to_multiset()
        },
{
    reveal_strlit(":");
    reveal_strlit(":[");
    reveal_strlit("]");
    let (ia, ib) = (sorted_ids(member_ids(a.members@)), sorted_ids(member_ids(b.members@)));
    lemma_at_most_is_total();
    member_ids(a.members@).lemma_sort_by_ensures(at_most());
    member_ids(b.members@).lemma_sort_by_ensures(at_most());
    if member_ids(a.members@).to_multiset() == member_ids(b.members@).to_multiset() {
        law_seating_does_not_matter(member_ids(a.members@), member_ids(b.members@));
    }
    if fingerprint(a) == fingerprint(b) {
        let (qa, qb) = (a.game_config.queue_id as int, b.game_config.queue_id as int);
        let (ta, tb) = (text::decimal_int(qa), text::decimal_int(qb));
        let (ja, jb) = (text::joined(id_texts(ia), ", "@), text::joined(id_texts(ib), ", "@));
        let (ha, hb) = (a.party_id@.push(':') + ta, b.party_id@.push(':') + tb);
        assert(fingerprint(a) =~= ha.push(':').push('[') + ja.push(']'));
        assert(fingerprint(b) =~= hb.push(':').push('[') + jb.push(']'));
        lemma_numbers_hold_no_marks(ia);
        lemma_numbers_hold_no_marks(ib);
        assert(!ja.push(']').contains('['));
        assert(!jb.push(']').contains('['));
        text::lemma_last_occurrence(ha.push(':'), ja.push(']'), hb.push(':'), jb.push(']'), '[');
        assert(ha.push(':').drop_last() =~= ha);
        assert(hb.push(':').drop_last() =~= hb);
        assert(ja.push(']').drop_last() =~= ja);
        assert(jb.push(']').drop_last() =~= jb);
        text::law_a_number_reads_back(if qa < 0 { (-qa) as nat } else { qa as nat });
        text::law_a_number_reads_back(if qb < 0 { (-qb) as nat } else { qb as nat });
        text::lemma_last_occurrence(a.party_id@, ta, b.party_id@, tb, ':');
        text::law_integers_are_written_apart(qa, qb);
        lemma_ids_are_written_apart(ia, ib);
    }
}

/// A verdict to go arms a timer of the configured delay, cut to between nothing
/// and half a minute; any other verdict arms none. The timer fires where nothing
/// has happened since, and never under an older generation.
pub proof fn law_a_verdict_to_go_arms_a_timer(
    q: AutoQueueView,
    snapshot: Snapshot,
    settings: Settings,
)
    ensures
        ({
            let held = q.cancelled_for is Some && snapshot.lobby is Some && q.cancelled_for == Some(
                fingerprint(snapshot.lobby->0),
            );
            q.evaluation(snapshot, settings).timer is Some <==> queue::verdict(
                snapshot,
                settings,
                held,
            ) is Ready
        }),
        q.evaluation(snapshot, settings).timer matches Some((generation, delay)) ==> {
            let wanted = settings.auto_queue_delay_secs.millis;
            &&& generation == q.evaluated(snapshot, settings).generation
            &&& generation != q.generation
            &&& 0 <= wanted <= 30000 ==> delay.millis == wanted
            &&& wanted < 0 ==> delay.millis == 0
            &&& wanted > 30000 ==> delay.millis == 30000
            &&& q.evaluated(snapshot, settings).fires(generation, snapshot, settings)
            &&& !q.evaluated(snapshot, settings).fires(q.generation, snapshot, settings)
        },
{
}

/// The question is asked again when a timer runs out: it starts a search only
/// where the verdict of that moment is to go, by the lobby and the settings of
/// that moment, and nobody has cancelled there.
pub proof fn law_a_timer_asks_again(
    q: AutoQueueView,
    generation: u64,
    snapshot: Snapshot,
    settings: Settings,
)
    requires
        q.fires(generation, snapshot, settings),
    ensures
        generation == q.generation,
        queue::verdict(snapshot, settings, false) is Ready,
        snapshot.lobby is Some,
        q.cancelled_for != Some(fingerprint(snapshot.lobby->0)),
{
}

/// A verdict is reported when it changes to one that the user should know of, and
/// then once: asking again under the same circumstances stays silent.
pub proof fn law_a_verdict_is_reported_once(
    q: AutoQueueView,
    snapshot: Snapshot,
    settings: Settings,
)
    ensures
        q.evaluated(snapshot, settings).evaluation(snapshot, settings).line is None,
        q.evaluation(snapshot, settings).line is Some <==> {
            let gate = q.gate(snapshot, settings);
            &&& gate.message() != q.last_gate
            &&& gate is Penalty || gate is Restricted || gate is ClientRefuses || gate is NotLeader
        },
{
}

/// A stopped search is a cancel exactly where there was one, it is over, and the
/// player is back in the lobby or nowhere. It marks this very lobby, and whoever
/// never searched marks nothing.
pub proof fn law_what_counts_as_a_cancel(q: AutoQueueView, snapshot: Snapshot)
    requires
        snapshot.lobby is Some,
    ensures
        ({
            let after = q.noted(snapshot);
            let stopped = q.was_searching && !snapshot.searching() && (snapshot.phase@.len() == 0
                || snapshot.phase@ == "None"@ || snapshot.phase@ == "Lobby"@);
            &&& stopped ==> after.cancelled_for == Some(fingerprint(snapshot.lobby->0))
            &&& stopped ==> after.generation != q.generation
            &&& !stopped ==> after.cancelled_for == q.cancelled_for && after.generation
                == q.generation
            &&& after.was_searching == snapshot.searching()
            &&& after.last_gate == q.last_gate
        }),
{
    reveal_strlit("");
    if snapshot.phase@.len() == 0 {
        assert(snapshot.phase@ =~= ""@);
    }
}

/// Cancelling by hand marks the lobby that is open and retires the pending timer.
pub proof fn law_a_hand_cancel_marks_the_lobby(
    q: AutoQueueView,
    snapshot: Snapshot,
    settings: Settings,
)
    ensures
        snapshot.lobby matches Some(lobby) ==> q.suppressed(snapshot).cancelled_for == Some(
            fingerprint(lobby),
        ),
        !q.suppressed(snapshot).fires(q.generation, snapshot, settings),
        q.suppressed(snapshot).was_searching == q.was_searching,
{
}

} // verus!

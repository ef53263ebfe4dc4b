//! The relay: rooms of players in the same game who share their spell timers.

use crate::names;
use crate::names::NameMap;
use crate::spells::{ActiveTimer, SyncMessage};
use crate::text;
use vstd::prelude::*;

verus! {

/// How often each client is pinged, in seconds, and how long a client may stay
/// silent before it is given up.
///
/// Without this a half-open connection would hold its place in a room forever,
/// and the room would never be collected.
pub const PING_INTERVAL_SECS: u64 = 30;

pub const CLIENT_TIMEOUT_SECS: u64 = 90;

/// How often rooms without listeners are removed, in seconds.
pub const SWEEP_INTERVAL_SECS: u64 = 300;

/// Bounds on what a client may address. The indices arrive straight off the
/// wire, so without these a peer could push any number of timers into a room.
pub const MAX_ENEMIES: u8 = 5;

pub const MAX_SPELLS: u8 = 2;

/// Teleport is the longest summoner spell at 360s; this leaves room for others.
pub const MAX_COOLDOWN_SECS: u32 = 900;

// ── Timers ──

pub open spec fn real_spell(enemy_idx: u8, spell_idx: u8) -> bool {
    enemy_idx < MAX_ENEMIES && spell_idx < MAX_SPELLS
}

pub fn addresses_a_real_spell(enemy_idx: u8, spell_idx: u8) -> (r: bool)
    ensures
        r == real_spell(enemy_idx, spell_idx),
{
    enemy_idx < MAX_ENEMIES && spell_idx < MAX_SPELLS
}

/// The timer ends after `now`. One whose end does not fit in 64 bits is bogus
/// and counts as over.
pub open spec fn live(timer: ActiveTimer, now: u64) -> bool {
    now < timer.started_at + timer.cooldown_secs <= u64::MAX
}

/// Whether a timer still has time left to run at `now`, in seconds since the
/// epoch.
pub fn is_live(timer: &ActiveTimer, now: u64) -> (r: bool)
    ensures
        r == live(*timer, now),
{
    match timer.started_at.checked_add(timer.cooldown_secs as u64) {
        Some(ends_at) => ends_at > now,
        None => false,
    }
}

pub open spec fn is_for(t: ActiveTimer, enemy_idx: u8, spell_idx: u8) -> bool {
    t.enemy_idx == enemy_idx && t.spell_idx == spell_idx
}

/// The timers of every other spell, in their order.
pub open spec fn without(timers: Seq<ActiveTimer>, enemy_idx: u8, spell_idx: u8) -> Seq<
    ActiveTimer,
>
    decreases timers.len(),
{
    if timers.len() == 0 {
        timers
    } else {
        let before = without(timers.drop_last(), enemy_idx, spell_idx);
        if is_for(timers.last(), enemy_idx, spell_idx) {
            before
        } else {
            before.push(timers.last())
        }
    }
}

/// The timers that still run, in their order.
pub open spec fn still_live(timers: Seq<ActiveTimer>, now: u64) -> Seq<ActiveTimer>
    decreases timers.len(),
{
    if timers.len() == 0 {
        timers
    } else {
        let before = still_live(timers.drop_last(), now);
        if live(timers.last(), now) {
            before.push(timers.last())
        } else {
            before
        }
    }
}

/// Every timer is one that a client may start, and no spell has two.
pub open spec fn in_bounds(timers: Seq<ActiveTimer>) -> bool {
    &&& forall|i: int|
        0 <= i < timers.len() ==> real_spell(
            (#[trigger] timers[i]).enemy_idx,
            timers[i].spell_idx,
        ) && 0 < timers[i].cooldown_secs <= MAX_COOLDOWN_SECS
    &&& forall|i: int, j: int|
        0 <= i < j < timers.len() ==> !is_for(
            #[trigger] timers[i],
            (#[trigger] timers[j]).enemy_idx,
            timers[j].spell_idx,
        )
}

/// What a message makes of the timers of a room; `None` where the message is
/// refused, and neither applied nor passed on.
pub open spec fn applied(timers: Seq<ActiveTimer>, message: SyncMessage) -> Option<
    Seq<ActiveTimer>,
> {
    match message {
        SyncMessage::TimerStart { enemy_idx, spell_idx, cooldown_secs, started_at } => if !real_spell(
            enemy_idx,
            spell_idx,
        ) || cooldown_secs == 0 || cooldown_secs > MAX_COOLDOWN_SECS {
            None
        } else {
            Some(
                without(timers, enemy_idx, spell_idx).push(
                    ActiveTimer { enemy_idx, spell_idx, cooldown_secs, started_at },
                ),
            )
        },
        SyncMessage::TimerCancel { enemy_idx, spell_idx } => if !real_spell(
            enemy_idx,
            spell_idx,
        ) {
            None
        } else {
            Some(without(timers, enemy_idx, spell_idx))
        },
        _ => Some(timers),
    }
}

proof fn lemma_without(timers: Seq<ActiveTimer>, enemy_idx: u8, spell_idx: u8)
    ensures
        forall|i: int|
            0 <= i < without(timers, enemy_idx, spell_idx).len() ==> timers.contains(
                #[trigger] without(timers, enemy_idx, spell_idx)[i],
            ) && !is_for(without(timers, enemy_idx, spell_idx)[i], enemy_idx, spell_idx),
        in_bounds(timers) ==> in_bounds(without(timers, enemy_idx, spell_idx)),
    decreases timers.len(),
{
    if timers.len() > 0 {
        let shorter = timers.drop_last();
        let before = without(shorter, enemy_idx, spell_idx);
        let after = without(timers, enemy_idx, spell_idx);
        lemma_without(shorter, enemy_idx, spell_idx);
        assert forall|i: int| 0 <= i < after.len() implies timers.contains(
            #[trigger] after[i],
        ) && !is_for(after[i], enemy_idx, spell_idx) by {
            if i < before.len() {
                assert(shorter.contains(before[i]));
                let j = choose|j: int| 0 <= j < shorter.len() && shorter[j] == before[i];
                assert(timers[j] == after[i]);
            } else {
                assert(timers[timers.len() - 1] == after[i]);
            }
        }
        if in_bounds(timers) {
            lemma_prefix_in_bounds(timers);
            lemma_kept_in_bounds(timers, before, after);
        }
    }
}

proof fn lemma_prefix_in_bounds(timers: Seq<ActiveTimer>)
    requires
        timers.len() > 0,
        in_bounds(timers),
    ensures
        in_bounds(timers.drop_last()),
{
    let shorter = timers.drop_last();
    assert forall|i: int| 0 <= i < shorter.len() implies #[trigger] shorter[i] == timers[i] by {}
}

/// Keeping or dropping the last timer keeps the bounds.
proof fn lemma_kept_in_bounds(
    timers: Seq<ActiveTimer>,
    before: Seq<ActiveTimer>,
    after: Seq<ActiveTimer>,
)
    requires
        timers.len() > 0,
        in_bounds(timers),
        in_bounds(before),
        forall|i: int| 0 <= i < before.len() ==> timers.drop_last().contains(#[trigger] before[i]),
        after == before || after == before.push(timers.last()),
    ensures
        in_bounds(after),
{
    let shorter = timers.drop_last();
    assert forall|i: int, j: int| 0 <= i < j < after.len() implies !is_for(
        #[trigger] after[i],
        (#[trigger] after[j]).enemy_idx,
        after[j].spell_idx,
    ) by {
        assert(after[i] == before[i]);
        if j < before.len() {
            assert(after[j] == before[j]);
        } else {
            assert(shorter.contains(before[i]));
            let w = choose|w: int| 0 <= w < shorter.len() && shorter[w] == before[i];
            assert(timers[w] == before[i]);
            assert(timers[timers.len() - 1] == after[j]);
        }
    }
    assert forall|i: int| 0 <= i < after.len() implies real_spell(
        (#[trigger] after[i]).enemy_idx,
        after[i].spell_idx,
    ) && 0 < after[i].cooldown_secs <= MAX_COOLDOWN_SECS by {
        if i < before.len() {
            assert(after[i] == before[i]);
        } else {
            assert(timers[timers.len() - 1] == after[i]);
        }
    }
}

proof fn lemma_still_live(timers: Seq<ActiveTimer>, now: u64)
    ensures
        forall|i: int|
            0 <= i < still_live(timers, now).len() ==> timers.contains(
                #[trigger] still_live(timers, now)[i],
            ) && live(still_live(timers, now)[i], now),
        in_bounds(timers) ==> in_bounds(still_live(timers, now)),
    decreases timers.len(),
{
    if timers.len() > 0 {
        let shorter = timers.drop_last();
        let before = still_live(shorter, now);
        let after = still_live(timers, now);
        lemma_still_live(shorter, now);
        assert forall|i: int| 0 <= i < after.len() implies timers.contains(
            #[trigger] after[i],
        ) && live(after[i], now) by {
            if i < before.len() {
                assert(shorter.contains(before[i]));
                let j = choose|j: int| 0 <= j < shorter.len() && shorter[j] == before[i];
                assert(timers[j] == after[i]);
            } else {
                assert(timers[timers.len() - 1] == after[i]);
            }
        }
        if in_bounds(timers) {
            lemma_prefix_in_bounds(timers);
            lemma_kept_in_bounds(timers, before, after);
        }
    }
}

/// Whatever a client sends, a room within bounds stays within bounds.
pub proof fn law_messages_keep_the_bounds(timers: Seq<ActiveTimer>, message: SyncMessage)
    requires
        in_bounds(timers),
    ensures
        applied(timers, message) matches Some(after) ==> in_bounds(after),
{
    match message {
        SyncMessage::TimerStart { enemy_idx, spell_idx, cooldown_secs, started_at } => {
            lemma_without(timers, enemy_idx, spell_idx);
            let rest = without(timers, enemy_idx, spell_idx);
            let new = ActiveTimer { enemy_idx, spell_idx, cooldown_secs, started_at };
            let after = rest.push(new);
            if applied(timers, message) is Some {
                assert forall|i: int, j: int| 0 <= i < j < after.len() implies !is_for(
                    #[trigger] after[i],
                    (#[trigger] after[j]).enemy_idx,
                    after[j].spell_idx,
                ) by {
                    assert(after[i] == rest[i]);
                    if j < rest.len() {
                        assert(after[j] == rest[j]);
                    }
                }
                assert forall|i: int| 0 <= i < after.len() implies real_spell(
                    (#[trigger] after[i]).enemy_idx,
                    after[i].spell_idx,
                ) && 0 < after[i].cooldown_secs <= MAX_COOLDOWN_SECS by {
                    if i < rest.len() {
                        assert(after[i] == rest[i]);
                    }
                }
            }
        },
        SyncMessage::TimerCancel { enemy_idx, spell_idx } => {
            lemma_without(timers, enemy_idx, spell_idx);
        },
        _ => {},
    }
}

/// A spell's place among all that can be addressed.
pub open spec fn slot(t: ActiveTimer) -> int {
    t.enemy_idx * MAX_SPELLS + t.spell_idx
}

/// A room holds at most one timer for each of the spells that can be addressed.
pub proof fn law_a_room_is_small(timers: Seq<ActiveTimer>)
    requires
        in_bounds(timers),
    ensures
        timers.len() <= MAX_ENEMIES * MAX_SPELLS,
{
    let slots = timers.map_values(|t: ActiveTimer| slot(t));
    let all = vstd::set_lib::set_int_range(0, MAX_ENEMIES * MAX_SPELLS);
    assert(slots.no_duplicates()) by {
        assert forall|i: int, j: int| 0 <= i < slots.len() && 0 <= j < slots.len() && i
            != j implies slots[i] != slots[j] by {
            let (a, b) = if i < j {
                (i, j)
            } else {
                (j, i)
            };
            assert(!is_for(timers[a], timers[b].enemy_idx, timers[b].spell_idx));
        }
    }
    slots.unique_seq_to_set();
    vstd::set_lib::lemma_int_range(0, MAX_ENEMIES * MAX_SPELLS);
    assert(slots.to_set().subset_of(all)) by {
        assert forall|s: int| slots.to_set().contains(s) implies all.contains(s) by {
            let i = choose|i: int| 0 <= i < slots.len() && slots[i] == s;
            assert(real_spell(timers[i].enemy_idx, timers[i].spell_idx));
        }
    }
    vstd::set_lib::lemma_len_subset(slots.to_set(), all);
}

/// A timer that a message starts is there afterwards, and no older one for the
/// same spell is.
pub proof fn law_a_started_timer_replaces_the_old_one(
    timers: Seq<ActiveTimer>,
    started: ActiveTimer,
)
    requires
        real_spell(started.enemy_idx, started.spell_idx),
        0 < started.cooldown_secs <= MAX_COOLDOWN_SECS,
    ensures
        applied(
            timers,
            SyncMessage::TimerStart {
                enemy_idx: started.enemy_idx,
                spell_idx: started.spell_idx,
                cooldown_secs: started.cooldown_secs,
                started_at: started.started_at,
            },
        ) matches Some(after) && {
            &&& after.len() > 0
            &&& after.last() == started
            &&& forall|i: int|
                0 <= i < after.len() - 1 ==> !is_for(
                    #[trigger] after[i],
                    started.enemy_idx,
                    started.spell_idx,
                )
        },
{
    lemma_without(timers, started.enemy_idx, started.spell_idx);
}

// ── Rooms ──

/// One game's room: the timers that run in it, and how many clients listen.
#[derive(Debug)]
pub struct Room {
    timers: Vec<ActiveTimer>,
    listeners: u64,
}

/// A room as a plain value.
#[verifier::ext_equal]
pub struct RoomView {
    pub timers: Seq<ActiveTimer>,
    pub listeners: nat,
}

pub open spec fn one_more(n: nat) -> nat {
    if n < u64::MAX {
        n + 1
    } else {
        n
    }
}

pub open spec fn one_less(n: nat) -> nat {
    if n > 0 {
        (n - 1) as nat
    } else {
        0
    }
}

impl View for Room {
    type V = RoomView;

    closed spec fn view(&self) -> RoomView {
        RoomView { timers: self.timers@, listeners: self.listeners as nat }
    }
}

impl RoomView {
    pub open spec fn empty() -> RoomView {
        RoomView { timers: Seq::empty(), listeners: 0 }
    }

    /// A client has come in: what is over is dropped, and there is one more to
    /// listen.
    pub open spec fn entered(self, now: u64) -> RoomView {
        RoomView { timers: still_live(self.timers, now), listeners: one_more(self.listeners) }
    }
}

impl Room {
    #[verifier::type_invariant]
    spec fn bounded(self) -> bool {
        in_bounds(self.timers@)
    }

    pub fn new() -> (r: Self)
        ensures
            r@ == RoomView::empty(),
    {
        Room { timers: Vec::new(), listeners: 0 }
    }

    /// The timers of the room. There are never more than can be addressed.
    pub fn timers(&self) -> (r: Vec<ActiveTimer>)
        ensures
            r@ == self@.timers,
            in_bounds(r@),
            r@.len() <= MAX_ENEMIES * MAX_SPELLS,
    {
        proof {
            use_type_invariant(self);
            law_a_room_is_small(self.timers@);
        }
        let r = self.timers.clone();
        assert(r@ =~= self.timers@);
        r
    }

    pub fn has_listeners(&self) -> (r: bool)
        ensures
            r == (self@.listeners > 0),
    {
        self.listeners > 0
    }

    /// Lets a client in, and hands out the timers it has to know of. Expired
    /// timers are dropped from the room itself, not just from what is handed
    /// out.
    pub fn enter(&mut self, now: u64) -> (r: Vec<ActiveTimer>)
        ensures
            final(self)@ == old(self)@.entered(now),
            r@ == final(self)@.timers,
            in_bounds(r@),
            r@.len() <= MAX_ENEMIES * MAX_SPELLS,
    {
        proof {
            use_type_invariant(&*self);
            lemma_still_live(self.timers@, now);
            law_a_room_is_small(still_live(self.timers@, now));
        }
        let mut kept: Vec<ActiveTimer> = Vec::new();
        let mut i: usize = 0;
        while i < self.timers.len()
            invariant
                i <= self.timers@.len(),
                kept@ == still_live(self.timers@.take(i as int), now),
            decreases self.timers@.len() - i,
        {
            proof {
                assert(self.timers@.take(i + 1).drop_last() =~= self.timers@.take(i as int));
                assert(self.timers@.take(i + 1).last() == self.timers@[i as int]);
            }
            if is_live(&self.timers[i], now) {
                kept.push(self.timers[i]);
            }
            i += 1;
        }
        assert(self.timers@.take(i as int) =~= self.timers@);
        let handed_out = kept.clone();
        assert(handed_out@ =~= kept@);
        let listeners: u64 = self.listeners.saturating_add(1);
        *self = Room { timers: kept, listeners };
        handed_out
    }

    /// A client no longer listens.
    pub fn leave(&mut self)
        ensures
            final(self)@ == (RoomView {
                timers: old(self)@.timers,
                listeners: one_less(old(self)@.listeners),
            }),
    {
        proof {
            use_type_invariant(&*self);
        }
        self.listeners = self.listeners.saturating_sub(1);
    }

    fn timers_without(&self, enemy_idx: u8, spell_idx: u8) -> (r: Vec<ActiveTimer>)
        ensures
            r@ == without(self@.timers, enemy_idx, spell_idx),
    {
        let mut kept: Vec<ActiveTimer> = Vec::new();
        let mut i: usize = 0;
        while i < self.timers.len()
            invariant
                i <= self.timers@.len(),
                kept@ == without(self.timers@.take(i as int), enemy_idx, spell_idx),
            decreases self.timers@.len() - i,
        {
            proof {
                assert(self.timers@.take(i + 1).drop_last() =~= self.timers@.take(i as int));
                assert(self.timers@.take(i + 1).last() == self.timers@[i as int]);
            }
            let t = self.timers[i];
            if !(t.enemy_idx == enemy_idx && t.spell_idx == spell_idx) {
                kept.push(t);
            }
            i += 1;
        }
        assert(self.timers@.take(i as int) =~= self.timers@);
        kept
    }

    /// Takes a message of a client in the room; whether it is passed on to
    /// everyone there.
    pub fn receive(&mut self, message: &SyncMessage) -> (relayed: bool)
        ensures
            relayed == (applied(old(self)@.timers, *message) is Some),
            final(self)@ == match applied(old(self)@.timers, *message) {
                Some(timers) => RoomView { timers, listeners: old(self)@.listeners },
                None => old(self)@,
            },
    {
        proof {
            use_type_invariant(&*self);
            law_messages_keep_the_bounds(self.timers@, *message);
        }
        match message {
            SyncMessage::TimerStart { enemy_idx, spell_idx, cooldown_secs, started_at } => {
                if !addresses_a_real_spell(*enemy_idx, *spell_idx) || *cooldown_secs == 0
                    || *cooldown_secs > MAX_COOLDOWN_SECS {
                    return false;
                }
                let mut timers = self.timers_without(*enemy_idx, *spell_idx);
                timers.push(
                    ActiveTimer {
                        enemy_idx: *enemy_idx,
                        spell_idx: *spell_idx,
                        cooldown_secs: *cooldown_secs,
                        started_at: *started_at,
                    },
                );
                *self = Room { timers, listeners: self.listeners };
            },
            SyncMessage::TimerCancel { enemy_idx, spell_idx } => {
                if !addresses_a_real_spell(*enemy_idx, *spell_idx) {
                    return false;
                }
                let timers = self.timers_without(*enemy_idx, *spell_idx);
                *self = Room { timers, listeners: self.listeners };
            },
            _ => {},
        }
        true
    }
}

// ── The relay ──

/// What arrives from one client.
#[derive(Debug)]
pub enum Frame {
    /// A text, and the message in it if it holds one.
    Text(Option<SyncMessage>),
    /// A ping, a pong or binary data.
    Other,
    /// The connection is closed or broken.
    Closed,
    /// Nothing came for [`CLIENT_TIMEOUT_SECS`].
    Silent,
}

/// What to do for the client that a frame came from.
#[derive(Debug)]
pub enum Action {
    /// Nothing; wait for the next frame.
    Wait,
    /// Send the client the timers of the room that it has joined.
    Welcome(Vec<ActiveTimer>),
    /// Send the text on to everyone in the room.
    Broadcast,
    /// Drop the connection.
    HangUp,
}

pub enum ActionView {
    Wait,
    Welcome(Seq<ActiveTimer>),
    Broadcast,
    HangUp,
}

impl View for Action {
    type V = ActionView;

    open spec fn view(&self) -> ActionView {
        match self {
            Action::Wait => ActionView::Wait,
            Action::Welcome(timers) => ActionView::Welcome(timers@),
            Action::Broadcast => ActionView::Broadcast,
            Action::HangUp => ActionView::HangUp,
        }
    }
}

/// The rooms by game, and where one client sits: in no room yet, or in the room
/// of a game.
#[verifier::ext_equal]
pub struct Floor {
    pub rooms: Map<Seq<char>, RoomView>,
    pub seat: Option<Seq<char>>,
}

impl Floor {
    /// The room of this game; a new one where there is none yet.
    pub open spec fn room(self, game_id: Seq<char>) -> RoomView {
        if self.rooms.contains_key(game_id) {
            self.rooms[game_id]
        } else {
            RoomView::empty()
        }
    }

    /// What a frame of this client changes, and what is done for it.
    pub open spec fn after(self, frame: Frame, now: u64) -> (Floor, ActionView) {
        match self.seat {
            None => match frame {
                Frame::Closed => (self, ActionView::HangUp),
                Frame::Text(Some(SyncMessage::Join { game_id, .. })) => {
                    let room = self.room(game_id@).entered(now);
                    (
                        Floor {
                            rooms: self.rooms.insert(game_id@, room),
                            seat: Some(game_id@),
                        },
                        ActionView::Welcome(room.timers),
                    )
                },
                _ => (self, ActionView::Wait),
            },
            Some(game_id) => match frame {
                Frame::Closed => (self, ActionView::HangUp),
                Frame::Silent => (self, ActionView::HangUp),
                Frame::Text(Some(message)) => match applied(self.room(game_id).timers, message) {
                    Some(timers) => (
                        Floor {
                            rooms: self.rooms.insert(
                                game_id,
                                RoomView { timers, listeners: self.room(game_id).listeners },
                            ),
                            seat: self.seat,
                        },
                        ActionView::Broadcast,
                    ),
                    None => (self, ActionView::Wait),
                },
                _ => (self, ActionView::Wait),
            },
        }
    }
}

/// Every room, by the game it is for.
#[derive(Debug)]
pub struct Relay {
    rooms: NameMap<Room>,
}

pub open spec fn room_views(rooms: Map<Seq<char>, Room>) -> Map<Seq<char>, RoomView> {
    rooms.map_values(|r: Room| r@)
}

/// The rooms that somebody listens in.
pub open spec fn swept(rooms: Map<Seq<char>, RoomView>) -> Map<Seq<char>, RoomView> {
    rooms.restrict(Set::new(|game_id: Seq<char>| rooms.contains_key(game_id) && rooms[game_id].listeners > 0))
}

impl Relay {
    pub closed spec fn rooms(self) -> Map<Seq<char>, RoomView> {
        room_views(self.rooms@)
    }

    pub fn new() -> (r: Self)
        ensures
            r.rooms() == Map::<Seq<char>, RoomView>::empty(),
    {
        let r = Relay { rooms: NameMap::new() };
        assert(r.rooms() =~= Map::empty());
        r
    }

    fn take_room(&mut self, game_id: &str) -> (r: Room)
        ensures
            r@ == (Floor { rooms: old(self).rooms(), seat: None }).room(game_id@),
            final(self).rooms() == old(self).rooms().remove(game_id@),
    {
        let r = match self.rooms.take(game_id) {
            Some(room) => room,
            None => Room::new(),
        };
        assert(self.rooms() =~= old(self).rooms().remove(game_id@));
        r
    }

    fn put_room(&mut self, game_id: &str, room: Room)
        ensures
            final(self).rooms() == old(self).rooms().insert(game_id@, room@),
    {
        self.rooms.insert(game_id.to_owned(), room);
        assert(self.rooms() =~= old(self).rooms().insert(game_id@, room@));
    }

    /// Takes one frame of a client, whose seat is handed in and changed.
    ///
    /// Before a client has joined, anything that is not a Join is skipped rather
    /// than fatal: a client or a proxy that pings on connect has to be able to
    /// join. Joining counts the client as a listener in the same step, so that a
    /// sweep in between cannot take the room away from under it.
    pub fn receive(&mut self, seat: &mut Option<String>, frame: Frame, now: u64) -> (r: Action)
        ensures
            (
                (Floor { rooms: final(self).rooms(), seat: text::optional(*final(seat)) }),
                r@,
            ) == (Floor { rooms: old(self).rooms(), seat: text::optional(*old(seat)) }).after(
                frame,
                now,
            ),
            r@ matches ActionView::Welcome(timers) ==> in_bounds(timers) && timers.len()
                <= MAX_ENEMIES * MAX_SPELLS,
    {
        let ghost before = Floor { rooms: self.rooms(), seat: text::optional(*seat) };
        match seat {
            None => match frame {
                Frame::Closed => Action::HangUp,
                Frame::Text(Some(SyncMessage::Join { game_id, .. })) => {
                    let mut room = self.take_room(game_id.as_str());
                    let timers = room.enter(now);
                    self.put_room(game_id.as_str(), room);
                    proof {
                        assert(self.rooms() =~= before.rooms.insert(game_id@, room@));
                    }
                    *seat = Some(game_id);
                    Action::Welcome(timers)
                },
                _ => Action::Wait,
            },
            Some(game_id) => match frame {
                Frame::Closed => Action::HangUp,
                Frame::Silent => Action::HangUp,
                Frame::Text(Some(message)) => {
                    let ghost key = game_id@;
                    if !self.rooms.contains_key(game_id.as_str()) && !would_relay(&message) {
                        assert(applied(before.room(key).timers, message) is None);
                        return Action::Wait;
                    }
                    let known = self.rooms.contains_key(game_id.as_str());
                    let mut room = self.take_room(game_id.as_str());
                    let relayed = room.receive(&message);
                    if known || relayed {
                        self.put_room(game_id.as_str(), room);
                    }
                    if relayed {
                        assert(self.rooms() =~= before.rooms.insert(key, room@));
                        Action::Broadcast
                    } else {
                        assert(self.rooms() =~= before.rooms);
                        Action::Wait
                    }
                },
                _ => Action::Wait,
            },
        }
    }

    /// The client in this seat no longer listens.
    pub fn leave(&mut self, game_id: &str)
        ensures
            final(self).rooms() == if old(self).rooms().contains_key(game_id@) {
                old(self).rooms().insert(
                    game_id@,
                    RoomView {
                        timers: old(self).rooms()[game_id@].timers,
                        listeners: one_less(old(self).rooms()[game_id@].listeners),
                    },
                )
            } else {
                old(self).rooms()
            },
    {
        let ghost before = self.rooms();
        if self.rooms.contains_key(game_id) {
            let mut room = self.take_room(game_id);
            room.leave();
            self.put_room(game_id, room);
            assert(self.rooms() =~= before.insert(game_id@, room@));
        }
    }

    /// Removes every room that nobody listens in.
    pub fn sweep(&mut self)
        ensures
            final(self).rooms() == swept(old(self).rooms()),
    {
        let ghost before = self.rooms();
        let mut entries = self.rooms.take_entries();
        let ghost all = entries@;
        let mut kept: NameMap<Room> = NameMap::new();
        assert(room_views(kept@) =~= Map::empty());
        while entries.len() > 0
            invariant
                names::keys_distinct(all),
                entries@ == all.take(entries@.len() as int),
                entries@.len() <= all.len(),
                forall|game_id: Seq<char>| #[trigger]
                    kept@.contains_key(game_id) <==> exists|i: int|
                        entries@.len() <= i < all.len() && (#[trigger] all[i]).0@ == game_id
                            && all[i].1@.listeners > 0,
                forall|i: int|
                    entries@.len() <= i < all.len() && (#[trigger] all[i]).1@.listeners > 0
                        ==> kept@[all[i].0@] == all[i].1,
            decreases entries@.len(),
        {
            let ghost n = entries@.len() - 1;
            let ghost kept_before = kept@;
            if let Some((game_id, room)) = entries.pop() {
                assert(all[n] == (game_id, room));
                if room.has_listeners() {
                    proof {
                        assert forall|i: int| n < i < all.len() implies (#[trigger] all[i]).0@
                            != game_id@ by {
                            assert(all[n].0@ != all[i].0@);
                        }
                    }
                    kept.insert(game_id, room);
                }
                proof {
                    assert forall|g: Seq<char>| #[trigger]
                        kept@.contains_key(g) <==> exists|i: int|
                            n <= i < all.len() && (#[trigger] all[i]).0@ == g
                                && all[i].1@.listeners > 0 by {
                        assert(kept_before.contains_key(g) ==> kept@.contains_key(g));
                        if kept@.contains_key(g) && !kept_before.contains_key(g) {
                            assert(all[n].0@ == g);
                        }
                        if exists|i: int|
                            n <= i < all.len() && (#[trigger] all[i]).0@ == g
                                && all[i].1@.listeners > 0 {
                            let i = choose|i: int|
                                n <= i < all.len() && (#[trigger] all[i]).0@ == g
                                    && all[i].1@.listeners > 0;
                            if i > n {
                                assert(kept_before.contains_key(g));
                            }
                        }
                    }
                }
            }
        }
        proof {
            let old_map = names::as_map(all);
            assert forall|g: Seq<char>| #[trigger] old_map.contains_key(g) implies exists|i: int|
                names::holds_at(all, g, i) && old_map[g] == (#[trigger] all[i]).1 by {
                let i = choose|i: int| names::holds_at(all, g, i);
                names::lemma_entry_is_in_map(all, i);
                assert(names::holds_at(all, g, i) && old_map[g] == all[i].1);
            }
            assert forall|i: int| 0 <= i < all.len() implies old_map.contains_key(
                (#[trigger] all[i]).0@,
            ) && old_map[all[i].0@] == all[i].1 by {
                names::lemma_entry_is_in_map(all, i);
            }
            assert(before =~= room_views(old_map));
            assert(room_views(kept@) =~= swept(before));
        }
        self.rooms = kept;
    }
}

/// Whether a message would be passed on in a room without timers.
fn would_relay(message: &SyncMessage) -> (r: bool)
    ensures
        r == (applied(Seq::empty(), *message) is Some),
{
    let mut room = Room::new();
    room.receive(message)
}

/// A client that has joined keeps its room: no sweep takes it away before the
/// client leaves, so the next player of the same game finds the same timers.
pub proof fn law_a_joined_room_survives_the_sweep(floor: Floor, game_id: String, player_name: String, now: u64)
    requires
        floor.seat is None,
    ensures
        ({
            let joined = floor.after(
                Frame::Text(Some(SyncMessage::Join { game_id, player_name })),
                now,
            ).0;
            &&& joined.seat == Some(game_id@)
            &&& swept(joined.rooms).contains_key(game_id@)
            &&& swept(joined.rooms)[game_id@] == joined.rooms[game_id@]
        }),
{
}

/// A frame of one client touches no room but its own.
pub proof fn law_rooms_do_not_mix(floor: Floor, frame: Frame, now: u64, other: Seq<char>)
    requires
        floor.after(frame, now).0.seat != Some(other),
    ensures
        floor.after(frame, now).0.rooms.contains_key(other) == floor.rooms.contains_key(other),
        floor.rooms.contains_key(other) ==> floor.after(frame, now).0.rooms[other]
            == floor.rooms[other],
{
}

/// Until it has joined, whatever a client sends is waited through; only a closed
/// connection ends it.
pub proof fn law_only_a_join_seats_a_client(floor: Floor, frame: Frame, now: u64)
    requires
        floor.seat is None,
        !(frame matches Frame::Text(Some(SyncMessage::Join { .. }))),
    ensures
        floor.after(frame, now).0 == floor,
        floor.after(frame, now).1 == (if frame is Closed {
            ActionView::HangUp
        } else {
            ActionView::Wait
        }),
{
}

/// Every room of a relay holds only timers that can be addressed, one for each
/// spell, with a sane cooldown.
pub open spec fn all_in_bounds(rooms: Map<Seq<char>, RoomView>) -> bool {
    forall|game_id: Seq<char>| #[trigger]
        rooms.contains_key(game_id) ==> in_bounds(rooms[game_id].timers)
}

/// Whatever a client sends, every room stays within its bounds, and so does what
/// a newcomer is told; sweeping does not change that, and a relay without rooms
/// starts that way.
pub proof fn law_every_room_stays_in_bounds(floor: Floor, frame: Frame, now: u64)
    requires
        all_in_bounds(floor.rooms),
    ensures
        all_in_bounds(floor.after(frame, now).0.rooms),
        floor.after(frame, now).1 matches ActionView::Welcome(timers) ==> in_bounds(timers),
        all_in_bounds(swept(floor.rooms)),
        all_in_bounds(Map::<Seq<char>, RoomView>::empty()),
{
    if let Frame::Text(Some(message)) = frame {
        match floor.seat {
            None => {
                if let SyncMessage::Join { game_id, .. } = message {
                    lemma_still_live(floor.room(game_id@).timers, now);
                }
            },
            Some(game_id) => {
                law_messages_keep_the_bounds(floor.room(game_id).timers, message);
            },
        }
    }
}

/// Whoever joins while a timer runs is told of it.
pub proof fn law_a_newcomer_is_told_of_running_timers(
    floor: Floor,
    started: ActiveTimer,
    now: u64,
    game_id: String,
    player_name: String,
    later: u64,
)
    requires
        floor.seat == Some(game_id@),
        real_spell(started.enemy_idx, started.spell_idx),
        0 < started.cooldown_secs <= MAX_COOLDOWN_SECS,
        live(started, later),
    ensures
        ({
            let told = floor.after(
                Frame::Text(
                    Some(
                        SyncMessage::TimerStart {
                            enemy_idx: started.enemy_idx,
                            spell_idx: started.spell_idx,
                            cooldown_secs: started.cooldown_secs,
                            started_at: started.started_at,
                        },
                    ),
                ),
                now,
            ).0;
            let newcomer = Floor { rooms: told.rooms, seat: None };
            newcomer.after(
                Frame::Text(Some(SyncMessage::Join { game_id, player_name })),
                later,
            ).1 matches ActionView::Welcome(timers) && timers.contains(started)
        }),
{
    let before = without(floor.room(game_id@).timers, started.enemy_idx, started.spell_idx);
    let timers = before.push(started);
    let kept = still_live(timers, later);
    assert(timers.drop_last() =~= before);
    assert(kept[kept.len() - 1] == started);
}

proof fn lemma_without_filters(timers: Seq<ActiveTimer>, enemy_idx: u8, spell_idx: u8)
    ensures
        without(timers, enemy_idx, spell_idx) == timers.filter(
            |t: ActiveTimer| !(t.enemy_idx == enemy_idx && t.spell_idx == spell_idx),
        ),
    decreases timers.len(),
{
    reveal(Seq::filter);
    if timers.len() > 0 {
        lemma_without_filters(timers.drop_last(), enemy_idx, spell_idx);
    } else {
        assert(without(timers, enemy_idx, spell_idx) =~= timers.filter(
            |t: ActiveTimer| !(t.enemy_idx == enemy_idx && t.spell_idx == spell_idx),
        ));
    }
}

proof fn lemma_still_live_filters(timers: Seq<ActiveTimer>, now: u64)
    ensures
        still_live(timers, now) == timers.filter(
            |t: ActiveTimer| now < t.started_at + t.cooldown_secs <= u64::MAX,
        ),
    decreases timers.len(),
{
    reveal(Seq::filter);
    if timers.len() > 0 {
        lemma_still_live_filters(timers.drop_last(), now);
    } else {
        assert(still_live(timers, now) =~= timers.filter(
            |t: ActiveTimer| now < t.started_at + t.cooldown_secs <= u64::MAX,
        ));
    }
}

/// A message on one spell leaves every other spell's timer as it is and in its
/// order. A cancel leaves exactly those; a start leaves those and, behind them,
/// the new timer.
pub proof fn law_other_spells_are_left_alone(
    timers: Seq<ActiveTimer>,
    enemy_idx: u8,
    spell_idx: u8,
    cooldown_secs: u32,
    started_at: u64,
)
    requires
        enemy_idx < 5,
        spell_idx < 2,
        0 < cooldown_secs <= 900,
    ensures
        ({
            let others = timers.filter(
                |t: ActiveTimer| !(t.enemy_idx == enemy_idx && t.spell_idx == spell_idx),
            );
            &&& applied(timers, SyncMessage::TimerCancel { enemy_idx, spell_idx }) == Some(others)
            &&& applied(
                timers,
                SyncMessage::TimerStart { enemy_idx, spell_idx, cooldown_secs, started_at },
            ) == Some(
                others.push(ActiveTimer { enemy_idx, spell_idx, cooldown_secs, started_at }),
            )
        }),
{
    lemma_without_filters(timers, enemy_idx, spell_idx);
}

/// The timer of any other spell survives a start and a cancel, and no timer of the
/// cancelled spell does.
pub proof fn law_a_cancel_takes_one_spell(
    timers: Seq<ActiveTimer>,
    enemy_idx: u8,
    spell_idx: u8,
    t: ActiveTimer,
)
    requires
        enemy_idx < 5,
        spell_idx < 2,
    ensures
        applied(timers, SyncMessage::TimerCancel { enemy_idx, spell_idx }) matches Some(after) && (
        after.contains(t) <==> timers.contains(t) && (t.enemy_idx != enemy_idx || t.spell_idx
            != spell_idx)),
{
    broadcast use vstd::seq_lib::group_filter_ensures;

    lemma_without_filters(timers, enemy_idx, spell_idx);
    let keep = |t: ActiveTimer| !(t.enemy_idx == enemy_idx && t.spell_idx == spell_idx);
    let after = timers.filter(keep);
    if timers.contains(t) && keep(t) {
        let i = choose|i: int| 0 <= i < timers.len() && timers[i] == t;
        assert(after.contains(timers[i]));
    }
    if after.contains(t) {
        let i = choose|i: int| 0 <= i < after.len() && after[i] == t;
        assert(keep(after[i]));
        timers.lemma_filter_contains_rev(keep, t);
    }
}

/// A message is refused exactly where it addresses a spell that there is none of,
/// or starts a timer without a sane cooldown. Whatever is not about a timer
/// changes none.
pub proof fn law_what_is_refused(timers: Seq<ActiveTimer>, message: SyncMessage)
    ensures
        applied(timers, message) is None <==> match message {
            SyncMessage::TimerStart { enemy_idx, spell_idx, cooldown_secs, .. } => enemy_idx >= 5
                || spell_idx >= 2 || cooldown_secs == 0 || cooldown_secs > 900,
            SyncMessage::TimerCancel { enemy_idx, spell_idx } => enemy_idx >= 5 || spell_idx >= 2,
            _ => false,
        },
        message is Join || message is RoomState ==> applied(timers, message) == Some(timers),
{
}

/// Starting a timer and cancelling it again leaves the room as if it had been
/// cancelled alone.
pub proof fn law_a_cancel_undoes_a_start(
    timers: Seq<ActiveTimer>,
    enemy_idx: u8,
    spell_idx: u8,
    cooldown_secs: u32,
    started_at: u64,
)
    requires
        enemy_idx < 5,
        spell_idx < 2,
        0 < cooldown_secs <= 900,
    ensures
        ({
            let start = SyncMessage::TimerStart { enemy_idx, spell_idx, cooldown_secs, started_at };
            let cancel = SyncMessage::TimerCancel { enemy_idx, spell_idx };
            applied(applied(timers, start)->0, cancel) == applied(timers, cancel)
        }),
{
    let rest = without(timers, enemy_idx, spell_idx);
    let new = ActiveTimer { enemy_idx, spell_idx, cooldown_secs, started_at };
    lemma_without(timers, enemy_idx, spell_idx);
    lemma_without_keeps(rest, enemy_idx, spell_idx);
    assert(rest.push(new).drop_last() =~= rest);
}

proof fn lemma_without_keeps(timers: Seq<ActiveTimer>, enemy_idx: u8, spell_idx: u8)
    requires
        forall|i: int|
            0 <= i < timers.len() ==> !is_for(#[trigger] timers[i], enemy_idx, spell_idx),
    ensures
        without(timers, enemy_idx, spell_idx) == timers,
    decreases timers.len(),
{
    if timers.len() > 0 {
        let shorter = timers.drop_last();
        assert forall|i: int| 0 <= i < shorter.len() implies !is_for(
            #[trigger] shorter[i],
            enemy_idx,
            spell_idx,
        ) by {
            assert(shorter[i] == timers[i]);
        }
        lemma_without_keeps(shorter, enemy_idx, spell_idx);
        assert(!is_for(timers[timers.len() - 1], enemy_idx, spell_idx));
        assert(shorter.push(timers.last()) =~= timers);
    }
}

/// Whoever joins is seated in the room of their game, is told of exactly the
/// timers there that still run, in their order, and counts as one more listener.
pub proof fn law_what_a_join_does(
    floor: Floor,
    game_id: String,
    player_name: String,
    now: u64,
)
    requires
        floor.seat is None,
    ensures
        ({
            let (joined, action) = floor.after(
                Frame::Text(Some(SyncMessage::Join { game_id, player_name })),
                now,
            );
            let running = if floor.rooms.contains_key(game_id@) {
                floor.rooms[game_id@].timers.filter(
                    |t: ActiveTimer| now < t.started_at + t.cooldown_secs <= u64::MAX,
                )
            } else {
                Seq::empty()
            };
            let listeners = if floor.rooms.contains_key(game_id@) {
                floor.rooms[game_id@].listeners
            } else {
                0
            };
            &&& action == ActionView::Welcome(running)
            &&& joined.seat == Some(game_id@)
            &&& joined.rooms.contains_key(game_id@)
            &&& joined.rooms[game_id@].timers == running
            &&& listeners < u64::MAX ==> joined.rooms[game_id@].listeners == listeners + 1
        }),
{
    lemma_still_live_filters(floor.room(game_id@).timers, now);
    if !floor.rooms.contains_key(game_id@) {
        assert(still_live(Seq::empty(), now) =~= Seq::empty());
    }
}

/// A seated client's message on a timer is broadcast to its room and changes the
/// room's timers as the message says; a refused one is neither kept nor passed
/// on. A client that closes or stays silent is hung up on, and the rooms stay as
/// they are.
pub proof fn law_what_a_seated_client_does(floor: Floor, frame: Frame, now: u64)
    requires
        floor.seat is Some,
    ensures
        ({
            let game_id = floor.seat->0;
            let (after, action) = floor.after(frame, now);
            &&& after.seat == floor.seat
            &&& frame is Closed || frame is Silent <==> action is HangUp
            &&& action is Broadcast <==> (frame matches Frame::Text(Some(message)) && applied(
                floor.room(game_id).timers,
                message,
            ) is Some)
            &&& action is Broadcast ==> after.room(game_id).listeners == floor.room(
                game_id,
            ).listeners && Some(after.room(game_id).timers) == applied(
                floor.room(game_id).timers,
                frame->Text_0->0,
            )
            &&& !(action is Broadcast) ==> after == floor
            &&& !(action is Welcome)
        }),
{
}

/// A sweep takes exactly the rooms that nobody listens in, and changes none of the
/// others.
pub proof fn law_a_sweep_takes_empty_rooms(rooms: Map<Seq<char>, RoomView>, game_id: Seq<char>)
    ensures
        swept(rooms).contains_key(game_id) <==> rooms.contains_key(game_id)
            && rooms[game_id].listeners != 0,
        swept(rooms).contains_key(game_id) ==> swept(rooms)[game_id] == rooms[game_id],
{
}

/// Coming in and leaving again leaves as many listeners as before.
pub proof fn law_leaving_undoes_coming_in(room: RoomView, now: u64)
    requires
        room.listeners < u64::MAX,
    ensures
        one_less(room.entered(now).listeners) == room.listeners,
        room.entered(now).listeners == room.listeners + 1,
{
}

} // verus!

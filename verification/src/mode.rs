//! Which queue we are in, and what that means for the user interface.

use crate::lcu::QueueModeInfo;
use crate::lol_state::{ChampSelect, Snapshot};
use crate::queues;
use crate::queues::QueueTable;
use crate::text;
use vstd::prelude::*;

verus! {

/// A queue mode as a plain value.
pub struct ModeView {
    pub game_mode: Seq<char>,
    pub queue_id: i64,
    pub map_id: i64,
}

pub open spec fn mode_view(q: Option<QueueModeInfo>) -> Option<ModeView> {
    match q {
        Some(q) => Some(
            ModeView { game_mode: q.game_mode@, queue_id: q.queue_id, map_id: q.map_id },
        ),
        None => None,
    }
}

pub open spec fn game_mode_of(q: Option<QueueModeInfo>) -> Option<Seq<char>> {
    match q {
        Some(q) => Some(q.game_mode@),
        None => None,
    }
}

/// The phases of a draft or a game, in which a missing lobby and session are
/// transient.
pub open spec fn playing_phase(phase: Seq<char>) -> bool {
    phase == "ChampSelect"@ || phase == "InProgress"@ || phase == "GameStart"@ || phase
        == "Reconnect"@
}

/// The queue we are in, in order of authority: the lobby, the session's queue
/// through the client's own table, and the last known mode while a draft or a
/// game is on.
pub open spec fn mode_now(
    snapshot: Snapshot,
    table: QueueTable,
    current: Option<ModeView>,
) -> Option<ModeView> {
    if snapshot.lobby matches Some(lobby) && lobby.game_config.game_mode@.len() > 0 {
        let lobby = snapshot.lobby->0;
        Some(
            ModeView {
                game_mode: lobby.game_config.game_mode@,
                queue_id: lobby.game_config.queue_id,
                map_id: match table.lookup(lobby.game_config.queue_id) {
                    Some(info) => info.map_id,
                    None => 0,
                },
            },
        )
    } else {
        match snapshot.champ_select {
            Some(session) => if session.queue_id > 0 && table.lookup(session.queue_id) is Some {
                Some(
                    ModeView {
                        game_mode: table.lookup(session.queue_id)->0.game_mode,
                        queue_id: session.queue_id,
                        map_id: table.lookup(session.queue_id)->0.map_id,
                    },
                )
            } else {
                current
            },
            None => if playing_phase(snapshot.phase@) {
                current
            } else {
                None
            },
        }
    }
}

fn copy_mode(q: &Option<QueueModeInfo>) -> (r: Option<QueueModeInfo>)
    ensures
        mode_view(r) == mode_view(*q),
{
    match q {
        Some(q) => Some(
            QueueModeInfo {
                game_mode: q.game_mode.clone(),
                queue_id: q.queue_id,
                map_id: q.map_id,
            },
        ),
        None => None,
    }
}

/// Works out which queue we are actually in.
///
/// The client **deletes the lobby the moment champ select starts**, so from then
/// on the session's queue id is the only identifier left. Where the table does
/// not know it, the last known mode is held rather than falling back to
/// Summoner's Rift: picking from the wrong per-mode list is worse than picking
/// from a stale one.
pub fn resolve_queue_mode(
    snapshot: &Snapshot,
    table: &QueueTable,
    current: &Option<QueueModeInfo>,
) -> (r: Option<QueueModeInfo>)
    ensures
        mode_view(r) == mode_now(*snapshot, *table, mode_view(*current)),
{
    if let Some(lobby) = &snapshot.lobby {
        if !lobby.game_config.game_mode.as_str().is_empty() {
            let map_id: i64 = match table.get(lobby.game_config.queue_id) {
                Some(info) => info.map_id,
                None => 0,
            };
            return Some(
                QueueModeInfo {
                    game_mode: lobby.game_config.game_mode.clone(),
                    queue_id: lobby.game_config.queue_id,
                    map_id,
                },
            );
        }
    }
    if let Some(session) = &snapshot.champ_select {
        if session.queue_id > 0 {
            if let Some(info) = table.get(session.queue_id) {
                return Some(
                    QueueModeInfo {
                        game_mode: info.game_mode.clone(),
                        queue_id: session.queue_id,
                        map_id: info.map_id,
                    },
                );
            }
        }
        return copy_mode(current);
    }
    let phase = snapshot.phase.as_str();
    if text::same(phase, "ChampSelect") || text::same(phase, "InProgress") || text::same(
        phase,
        "GameStart",
    ) || text::same(phase, "Reconnect") {
        return copy_mode(current);
    }
    None
}

/// The mode is another one: the map alone does not count.
pub open spec fn mode_differs(a: Option<ModeView>, b: Option<ModeView>) -> bool {
    match (a, b) {
        (None, None) => false,
        (Some(a), Some(b)) => a.game_mode != b.game_mode || a.queue_id != b.queue_id,
        _ => true,
    }
}

/// Recomputes the mode; whether it actually changed, and so has to be shown.
pub fn refresh_queue_mode(
    current: &mut Option<QueueModeInfo>,
    snapshot: &Snapshot,
    table: &QueueTable,
) -> (changed: bool)
    ensures
        ({
            let before = mode_view(*old(current));
            let now = mode_now(*snapshot, *table, before);
            &&& changed == mode_differs(before, now)
            &&& mode_view(*final(current)) == if changed {
                now
            } else {
                before
            }
        }),
{
    let resolved = resolve_queue_mode(snapshot, table, current);
    let changed = match (&*current, &resolved) {
        (None, None) => false,
        (Some(a), Some(b)) => !text::same(a.game_mode.as_str(), b.game_mode.as_str())
            || a.queue_id != b.queue_id,
        _ => true,
    };
    if changed {
        *current = resolved;
    }
    changed
}

/// What the user interface is told about the mode.
#[derive(Debug)]
pub struct QueueModePayload {
    pub game_mode: String,
    pub queue_id: i64,
    pub map_id: i64,
    /// The client's own name for the queue.
    pub display_name: String,
}

pub struct QueueModePayloadView {
    pub game_mode: Seq<char>,
    pub queue_id: i64,
    pub map_id: i64,
    pub display_name: Seq<char>,
}

impl View for QueueModePayload {
    type V = QueueModePayloadView;

    open spec fn view(&self) -> QueueModePayloadView {
        QueueModePayloadView {
            game_mode: self.game_mode@,
            queue_id: self.queue_id,
            map_id: self.map_id,
            display_name: self.display_name@,
        }
    }
}

pub open spec fn mode_payload(q: Option<ModeView>, table: QueueTable) -> Option<
    QueueModePayloadView,
> {
    match q {
        Some(q) => Some(
            QueueModePayloadView {
                game_mode: q.game_mode,
                queue_id: q.queue_id,
                map_id: q.map_id,
                display_name: table.label_spec(q.queue_id, q.game_mode),
            },
        ),
        None => None,
    }
}

pub open spec fn payload_view(p: Option<QueueModePayload>) -> Option<QueueModePayloadView> {
    match p {
        Some(p) => Some(p@),
        None => None,
    }
}

pub fn build_queue_mode_payload(info: &Option<QueueModeInfo>, table: &QueueTable) -> (r: Option<
    QueueModePayload,
>)
    ensures
        payload_view(r) == mode_payload(mode_view(*info), *table),
{
    match info {
        Some(q) => Some(
            QueueModePayload {
                game_mode: q.game_mode.clone(),
                queue_id: q.queue_id,
                map_id: q.map_id,
                display_name: table.label(q.queue_id, q.game_mode.as_str()),
            },
        ),
        None => None,
    }
}

// ── What the user interface can show ──

pub open spec fn assigns_lanes(snapshot: Snapshot) -> bool {
    match snapshot.lobby {
        Some(lobby) => lobby.game_config.show_position_selector,
        None => match snapshot.champ_select {
            Some(session) => session.my_role().len() > 0,
            None => true,
        },
    }
}

/// Whether this queue assigns lanes at all.
///
/// ARAM, Arena, URF and blind pick don't, so per-role lists are meaningless
/// there. The lobby's own flag is the authority; in a draft with no lobby left
/// the assignment itself settles it. With nothing open at all the user is
/// configuring, so every role is shown.
pub fn has_positions(snapshot: &Snapshot) -> (r: bool)
    ensures
        r == assigns_lanes(*snapshot),
{
    if let Some(lobby) = &snapshot.lobby {
        return lobby.game_config.show_position_selector;
    }
    if let Some(session) = &snapshot.champ_select {
        return !session.assigned_position().is_empty();
    }
    true
}

/// A position that the user asked for in the lobby; `lowered` is the lowercased
/// preference.
pub open spec fn wanted_position(lowered: Seq<char>) -> Seq<char> {
    if lowered == "unselected"@ || lowered == "fill"@ {
        ""@
    } else {
        lowered
    }
}

pub fn position_wanted(lowered: &str) -> (r: String)
    ensures
        r@ == wanted_position(lowered@),
{
    if text::same(lowered, "unselected") || text::same(lowered, "fill") {
        "".to_owned()
    } else {
        lowered.to_owned()
    }
}

/// The mode-shaped facts that decide what is shown.
#[derive(Debug)]
pub struct ModeContext {
    pub has_positions: bool,
    pub assigned_position: String,
    /// What the user asked for in the lobby, before champ select has assigned
    /// anything.
    pub lobby_position: String,
    /// ARAM-family queues have no pick or ban phase at all.
    pub has_champ_select: bool,
    pub phase: String,
}

pub struct ModeContextView {
    pub has_positions: bool,
    pub assigned_position: Seq<char>,
    pub lobby_position: Seq<char>,
    pub has_champ_select: bool,
    pub phase: Seq<char>,
}

impl View for ModeContext {
    type V = ModeContextView;

    open spec fn view(&self) -> ModeContextView {
        ModeContextView {
            has_positions: self.has_positions,
            assigned_position: self.assigned_position@,
            lobby_position: self.lobby_position@,
            has_champ_select: self.has_champ_select,
            phase: self.phase@,
        }
    }
}

/// Whether a queue has picks and bans; one that is not known counts as one that
/// has, because hiding them on a guess would make them unreachable.
pub open spec fn may_draft(table: QueueTable, queue_id: i64) -> bool {
    match table.lookup(queue_id) {
        Some(info) => queues::drafts(info.game_mode, info.map_id),
        None => true,
    }
}

pub open spec fn context_of(
    snapshot: Snapshot,
    current: Option<ModeView>,
    table: QueueTable,
) -> ModeContextView {
    ModeContextView {
        has_positions: assigns_lanes(snapshot),
        assigned_position: match snapshot.champ_select {
            Some(session) => session.my_role(),
            None => ""@,
        },
        lobby_position: match snapshot.lobby {
            Some(lobby) => wanted_position(
                text::lowercase(lobby.local_member.first_position_preference@),
            ),
            None => ""@,
        },
        has_champ_select: may_draft(
            table,
            match current {
                Some(q) => q.queue_id,
                None => 0,
            },
        ),
        phase: snapshot.phase@,
    }
}

pub fn mode_context(
    snapshot: &Snapshot,
    current: &Option<QueueModeInfo>,
    table: &QueueTable,
) -> (r: ModeContext)
    ensures
        r@ == context_of(*snapshot, mode_view(*current), *table),
{
    let assigned_position = match &snapshot.champ_select {
        Some(session) => session.assigned_position().to_owned(),
        None => "".to_owned(),
    };
    let lobby_position = match &snapshot.lobby {
        Some(lobby) => position_wanted(
            lobby.local_member.first_position_preference.as_str().to_lowercase().as_str(),
        ),
        None => "".to_owned(),
    };
    let queue_id: i64 = match current {
        Some(q) => q.queue_id,
        None => 0,
    };
    let has_champ_select = match table.get(queue_id) {
        Some(info) => info.has_champ_select(),
        None => true,
    };
    ModeContext {
        has_positions: has_positions(snapshot),
        assigned_position,
        lobby_position,
        has_champ_select,
        phase: snapshot.phase.clone(),
    }
}

/// Whether my role is another one than before; the session re-emits on every
/// hover and every timer tick.
pub fn role_changed(before: &Option<ChampSelect>, now: &ChampSelect) -> (r: bool)
    ensures
        r == (match *before {
            Some(before) => before.my_role() != now.my_role(),
            None => true,
        }),
{
    match before {
        Some(before) => !text::same(before.assigned_position(), now.assigned_position()),
        None => true,
    }
}

// ── Laws ──

/// When champ select starts and the client deletes the lobby, the mode is not
/// lost: it is found again through the queue id, and held where that is not
/// known.
pub proof fn law_the_mode_survives_the_lobby(
    snapshot: Snapshot,
    table: QueueTable,
    current: ModeView,
)
    requires
        snapshot.lobby is None,
        snapshot.champ_select is Some || playing_phase(snapshot.phase@),
    ensures
        mode_now(snapshot, table, Some(current)) is Some,
        snapshot.champ_select is Some && snapshot.champ_select->0.queue_id == current.queue_id && (
        table.lookup(current.queue_id) is Some ==> table.lookup(current.queue_id)->0.game_mode
            == current.game_mode) ==> !mode_differs(
            Some(current),
            mode_now(snapshot, table, Some(current)),
        ),
{
}

/// A lobby that names its mode decides, whatever was known before.
pub proof fn law_the_lobby_decides(
    snapshot: Snapshot,
    table: QueueTable,
    a: Option<ModeView>,
    b: Option<ModeView>,
)
    requires
        snapshot.lobby matches Some(lobby) && lobby.game_config.game_mode@.len() > 0,
    ensures
        mode_now(snapshot, table, a) == mode_now(snapshot, table, b),
{
}

/// A lobby that names its mode is the mode we are in, with the map that the client's
/// table gives its queue. Without one, a draft's queue is looked up in that table;
/// where it says nothing, or the draft or the game is on without a session, the
/// mode of before is held; and otherwise there is none.
pub proof fn law_which_mode_we_are_in(
    snapshot: Snapshot,
    table: QueueTable,
    current: Option<ModeView>,
)
    ensures
        ({
            let now = mode_now(snapshot, table, current);
            let named = snapshot.lobby is Some && snapshot.lobby->0.game_config.game_mode@
                != Seq::<char>::empty();
            let session = snapshot.champ_select->0;
            let drafting = snapshot.champ_select is Some;
            &&& named ==> now is Some && now->0.game_mode
                == snapshot.lobby->0.game_config.game_mode@ && now->0.queue_id
                == snapshot.lobby->0.game_config.queue_id
            &&& named ==> (table.lookup(snapshot.lobby->0.game_config.queue_id) matches Some(info)
                ==> now->0.map_id == info.map_id)
            &&& !named && drafting && session.queue_id > 0 ==> (table.lookup(
                session.queue_id,
            ) matches Some(info) ==> now is Some && now->0.game_mode == info.game_mode
                && now->0.map_id == info.map_id && now->0.queue_id == session.queue_id)
            &&& !named && drafting && (session.queue_id <= 0 || table.lookup(session.queue_id)
                is None) ==> now == current
            &&& !named && !drafting && (snapshot.phase@ == "ChampSelect"@ || snapshot.phase@
                == "InProgress"@ || snapshot.phase@ == "GameStart"@ || snapshot.phase@
                == "Reconnect"@) ==> now == current
            &&& !named && !drafting && snapshot.phase@ != "ChampSelect"@ && snapshot.phase@
                != "InProgress"@ && snapshot.phase@ != "GameStart"@ && snapshot.phase@
                != "Reconnect"@ ==> now is None
        }),
{
    if let Some(lobby) = snapshot.lobby {
        if lobby.game_config.game_mode@.len() == 0 {
            assert(lobby.game_config.game_mode@ =~= Seq::<char>::empty());
        }
    }
}

/// A mode is shown again exactly where its name or its queue is another one.
pub proof fn law_when_a_mode_is_another_one(a: ModeView, b: ModeView)
    ensures
        !mode_differs(None, None),
        mode_differs(Some(a), None) && mode_differs(None, Some(a)),
        mode_differs(Some(a), Some(b)) <==> !(a.game_mode == b.game_mode && a.queue_id
            == b.queue_id),
        mode_differs(Some(a), Some(b)) == mode_differs(Some(b), Some(a)),
{
}

/// Lanes are shown where the lobby has a lane picker, else where the draft has given
/// me one, and to whoever is only configuring. The wish that is shown is mine, and
/// no wish is none.
pub proof fn law_what_the_mode_shows(
    snapshot: Snapshot,
    current: Option<ModeView>,
    table: QueueTable,
)
    ensures
        ({
            let shown = context_of(snapshot, current, table);
            &&& snapshot.lobby matches Some(lobby) ==> shown.has_positions
                == lobby.game_config.show_position_selector
            &&& snapshot.lobby is None ==> (snapshot.champ_select matches Some(session)
                ==> shown.has_positions == (session.my_role() != Seq::<char>::empty()))
            &&& snapshot.lobby is None && snapshot.champ_select is None ==> shown.has_positions
            &&& shown.phase == snapshot.phase@
            &&& snapshot.champ_select matches Some(session) ==> shown.assigned_position
                == session.my_role()
            &&& snapshot.lobby matches Some(lobby) ==> {
                let wish = text::lowercase(lobby.local_member.first_position_preference@);
                &&& wish != "unselected"@ && wish != "fill"@ ==> shown.lobby_position == wish
                &&& wish == "unselected"@ || wish == "fill"@ ==> shown.lobby_position.len() == 0
            }
            &&& current matches Some(q) ==> (table.lookup(q.queue_id) is None
                ==> shown.has_champ_select)
            &&& current matches Some(q) ==> (table.lookup(q.queue_id) matches Some(info)
                ==> shown.has_champ_select == queues::drafts(info.game_mode, info.map_id))
        }),
{
    reveal_strlit("");
    if let Some(session) = snapshot.champ_select {
        if session.my_role().len() == 0 {
            assert(session.my_role() =~= Seq::<char>::empty());
        }
    }
}

} // verus!

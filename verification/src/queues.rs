//! The client's own queue table.
//!
//! Game-mode codenames rotate constantly and every seasonal variant gets a queue
//! id of its own. Asking the client means the app is never more out of date than
//! the client it is attached to. It matters because the client **deletes the
//! lobby** when champ select starts: from then on the queue id is the only thing
//! that identifies the game.

use crate::text;
use std::collections::HashMap;
use vstd::prelude::*;

verus! {

broadcast use vstd::std_specs::hash::group_hash_axioms;

/// Howling Abyss. Every ARAM-family queue lives here, and none of them has a
/// pick or a ban phase.
pub const HOWLING_ABYSS: i64 = 12;

/// One row of the client's table.
#[derive(Debug, Default)]
pub struct RawQueue {
    pub id: i64,
    pub game_mode: String,
    pub map_id: i64,
    /// Sometimes empty, hence the fallbacks.
    pub name: String,
    pub short_name: String,
    pub description: String,
}

#[derive(Debug, Default)]
pub struct QueueInfo {
    pub game_mode: String,
    pub map_id: i64,
    /// What the client calls it, in the client's own language.
    pub name: String,
}

pub struct QueueView {
    pub game_mode: Seq<char>,
    pub map_id: i64,
    pub name: Seq<char>,
}

impl View for QueueInfo {
    type V = QueueView;

    open spec fn view(&self) -> QueueView {
        QueueView { game_mode: self.game_mode@, map_id: self.map_id, name: self.name@ }
    }
}

impl Clone for QueueInfo {
    fn clone(&self) -> (r: Self)
        ensures
            r == *self,
    {
        QueueInfo {
            game_mode: self.game_mode.clone(),
            map_id: self.map_id,
            name: self.name.clone(),
        }
    }
}

/// Whether a queue on this map and in this mode has picks and bans at all.
pub open spec fn drafts(game_mode: Seq<char>, map_id: i64) -> bool {
    &&& map_id != HOWLING_ABYSS
    &&& game_mode != "STRAWBERRY"@
    &&& game_mode != "TFT"@
    &&& !"TUTORIAL"@.is_prefix_of(game_mode)
}

impl QueueInfo {
    /// Whether this queue has a champion select with picks and bans at all.
    ///
    /// Keyed on the map rather than the mode name: map ids are stable across
    /// patches, mode codenames are not. Swarm, Teamfight Tactics and the
    /// tutorials have no champion select in any sense.
    pub fn has_champ_select(&self) -> (r: bool)
        ensures
            r == drafts(self.game_mode@, self.map_id),
    {
        if self.map_id == HOWLING_ABYSS {
            return false;
        }
        let mode = self.game_mode.as_str();
        !(text::same(mode, "STRAWBERRY") || text::same(mode, "TFT")) && !text::starts_with(
            mode,
            "TUTORIAL",
        )
    }
}

/// The name to show: the first of these that says anything.
pub open spec fn shown_name(q: RawQueue) -> Seq<char> {
    if q.name@.len() > 0 {
        q.name@
    } else if q.short_name@.len() > 0 {
        q.short_name@
    } else if q.description@.len() > 0 {
        q.description@
    } else {
        q.game_mode@
    }
}

pub fn display_name(q: &RawQueue) -> (r: String)
    ensures
        r@ == shown_name(*q),
{
    if !q.name.as_str().is_empty() {
        q.name.clone()
    } else if !q.short_name.as_str().is_empty() {
        q.short_name.clone()
    } else if !q.description.as_str().is_empty() {
        q.description.clone()
    } else {
        q.game_mode.clone()
    }
}

/// The table that these rows make. A row without an id or a mode is left out; a
/// later one wins.
pub open spec fn table_of(rows: Seq<RawQueue>) -> Map<i64, QueueView>
    decreases rows.len(),
{
    if rows.len() == 0 {
        Map::empty()
    } else {
        let before = table_of(rows.drop_last());
        let q = rows.last();
        if q.id <= 0 || q.game_mode@.len() == 0 {
            before
        } else {
            before.insert(
                q.id,
                QueueView { game_mode: q.game_mode@, map_id: q.map_id, name: shown_name(q) },
            )
        }
    }
}

pub open spec fn queue_views(m: Map<i64, QueueInfo>) -> Map<i64, QueueView> {
    m.map_values(|q: QueueInfo| q@)
}

/// Last resort, for the seconds before the table loads.
pub open spec fn fallback_text(game_mode: Seq<char>) -> Seq<char> {
    if game_mode == "CLASSIC"@ {
        "Summoner's Rift"@
    } else if game_mode == "ARAM"@ {
        "ARAM"@
    } else if game_mode == "CHERRY"@ {
        "Arena"@
    } else if game_mode == "URF"@ {
        "URF"@
    } else if game_mode == "STRAWBERRY"@ {
        "Swarm"@
    } else if game_mode == ""@ {
        "Desconegut"@
    } else {
        game_mode
    }
}

/// Last resort, for the seconds before the table loads. Deliberately short:
/// anything longer would be a hand-written queue table again.
pub fn fallback_label(game_mode: &str) -> (r: String)
    ensures
        r@ == fallback_text(game_mode@),
{
    let label = if text::same(game_mode, "CLASSIC") {
        "Summoner's Rift"
    } else if text::same(game_mode, "ARAM") {
        "ARAM"
    } else if text::same(game_mode, "CHERRY") {
        "Arena"
    } else if text::same(game_mode, "URF") {
        "URF"
    } else if text::same(game_mode, "STRAWBERRY") {
        "Swarm"
    } else if text::same(game_mode, "") {
        "Desconegut"
    } else {
        game_mode
    };
    label.to_owned()
}

#[derive(Debug, Default)]
pub struct QueueTable {
    by_id: HashMap<i64, QueueInfo>,
}

pub open spec fn optional_queue(q: Option<&QueueInfo>) -> Option<QueueView> {
    match q {
        Some(q) => Some(q@),
        None => None,
    }
}

impl QueueTable {
    pub closed spec fn queues(self) -> Map<i64, QueueView> {
        queue_views(self.by_id@)
    }

    pub open spec fn lookup(self, queue_id: i64) -> Option<QueueView> {
        if self.queues().contains_key(queue_id) {
            Some(self.queues()[queue_id])
        } else {
            None
        }
    }

    pub fn new() -> (r: Self)
        ensures
            r.queues() == Map::<i64, QueueView>::empty(),
    {
        let r = QueueTable { by_id: HashMap::new() };
        assert(r.queues() =~= Map::empty());
        r
    }

    /// Replaces the table by the one that these rows make.
    pub fn fill(&mut self, rows: &Vec<RawQueue>)
        ensures
            final(self).queues() == table_of(rows@),
    {
        let mut by_id: HashMap<i64, QueueInfo> = HashMap::new();
        let mut i: usize = 0;
        assert(queue_views(by_id@) =~= Map::empty());
        while i < rows.len()
            invariant
                i <= rows@.len(),
                queue_views(by_id@) == table_of(rows@.take(i as int)),
            decreases rows@.len() - i,
        {
            let q = &rows[i];
            proof {
                assert(rows@.take(i + 1).drop_last() =~= rows@.take(i as int));
                assert(rows@.take(i + 1).last() == *q);
            }
            if !(q.id <= 0 || q.game_mode.as_str().is_empty()) {
                let ghost before = queue_views(by_id@);
                let info = QueueInfo {
                    game_mode: q.game_mode.clone(),
                    map_id: q.map_id,
                    name: display_name(q),
                };
                let ghost view = info@;
                by_id.insert(q.id, info);
                assert(queue_views(by_id@) =~= before.insert(q.id, view));
            }
            i += 1;
        }
        assert(rows@.take(i as int) =~= rows@);
        self.by_id = by_id;
    }

    pub fn get(&self, queue_id: i64) -> (r: Option<&QueueInfo>)
        ensures
            optional_queue(r) == self.lookup(queue_id),
    {
        self.by_id.get(&queue_id)
    }

    pub open spec fn label_spec(self, queue_id: i64, game_mode: Seq<char>) -> Seq<char> {
        match self.lookup(queue_id) {
            Some(info) => info.name,
            None => fallback_text(game_mode),
        }
    }

    /// The display name for a queue, or the mode's own name when the table has
    /// not loaded or does not know it.
    pub fn label(&self, queue_id: i64, game_mode: &str) -> (r: String)
        ensures
            r@ == self.label_spec(queue_id, game_mode@),
    {
        match self.get(queue_id) {
            Some(info) => info.name.clone(),
            None => fallback_label(game_mode),
        }
    }
}

/// No queue on the Howling Abyss has a pick or a ban phase, whatever its mode is
/// called this month.
pub proof fn law_the_howling_abyss_never_drafts(game_mode: Seq<char>)
    ensures
        !drafts(game_mode, HOWLING_ABYSS),
{
}

/// Every queue has picks and bans but those on the Howling Abyss, Swarm, Teamfight
/// Tactics and the tutorials.
pub proof fn law_which_queues_draft(game_mode: Seq<char>, map_id: i64)
    ensures
        drafts(game_mode, map_id) <==> !(map_id == 12 || game_mode == "STRAWBERRY"@ || game_mode
            == "TFT"@ || "TUTORIAL"@.is_prefix_of(game_mode)),
{
}

/// A queue is known by the last row of its id that names a mode, with that row's mode
/// and map; rows without an id or a mode say nothing.
pub proof fn law_a_queue_is_known_by_its_row(rows: Seq<RawQueue>, i: int)
    requires
        0 <= i < rows.len(),
        rows[i].id > 0,
        rows[i].game_mode@.len() > 0,
        forall|j: int|
            i < j < rows.len() ==> (#[trigger] rows[j]).id != rows[i].id || rows[j].game_mode@.len()
                == 0,
    ensures
        table_of(rows).contains_key(rows[i].id),
        table_of(rows)[rows[i].id].game_mode == rows[i].game_mode@,
        table_of(rows)[rows[i].id].map_id == rows[i].map_id,
        rows[i].name@.len() > 0 ==> table_of(rows)[rows[i].id].name == rows[i].name@,
        rows[i].name@.len() == 0 && rows[i].short_name@.len() > 0 ==> table_of(
            rows,
        )[rows[i].id].name == rows[i].short_name@,
    decreases rows.len(),
{
    if i < rows.len() - 1 {
        let shorter = rows.drop_last();
        assert(shorter[i] == rows[i]);
        assert forall|j: int| i < j < shorter.len() implies (#[trigger] shorter[j]).id
            != shorter[i].id || shorter[j].game_mode@.len() == 0 by {
            assert(shorter[j] == rows[j]);
        }
        law_a_queue_is_known_by_its_row(shorter, i);
        assert(rows[rows.len() - 1].id != rows[i].id || rows[rows.len() - 1].game_mode@.len()
            == 0);
    }
}

/// A queue that no row names is not known.
pub proof fn law_no_queue_is_invented(rows: Seq<RawQueue>, id: i64)
    requires
        table_of(rows).contains_key(id),
    ensures
        id > 0,
        exists|i: int| 0 <= i < rows.len() && (#[trigger] rows[i]).id == id,
    decreases rows.len(),
{
    if rows.len() > 0 {
        let shorter = rows.drop_last();
        if rows.last().id == id && id > 0 {
            assert(rows[rows.len() - 1].id == id);
        } else {
            law_no_queue_is_invented(shorter, id);
            let w = choose|i: int| 0 <= i < shorter.len() && (#[trigger] shorter[i]).id == id;
            assert(rows[w].id == id);
        }
    }
}

/// A queue goes by the client's own name for it wherever the table knows it.
pub proof fn law_a_queue_goes_by_its_name(table: QueueTable, queue_id: i64, game_mode: Seq<char>)
    ensures
        table.lookup(queue_id) matches Some(info) ==> table.label_spec(queue_id, game_mode)
            == info.name,
        table.lookup(queue_id) is None ==> table.label_spec(queue_id, game_mode) == fallback_text(
            game_mode,
        ),
{
}

} // verus!

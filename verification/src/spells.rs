//! Summoner spells, and the messages that players exchange about them.

use vstd::prelude::*;

verus! {

/// Summoner spell static data.
#[derive(Clone, Copy, Debug)]
pub struct SpellInfo {
    pub id: i32,
    pub name: &'static str,
    pub base_cooldown: u32,
    pub icon_key: &'static str,
}

/// Cosmic Insight rune: takes a flat amount off every summoner spell cooldown.
pub const COSMIC_INSIGHT_ID: i32 = 8347;

pub const COSMIC_INSIGHT_REDUCTION: u32 = 18;

/// Unsealed Spellbook keystone.
pub const UNSEALED_SPELLBOOK_ID: i32 = 8360;

/// The cooldown of a spell that is not known.
pub const UNKNOWN_COOLDOWN: u32 = 300;

/// A spell as a plain value.
pub struct SpellView {
    pub id: i32,
    pub name: Seq<char>,
    pub base_cooldown: u32,
    pub icon_key: Seq<char>,
}

impl View for SpellInfo {
    type V = SpellView;

    open spec fn view(&self) -> SpellView {
        SpellView {
            id: self.id,
            name: self.name@,
            base_cooldown: self.base_cooldown,
            icon_key: self.icon_key@,
        }
    }
}

pub open spec fn spell(
    id: i32,
    name: Seq<char>,
    base_cooldown: u32,
    icon_key: Seq<char>,
) -> SpellView {
    SpellView { id, name, base_cooldown, icon_key }
}

/// Every summoner spell that is known without asking anyone.
pub open spec fn spell_table() -> Seq<SpellView> {
    seq![
        spell(4, "Flash"@, 300, "summoner_flash"@),
        spell(7, "Heal"@, 240, "summoner_heal"@),
        spell(6, "Ghost"@, 210, "summoner_haste"@),
        spell(21, "Barrier"@, 180, "summoner_barrier"@),
        spell(3, "Exhaust"@, 210, "summoner_exhaust"@),
        spell(14, "Ignite"@, 180, "summoner_dot"@),
        spell(1, "Cleanse"@, 210, "summoner_boost"@),
        spell(12, "Teleport"@, 360, "summoner_teleport"@),
        spell(11, "Smite"@, 90, "summoner_smite"@),
        spell(32, "Mark"@, 80, "summoner_snowball"@),
    ]
}

pub open spec fn spell_views(spells: Seq<SpellInfo>) -> Seq<SpellView> {
    spells.map_values(|s: SpellInfo| s@)
}

fn info(id: i32, name: &'static str, base_cooldown: u32, icon_key: &'static str) -> (r: SpellInfo)
    ensures
        r@ == spell(id, name@, base_cooldown, icon_key@),
{
    SpellInfo { id, name, base_cooldown, icon_key }
}

/// Every summoner spell that is known without asking anyone.
pub fn spells() -> (r: Vec<SpellInfo>)
    ensures
        spell_views(r@) == spell_table(),
{
    let mut out: Vec<SpellInfo> = Vec::new();
    out.push(info(4, "Flash", 300, "summoner_flash"));
    out.push(info(7, "Heal", 240, "summoner_heal"));
    out.push(info(6, "Ghost", 210, "summoner_haste"));
    out.push(info(21, "Barrier", 180, "summoner_barrier"));
    out.push(info(3, "Exhaust", 210, "summoner_exhaust"));
    out.push(info(14, "Ignite", 180, "summoner_dot"));
    out.push(info(1, "Cleanse", 210, "summoner_boost"));
    out.push(info(12, "Teleport", 360, "summoner_teleport"));
    out.push(info(11, "Smite", 90, "summoner_smite"));
    out.push(info(32, "Mark", 80, "summoner_snowball"));
    assert(spell_views(out@) =~= spell_table());
    out
}

/// The first spell of a table with this id.
pub open spec fn spell_with_id(table: Seq<SpellView>, id: i32) -> Option<SpellView>
    decreases table.len(),
{
    if table.len() == 0 {
        None
    } else if table[0].id == id {
        Some(table[0])
    } else {
        spell_with_id(table.drop_first(), id)
    }
}

pub open spec fn optional_spell(s: Option<SpellInfo>) -> Option<SpellView> {
    match s {
        Some(s) => Some(s@),
        None => None,
    }
}

pub fn spell_by_id(id: i32) -> (r: Option<SpellInfo>)
    ensures
        optional_spell(r) == spell_with_id(spell_table(), id),
{
    let all = spells();
    let ghost table = spell_table();
    let mut i: usize = 0;
    assert(table.skip(0) =~= table);
    while i < all.len()
        invariant
            i <= all@.len(),
            table == spell_table(),
            table == spell_views(all@),
            spell_with_id(table, id) == spell_with_id(table.skip(i as int), id),
        decreases all@.len() - i,
    {
        assert(table.skip(i as int)[0] == all@[i as int]@);
        assert(table.skip(i as int).drop_first() =~= table.skip(i + 1));
        if all[i].id == id {
            return Some(all[i]);
        }
        i += 1;
    }
    None
}

/// A cooldown with or without Cosmic Insight; never below zero.
pub open spec fn reduced(base: u32, has_cosmic_insight: bool) -> u32 {
    if !has_cosmic_insight {
        base
    } else if base >= COSMIC_INSIGHT_REDUCTION {
        (base - COSMIC_INSIGHT_REDUCTION) as u32
    } else {
        0
    }
}

pub fn reduce(base: u32, has_cosmic_insight: bool) -> (r: u32)
    ensures
        r == reduced(base, has_cosmic_insight),
{
    if has_cosmic_insight {
        base.saturating_sub(COSMIC_INSIGHT_REDUCTION)
    } else {
        base
    }
}

/// The base cooldown of a spell, or the one of an unknown spell.
pub open spec fn base_cooldown_of(s: Option<SpellView>) -> u32 {
    match s {
        Some(s) => s.base_cooldown,
        None => UNKNOWN_COOLDOWN,
    }
}

pub fn spell_cooldown(spell_id: i32, has_cosmic_insight: bool) -> (r: u32)
    ensures
        r == reduced(
            base_cooldown_of(spell_with_id(spell_table(), spell_id)),
            has_cosmic_insight,
        ),
{
    let base: u32 = match spell_by_id(spell_id) {
        Some(s) => s.base_cooldown,
        None => UNKNOWN_COOLDOWN,
    };
    reduce(base, has_cosmic_insight)
}

// ── Sync protocol messages ──

#[derive(Clone, Copy, PartialEq, Eq, Debug, Structural)]
pub struct ActiveTimer {
    pub enemy_idx: u8,
    pub spell_idx: u8,
    pub cooldown_secs: u32,
    /// Seconds since the epoch, by the clock of whoever started it.
    pub started_at: u64,
}

#[derive(Debug)]
pub enum SyncMessage {
    /// Client joins a room
    Join { game_id: String, player_name: String },
    /// A summoner spell timer was started
    TimerStart { enemy_idx: u8, spell_idx: u8, cooldown_secs: u32, started_at: u64 },
    /// A summoner spell timer was cancelled
    TimerCancel { enemy_idx: u8, spell_idx: u8 },
    /// Server sends current room state on join
    RoomState { timers: Vec<ActiveTimer> },
}

// ── Laws ──

/// Cosmic Insight takes eighteen seconds off every cooldown that has as many, and
/// all of a shorter one; without it a cooldown is what it is.
pub proof fn law_cosmic_insight_takes_a_flat_amount(base: u32)
    ensures
        reduced(base, false) == base,
        base >= 18 ==> reduced(base, true) == base - 18,
        base < 18 ==> reduced(base, true) == 0,
{
}

proof fn lemma_spell_with_id(table: Seq<SpellView>, id: i32, i: int)
    requires
        0 <= i < table.len(),
        table[i].id == id,
        forall|j: int| 0 <= j < i ==> (#[trigger] table[j]).id != id,
    ensures
        spell_with_id(table, id) == Some(table[i]),
    decreases table.len(),
{
    if i > 0 {
        let rest = table.drop_first();
        assert(table[0].id != id);
        assert forall|j: int| 0 <= j < i - 1 implies (#[trigger] rest[j]).id != id by {
            assert(rest[j] == table[j + 1]);
        }
        lemma_spell_with_id(rest, id, i - 1);
    }
}

/// Every spell of the table is found by its id, and its cooldown is its own.
pub proof fn law_a_spell_is_found_by_its_id(i: int, has_cosmic_insight: bool)
    requires
        0 <= i < spell_table().len(),
    ensures
        spell_with_id(spell_table(), spell_table()[i].id) == Some(spell_table()[i]),
        base_cooldown_of(spell_with_id(spell_table(), spell_table()[i].id))
            == spell_table()[i].base_cooldown,
{
    lemma_spell_with_id(spell_table(), spell_table()[i].id, i);
}

} // verus!

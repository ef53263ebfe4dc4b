//! The enemies on the overlay: who they play, and which summoner spells they
//! brought.

use crate::champions;
use crate::json;
use crate::json::Json;
use crate::spells;
use crate::text;
use std::collections::HashMap;
use vstd::prelude::*;

verus! {

broadcast use vstd::std_specs::hash::group_hash_axioms;

/// Where the published game data lies.
pub const CD_BASE: &'static str =
    "https://raw.communitydragon.org/latest/plugins/rcp-be-lol-game-data/global/default/";

/// How an icon's path starts in the published game data.
pub const ICON_PREFIX: &'static str = "/lol-game-data/assets/";

#[derive(Debug)]
pub struct EnemyData {
    pub champion_id: i32,
    pub champion_name: String,
    pub spell1_id: i32,
    pub spell2_id: i32,
    pub spell1_name: String,
    pub spell2_name: String,
    pub spell1_icon: String,
    pub spell2_icon: String,
    pub spell1_cooldown: u32,
    pub spell2_cooldown: u32,
    pub has_cosmic_insight: bool,
    pub has_unsealed_spellbook: bool,
}

/// An enemy as a plain value.
pub struct EnemyView {
    pub champion_id: i32,
    pub champion_name: Seq<char>,
    pub spell1_id: i32,
    pub spell2_id: i32,
    pub spell1_name: Seq<char>,
    pub spell2_name: Seq<char>,
    pub spell1_icon: Seq<char>,
    pub spell2_icon: Seq<char>,
    pub spell1_cooldown: u32,
    pub spell2_cooldown: u32,
    pub has_cosmic_insight: bool,
    pub has_unsealed_spellbook: bool,
}

impl View for EnemyData {
    type V = EnemyView;

    open spec fn view(&self) -> EnemyView {
        EnemyView {
            champion_id: self.champion_id,
            champion_name: self.champion_name@,
            spell1_id: self.spell1_id,
            spell2_id: self.spell2_id,
            spell1_name: self.spell1_name@,
            spell2_name: self.spell2_name@,
            spell1_icon: self.spell1_icon@,
            spell2_icon: self.spell2_icon@,
            spell1_cooldown: self.spell1_cooldown,
            spell2_cooldown: self.spell2_cooldown,
            has_cosmic_insight: self.has_cosmic_insight,
            has_unsealed_spellbook: self.has_unsealed_spellbook,
        }
    }
}

pub open spec fn enemy_views(enemies: Seq<EnemyData>) -> Seq<EnemyView> {
    enemies.map_values(|e: EnemyData| e@)
}

// ── The spell registry ──

/// What is known of one summoner spell.
#[derive(Debug)]
pub struct SpellData {
    pub name: String,
    pub icon_url: String,
    pub cooldown: u32,
}

pub struct SpellDataView {
    pub name: Seq<char>,
    pub icon_url: Seq<char>,
    pub cooldown: u32,
}

impl View for SpellData {
    type V = SpellDataView;

    open spec fn view(&self) -> SpellDataView {
        SpellDataView { name: self.name@, icon_url: self.icon_url@, cooldown: self.cooldown }
    }
}

/// All summoner spells, by id.
#[derive(Debug, Default)]
pub struct SpellRegistry {
    by_id: HashMap<i32, SpellData>,
}

pub open spec fn spell_data_views(m: Map<i32, SpellData>) -> Map<i32, SpellDataView> {
    m.map_values(|s: SpellData| s@)
}

/// The address of a spell's icon; `lowered` is the lowercased rest of its path
/// behind [`ICON_PREFIX`].
pub open spec fn icon_address_spec(lowered: Seq<char>) -> Seq<char> {
    CD_BASE@ + lowered
}

pub fn icon_address(lowered: &str) -> (r: String)
    ensures
        r@ == icon_address_spec(lowered@),
{
    text::cat(CD_BASE, lowered)
}

/// The address that an icon's published path comes to; a path of another shape
/// has none.
pub open spec fn icon_of_path(path: Seq<char>) -> Seq<char> {
    if ICON_PREFIX@.is_prefix_of(path) {
        icon_address_spec(text::lowercase(path.skip(ICON_PREFIX@.len() as int)))
    } else {
        Seq::empty()
    }
}

fn icon_url(path: &str) -> (r: String)
    ensures
        r@ == icon_of_path(path@),
{
    if text::starts_with(path, ICON_PREFIX) {
        let v = text::chars_of(path);
        let prefix = text::chars_of(ICON_PREFIX);
        let rest = text::text_of(&v, prefix.len(), v.len());
        assert(rest@ =~= path@.skip(ICON_PREFIX@.len() as int));
        icon_address(rest.as_str().to_lowercase().as_str())
    } else {
        String::new()
    }
}

/// What one published row says of a spell. The cooldown is cut to 32 bits.
pub open spec fn published_spell(row: json::Document) -> SpellDataView {
    SpellDataView {
        name: row.string_or("name"@, "Unknown"@),
        icon_url: icon_of_path(row.string_or("iconPath"@, ""@)),
        cooldown: (match row.member("cooldown"@) {
            Some(m) => match m.uint64() {
                Some(secs) => secs,
                None => 300,
            },
            None => 300,
        }) as u32,
    }
}

/// The spells of the published rows. A row without an id is left out; a later
/// one wins.
pub open spec fn published_spells(rows: Seq<json::Document>) -> Map<i32, SpellDataView>
    decreases rows.len(),
{
    if rows.len() == 0 {
        Map::empty()
    } else {
        let before = published_spells(rows.drop_last());
        match rows.last().int_at("id"@) {
            Some(id) => before.insert(id as i32, published_spell(rows.last())),
            None => before,
        }
    }
}

/// The spells that are known without asking anyone: cooldowns, but no icons.
pub open spec fn fallback_spells(table: Seq<spells::SpellView>) -> Map<i32, SpellDataView>
    decreases table.len(),
{
    if table.len() == 0 {
        Map::empty()
    } else {
        let s = table.last();
        fallback_spells(table.drop_last()).insert(
            s.id,
            SpellDataView { name: s.name, icon_url: Seq::empty(), cooldown: s.base_cooldown },
        )
    }
}

/// Names that the game shows for variants of a spell, or that several published
/// rows share.
pub open spec fn alias_of(lowered: Seq<char>) -> Option<i32> {
    if lowered == "flash"@ {
        Some(4)
    } else if lowered == "unleashed teleport"@ {
        Some(12)
    } else if lowered == "hexflash"@ {
        Some(4)
    } else {
        None
    }
}

pub open spec fn called(table: Map<i32, SpellDataView>, lowered: Seq<char>, id: i32) -> bool {
    table.contains_key(id) && text::lowercase(table[id].name) == lowered
}

pub open spec fn called_in(table: Map<i32, SpellDataView>, lowered: Seq<char>, id: i32) -> bool {
    &&& table.contains_key(id)
    &&& text::lowercase(table[id].name).len() > 0
    &&& text::occurs(lowered, text::lowercase(table[id].name))
}

/// The smallest id of a spell that is called exactly this.
pub open spec fn first_called(table: Map<i32, SpellDataView>, lowered: Seq<char>, id: i32) -> bool {
    called(table, lowered, id) && forall|j: int|
        i32::MIN <= j < id ==> !(#[trigger] called(table, lowered, j as i32))
}

/// The smallest id of a spell whose name stands in this one.
pub open spec fn first_called_in(
    table: Map<i32, SpellDataView>,
    lowered: Seq<char>,
    id: i32,
) -> bool {
    called_in(table, lowered, id) && forall|j: int|
        i32::MIN <= j < id ==> !(#[trigger] called_in(table, lowered, j as i32))
}

/// The spell that a lowercased display name means: a known alias, else the spell
/// of that name, else one whose name stands in it, else 0. Where several fit, it
/// is the one with the smallest id.
pub open spec fn spell_id_of(table: Map<i32, SpellDataView>, lowered: Seq<char>) -> i32 {
    if alias_of(lowered) is Some && table.contains_key(alias_of(lowered)->0) {
        alias_of(lowered)->0
    } else if exists|id: i32| first_called(table, lowered, id) {
        choose|id: i32| first_called(table, lowered, id)
    } else if exists|id: i32| first_called_in(table, lowered, id) {
        choose|id: i32| first_called_in(table, lowered, id)
    } else {
        0
    }
}

pub open spec fn spell_name_of(table: Map<i32, SpellDataView>, id: i32) -> Seq<char> {
    if table.contains_key(id) {
        table[id].name
    } else {
        "Unknown"@
    }
}

pub open spec fn spell_icon_of(table: Map<i32, SpellDataView>, id: i32) -> Seq<char> {
    if table.contains_key(id) {
        table[id].icon_url
    } else {
        Seq::empty()
    }
}

pub open spec fn spell_cooldown_of(
    table: Map<i32, SpellDataView>,
    id: i32,
    has_cosmic: bool,
) -> u32 {
    spells::reduced(
        if table.contains_key(id) {
            table[id].cooldown
        } else {
            spells::UNKNOWN_COOLDOWN
        },
        has_cosmic,
    )
}

pub open spec fn optional_spell_data(s: Option<&SpellData>) -> Option<SpellDataView> {
    match s {
        Some(s) => Some(s@),
        None => None,
    }
}

impl SpellRegistry {
    /// The spells by id.
    pub closed spec fn table(self) -> Map<i32, SpellDataView> {
        spell_data_views(self.by_id@)
    }

    /// Builds the registry from the published rows. `None` means "ask again
    /// later", not "use nothing": whoever asks already holds the fallback and
    /// only swaps it for a real answer.
    pub fn from_rows(rows: &Vec<Json>) -> (r: Option<Self>)
        ensures
            match r {
                Some(registry) => registry.table() == published_spells(
                    json::documents(rows@),
                ) && registry.table().dom().len() > 0,
                None => published_spells(json::documents(rows@)) == Map::<
                    i32,
                    SpellDataView,
                >::empty(),
            },
    {
        let ghost all = json::documents(rows@);
        let mut by_id: HashMap<i32, SpellData> = HashMap::new();
        let mut i: usize = 0;
        assert(spell_data_views(by_id@) =~= Map::empty());
        while i < rows.len()
            invariant
                i <= rows@.len(),
                all == json::documents(rows@),
                spell_data_views(by_id@) == published_spells(all.take(i as int)),
            decreases rows@.len() - i,
        {
            let row = &rows[i];
            proof {
                assert(all.take(i + 1).drop_last() =~= all.take(i as int));
                assert(all.take(i + 1).last() == row@);
            }
            if let Some(id) = row.i64_at("id") {
                let cooldown: u64 = match row.get("cooldown") {
                    Some(m) => match m.as_u64() {
                        Some(secs) => secs,
                        None => 300,
                    },
                    None => 300,
                };
                let data = SpellData {
                    name: row.str_or("name", "Unknown").to_owned(),
                    icon_url: icon_url(row.str_or("iconPath", "")),
                    cooldown: cooldown as u32,
                };
                let ghost before = spell_data_views(by_id@);
                let ghost view = data@;
                by_id.insert(id as i32, data);
                assert(spell_data_views(by_id@) =~= before.insert(id as i32, view));
            }
            i += 1;
        }
        assert(all.take(i as int) =~= all);
        proof {
            assert(spell_data_views(by_id@).dom() =~= by_id@.dom());
        }
        if by_id.is_empty() {
            assert(by_id@.dom() =~= Set::empty());
            assert(spell_data_views(by_id@) =~= Map::empty());
            None
        } else {
            proof {
                if by_id@.dom().len() == 0 {
                    assert(by_id@.dom() =~= Set::empty());
                    assert(by_id@ =~= Map::empty());
                }
            }
            Some(SpellRegistry { by_id })
        }
    }

    /// What is known without asking anyone: enough to be useful from the first
    /// frame.
    pub fn fallback() -> (r: Self)
        ensures
            r.table() == fallback_spells(spells::spell_table()),
    {
        let all = spells::spells();
        let ghost views = spells::spell_views(all@);
        let mut by_id: HashMap<i32, SpellData> = HashMap::new();
        let mut i: usize = 0;
        assert(spell_data_views(by_id@) =~= Map::empty());
        while i < all.len()
            invariant
                i <= all@.len(),
                views == spells::spell_views(all@),
                spell_data_views(by_id@) == fallback_spells(views.take(i as int)),
            decreases all@.len() - i,
        {
            proof {
                assert(views.take(i + 1).drop_last() =~= views.take(i as int));
                assert(views.take(i + 1).last() == all@[i as int]@);
            }
            let s = all[i];
            let data = SpellData {
                name: s.name.to_owned(),
                icon_url: String::new(),
                cooldown: s.base_cooldown,
            };
            let ghost before = spell_data_views(by_id@);
            let ghost view = data@;
            assert(view.icon_url =~= Seq::empty());
            by_id.insert(s.id, data);
            assert(spell_data_views(by_id@) =~= before.insert(s.id, view));
            i += 1;
        }
        assert(views.take(i as int) =~= views);
        SpellRegistry { by_id }
    }

    pub fn get(&self, id: i32) -> (r: Option<&SpellData>)
        ensures
            optional_spell_data(r) == (if self.table().contains_key(id) {
                Some(self.table()[id])
            } else {
                None
            }),
    {
        self.by_id.get(&id)
    }

    /// Every id, in whatever order.
    fn ids(&self) -> (r: Vec<i32>)
        ensures
            forall|id: i32| #[trigger] r@.contains(id) == self.table().contains_key(id),
    {
        let mut out: Vec<i32> = Vec::new();
        for id in it: self.by_id.keys()
            invariant
                it.seq().unref().to_set() == self.by_id@.dom(),
                out@ == it.seq().unref().take(it.index() as int),
                it.index() == it.seq().len() ==> out@.to_set() == self.by_id@.dom(),
        {
            out.push(*id);
            proof {
                let all = it.seq().unref();
                let n = it.index() as int;
                assert(all[n] == *id);
                assert(out@ =~= all.take(n + 1));
                assert(n + 1 == all.len() ==> all.take(n + 1) =~= all);
            }
        }
        proof {
            assert forall|id: i32| #[trigger] out@.contains(id) == self.table().contains_key(id) by {
                assert(out@.to_set().contains(id) == out@.contains(id));
            }
        }
        out
    }

    /// The smallest id of a spell that is called exactly this.
    fn find_called(&self, lowered: &str) -> (r: Option<i32>)
        ensures
            match r {
                Some(id) => first_called(self.table(), lowered@, id),
                None => forall|id: i32| !called(self.table(), lowered@, id),
            },
    {
        let ids = self.ids();
        let mut best: Option<i32> = None;
        let mut i: usize = 0;
        while i < ids.len()
            invariant
                i <= ids@.len(),
                forall|id: i32| #[trigger] ids@.contains(id) == self.table().contains_key(id),
                match best {
                    Some(b) => called(self.table(), lowered@, b) && forall|j: int|
                        0 <= j < i && called(self.table(), lowered@, #[trigger] ids@[j]) ==> b
                            <= ids@[j],
                    None => forall|j: int|
                        0 <= j < i ==> !called(self.table(), lowered@, #[trigger] ids@[j]),
                },
            decreases ids@.len() - i,
        {
            let id: i32 = ids[i];
            if let Some(data) = self.get(id) {
                if text::same(data.name.as_str().to_lowercase().as_str(), lowered) {
                    assert(called(self.table(), lowered@, id));
                    let better = match best {
                        Some(b) => id < b,
                        None => true,
                    };
                    if better {
                        best = Some(id);
                    }
                }
            }
            i += 1;
        }
        proof {
            assert forall|id: i32| called(self.table(), lowered@, id) implies best is Some
                && best->0 <= id by {
                assert(ids@.contains(id));
                let j = choose|j: int| 0 <= j < ids@.len() && ids@[j] == id;
                assert(called(self.table(), lowered@, ids@[j]));
            }
        }
        best
    }

    /// The smallest id of a spell whose name stands in this one.
    fn find_called_in(&self, lowered: &str) -> (r: Option<i32>)
        ensures
            match r {
                Some(id) => first_called_in(self.table(), lowered@, id),
                None => forall|id: i32| !called_in(self.table(), lowered@, id),
            },
    {
        let ids = self.ids();
        let mut best: Option<i32> = None;
        let mut i: usize = 0;
        while i < ids.len()
            invariant
                i <= ids@.len(),
                forall|id: i32| #[trigger] ids@.contains(id) == self.table().contains_key(id),
                match best {
                    Some(b) => called_in(self.table(), lowered@, b) && forall|j: int|
                        0 <= j < i && called_in(self.table(), lowered@, #[trigger] ids@[j]) ==> b
                            <= ids@[j],
                    None => forall|j: int|
                        0 <= j < i ==> !called_in(self.table(), lowered@, #[trigger] ids@[j]),
                },
            decreases ids@.len() - i,
        {
            let id: i32 = ids[i];
            if let Some(data) = self.get(id) {
                let name = data.name.as_str().to_lowercase();
                if !name.as_str().is_empty() && text::contains(lowered, name.as_str()) {
                    assert(called_in(self.table(), lowered@, id));
                    let better = match best {
                        Some(b) => id < b,
                        None => true,
                    };
                    if better {
                        best = Some(id);
                    }
                }
            }
            i += 1;
        }
        proof {
            assert forall|id: i32| called_in(self.table(), lowered@, id) implies best is Some
                && best->0 <= id by {
                assert(ids@.contains(id));
                let j = choose|j: int| 0 <= j < ids@.len() && ids@[j] == id;
                assert(called_in(self.table(), lowered@, ids@[j]));
            }
        }
        best
    }

    /// [`SpellRegistry::id_from_display_name`] for a name that has been
    /// lowercased.
    pub fn id_from_lowered(&self, lowered: &str) -> (r: i32)
        ensures
            r == spell_id_of(self.table(), lowered@),
    {
        let alias: Option<i32> = if text::same(lowered, "flash") {
            Some(4)
        } else if text::same(lowered, "unleashed teleport") {
            Some(12)
        } else if text::same(lowered, "hexflash") {
            Some(4)
        } else {
            None
        };
        if let Some(id) = alias {
            if self.get(id).is_some() {
                return id;
            }
        }
        if let Some(id) = self.find_called(lowered) {
            proof {
                let other = choose|other: i32| first_called(self.table(), lowered@, other);
                if other < id {
                    assert(called(self.table(), lowered@, other as int as i32));
                }
                if id < other {
                    assert(called(self.table(), lowered@, id as int as i32));
                }
            }
            return id;
        }
        if let Some(id) = self.find_called_in(lowered) {
            proof {
                let other = choose|other: i32| first_called_in(self.table(), lowered@, other);
                if other < id {
                    assert(called_in(self.table(), lowered@, other as int as i32));
                }
                if id < other {
                    assert(called_in(self.table(), lowered@, id as int as i32));
                }
            }
            return id;
        }
        0
    }

    /// Matches a display name (potentially evolved, such as "Unleashed
    /// Teleport") to a spell id; 0 where none fits.
    pub fn id_from_display_name(&self, display_name: &str) -> (r: i32)
        ensures
            r == spell_id_of(self.table(), text::lowercase(display_name@)),
    {
        self.id_from_lowered(display_name.to_lowercase().as_str())
    }

    pub fn spell_name(&self, id: i32) -> (r: String)
        ensures
            r@ == spell_name_of(self.table(), id),
    {
        match self.get(id) {
            Some(s) => s.name.clone(),
            None => "Unknown".to_owned(),
        }
    }

    pub fn spell_icon(&self, id: i32) -> (r: String)
        ensures
            r@ == spell_icon_of(self.table(), id),
    {
        match self.get(id) {
            Some(s) => s.icon_url.clone(),
            None => String::new(),
        }
    }

    pub fn spell_cooldown(&self, id: i32, has_cosmic: bool) -> (r: u32)
        ensures
            r == spell_cooldown_of(self.table(), id, has_cosmic),
    {
        let base: u32 = match self.get(id) {
            Some(s) => s.cooldown,
            None => spells::UNKNOWN_COOLDOWN,
        };
        spells::reduce(base, has_cosmic)
    }
}

// ── Order by role ──

/// The last place, for ARAM, blind pick and anything else without a lane.
pub const NO_LANE_ORDER: u8 = 5;

/// Where an uppercased position sorts: Top, Jungle, Mid, Bot, Support, and
/// everything else behind them.
pub open spec fn upper_order(upper: Seq<char>) -> u8 {
    if upper == "TOP"@ {
        0
    } else if upper == "JUNGLE"@ {
        1
    } else if upper == "MIDDLE"@ || upper == "MID"@ {
        2
    } else if upper == "BOTTOM"@ || upper == "BOT"@ || upper == "ADC"@ {
        3
    } else if upper == "UTILITY"@ || upper == "SUPPORT"@ || upper == "SUP"@ {
        4
    } else {
        NO_LANE_ORDER
    }
}

/// [`role_order`] for a position that has been uppercased.
pub fn order_of_upper(upper: &str) -> (r: u8)
    ensures
        r == upper_order(upper@),
        r <= NO_LANE_ORDER,
{
    if text::same(upper, "TOP") {
        0
    } else if text::same(upper, "JUNGLE") {
        1
    } else if text::same(upper, "MIDDLE") || text::same(upper, "MID") {
        2
    } else if text::same(upper, "BOTTOM") || text::same(upper, "BOT") || text::same(upper, "ADC") {
        3
    } else if text::same(upper, "UTILITY") || text::same(upper, "SUPPORT") || text::same(
        upper,
        "SUP",
    ) {
        4
    } else {
        NO_LANE_ORDER
    }
}

pub open spec fn order_of(position: Seq<char>) -> u8 {
    upper_order(text::uppercase(position))
}

/// Role order for sorting: Top, Jungle, Mid, Bot, Support.
pub fn role_order(position: &str) -> (r: u8)
    ensures
        r == order_of(position@),
        r <= NO_LANE_ORDER,
        vstd::utf8::is_ascii_chars(position@) ==> r == upper_order(text::ascii_upper(position@)),
{
    order_of_upper(position.to_uppercase().as_str())
}

/// What stands under this key, in its order.
pub open spec fn keyed<T>(list: Seq<(u8, T)>, key: u8) -> Seq<T>
    decreases list.len(),
{
    if list.len() == 0 {
        Seq::empty()
    } else if list.last().0 == key {
        keyed(list.drop_last(), key).push(list.last().1)
    } else {
        keyed(list.drop_last(), key)
    }
}

/// The list by role: everything of a role together, in the order in which it
/// stood.
pub open spec fn by_role<T>(list: Seq<(u8, T)>) -> Seq<T> {
    keyed(list, 0) + keyed(list, 1) + keyed(list, 2) + keyed(list, 3) + keyed(list, 4) + keyed(
        list,
        NO_LANE_ORDER,
    )
}

pub open spec fn keyed_views(list: Seq<(u8, EnemyData)>) -> Seq<(u8, EnemyView)> {
    list.map_values(|p: (u8, EnemyData)| (p.0, p.1@))
}

proof fn lemma_keyed_views(list: Seq<(u8, EnemyData)>, key: u8)
    ensures
        enemy_views(keyed(list, key)) == keyed(keyed_views(list), key),
    decreases list.len(),
{
    if list.len() == 0 {
        assert(enemy_views(keyed(list, key)) =~= keyed(keyed_views(list), key));
    } else {
        lemma_keyed_views(list.drop_last(), key);
        assert(keyed_views(list).drop_last() =~= keyed_views(list.drop_last()));
        assert(keyed_views(list).last() == (list.last().0, list.last().1@));
        assert(enemy_views(keyed(list, key)) =~= keyed(keyed_views(list), key));
    }
}

/// Sorts by role, keeping the order within a role.
fn sort_by_role(list: Vec<(u8, EnemyData)>) -> (r: Vec<EnemyData>)
    requires
        forall|i: int| 0 <= i < list@.len() ==> (#[trigger] list@[i]).0 <= NO_LANE_ORDER,
    ensures
        enemy_views(r@) == by_role(keyed_views(list@)),
{
    let ghost all = list@;
    let mut rest = list;
    let mut reversed: Vec<(u8, EnemyData)> = Vec::new();
    while rest.len() > 0
        invariant
            rest@ + reversed@.reverse() == all,
        decreases rest@.len(),
    {
        let ghost before = rest@;
        let ghost done = reversed@;
        if let Some(item) = rest.pop() {
            reversed.push(item);
            assert(rest@ + reversed@.reverse() =~= before + done.reverse());
        }
    }
    assert(reversed@.reverse() =~= all);
    let mut top: Vec<EnemyData> = Vec::new();
    let mut jungle: Vec<EnemyData> = Vec::new();
    let mut middle: Vec<EnemyData> = Vec::new();
    let mut bottom: Vec<EnemyData> = Vec::new();
    let mut utility: Vec<EnemyData> = Vec::new();
    let mut others: Vec<EnemyData> = Vec::new();
    while reversed.len() > 0
        invariant
            reversed@.len() <= all.len(),
            reversed@ == all.skip(all.len() - reversed@.len()).reverse(),
            forall|i: int| 0 <= i < all.len() ==> (#[trigger] all[i]).0 <= NO_LANE_ORDER,
            top@ == keyed(all.take(all.len() - reversed@.len()), 0),
            jungle@ == keyed(all.take(all.len() - reversed@.len()), 1),
            middle@ == keyed(all.take(all.len() - reversed@.len()), 2),
            bottom@ == keyed(all.take(all.len() - reversed@.len()), 3),
            utility@ == keyed(all.take(all.len() - reversed@.len()), 4),
            others@ == keyed(all.take(all.len() - reversed@.len()), NO_LANE_ORDER),
        decreases reversed@.len(),
    {
        let ghost n = all.len() - reversed@.len();
        let ghost before = reversed@;
        if let Some((order, enemy)) = reversed.pop() {
            proof {
                assert(before.last() == all[n]);
                assert(all.take(n + 1).drop_last() =~= all.take(n));
                assert(all.take(n + 1).last() == (order, enemy));
                assert(reversed@ =~= all.skip(n + 1).reverse());
            }
            if order == 0 {
                top.push(enemy);
            } else if order == 1 {
                jungle.push(enemy);
            } else if order == 2 {
                middle.push(enemy);
            } else if order == 3 {
                bottom.push(enemy);
            } else if order == 4 {
                utility.push(enemy);
            } else {
                others.push(enemy);
            }
        }
    }
    proof {
        assert(all.take(all.len() as int) =~= all);
        lemma_keyed_views(all, 0);
        lemma_keyed_views(all, 1);
        lemma_keyed_views(all, 2);
        lemma_keyed_views(all, 3);
        lemma_keyed_views(all, 4);
        lemma_keyed_views(all, NO_LANE_ORDER);
    }
    let ghost parts = (top@, jungle@, middle@, bottom@, utility@, others@);
    top.append(&mut jungle);
    top.append(&mut middle);
    top.append(&mut bottom);
    top.append(&mut utility);
    top.append(&mut others);
    assert(enemy_views(top@) =~= enemy_views(parts.0) + enemy_views(parts.1) + enemy_views(parts.2)
        + enemy_views(parts.3) + enemy_views(parts.4) + enemy_views(parts.5));
    top
}

// ── Enemies in champ select ──

/// The name to show for a champion.
pub open spec fn champion_label(names: Map<i32, Seq<char>>, id: i32) -> Seq<char> {
    if names.contains_key(id) {
        names[id]
    } else {
        "Champion "@ + text::decimal_int(id as int)
    }
}

/// An integer of a player, cut to 32 bits; 0 where there is none.
pub open spec fn small_int(player: json::Document, key: Seq<char>) -> i32 {
    match player.int_at(key) {
        Some(n) => n as i32,
        None => 0,
    }
}

/// The enemy that one player of the other team is, and where they sort. `None`
/// before a champion is locked.
pub open spec fn enemy_in_draft(
    player: json::Document,
    names: Map<i32, Seq<char>>,
    table: Map<i32, SpellDataView>,
) -> Option<(u8, EnemyView)> {
    match player.int_at("championId"@) {
        None => None,
        Some(id) => {
            let champion_id = id as i32;
            let spell1_id = small_int(player, "spell1Id"@);
            let spell2_id = small_int(player, "spell2Id"@);
            if champion_id <= 0 {
                None
            } else {
                Some(
                    (
                        order_of(player.string_or("assignedPosition"@, ""@)),
                        EnemyView {
                            champion_id,
                            champion_name: champion_label(names, champion_id),
                            spell1_id,
                            spell2_id,
                            spell1_name: spell_name_of(table, spell1_id),
                            spell2_name: spell_name_of(table, spell2_id),
                            spell1_icon: spell_icon_of(table, spell1_id),
                            spell2_icon: spell_icon_of(table, spell2_id),
                            spell1_cooldown: spell_cooldown_of(table, spell1_id, false),
                            spell2_cooldown: spell_cooldown_of(table, spell2_id, false),
                            has_cosmic_insight: false,
                            has_unsealed_spellbook: false,
                        },
                    ),
                )
            }
        },
    }
}

/// The enemies of a team with a champion, in the order of the team.
pub open spec fn enemies_in_draft(
    team: Seq<json::Document>,
    names: Map<i32, Seq<char>>,
    table: Map<i32, SpellDataView>,
) -> Seq<(u8, EnemyView)>
    decreases team.len(),
{
    if team.len() == 0 {
        Seq::empty()
    } else {
        let before = enemies_in_draft(team.drop_last(), names, table);
        match enemy_in_draft(team.last(), names, table) {
            Some(e) => before.push(e),
            None => before,
        }
    }
}

pub fn write_champion(names: &HashMap<i32, String>, id: i32) -> (r: String)
    ensures
        r@ == champion_label(champions::name_views(names@), id),
{
    match names.get(&id) {
        Some(name) => name.clone(),
        None => text::cat("Champion ", text::write_i64(id as i64).as_str()),
    }
}

fn read_small_int(player: &Json, key: &str) -> (r: i32)
    ensures
        r == small_int(player@, key@),
{
    match player.i64_at(key) {
        Some(n) => n as i32,
        None => 0,
    }
}

fn read_drafted_enemy(
    player: &Json,
    names: &HashMap<i32, String>,
    spells: &SpellRegistry,
) -> (r: Option<(u8, EnemyData)>)
    ensures
        match r {
            Some(e) => e.0 <= NO_LANE_ORDER && enemy_in_draft(
                player@,
                champions::name_views(names@),
                spells.table(),
            ) == Some((e.0, e.1@)),
            None => enemy_in_draft(player@, champions::name_views(names@), spells.table()) is None,
        },
{
    let champion_id: i32 = match player.i64_at("championId") {
        Some(id) => id as i32,
        None => {
            return None;
        },
    };
    if champion_id <= 0 {
        return None;
    }
    let spell1_id = read_small_int(player, "spell1Id");
    let spell2_id = read_small_int(player, "spell2Id");
    let order = role_order(player.str_or("assignedPosition", ""));
    Some(
        (
            order,
            EnemyData {
                champion_id,
                champion_name: write_champion(names, champion_id),
                spell1_id,
                spell2_id,
                spell1_name: spells.spell_name(spell1_id),
                spell2_name: spells.spell_name(spell2_id),
                spell1_icon: spells.spell_icon(spell1_id),
                spell2_icon: spells.spell_icon(spell2_id),
                spell1_cooldown: spells.spell_cooldown(spell1_id, false),
                spell2_cooldown: spells.spell_cooldown(spell2_id, false),
                has_cosmic_insight: false,
                has_unsealed_spellbook: false,
            },
        ),
    )
}

/// Extracts the enemy team from a champ-select session, top to support.
pub fn extract_enemies(
    session: &Json,
    id_to_name: &HashMap<i32, String>,
    spells: &SpellRegistry,
) -> (r: Vec<EnemyData>)
    ensures
        enemy_views(r@) == match session@.array_at("theirTeam"@) {
            Some(team) => by_role(
                enemies_in_draft(team, champions::name_views(id_to_name@), spells.table()),
            ),
            None => Seq::empty(),
        },
{
    let team = match session.array_at("theirTeam") {
        Some(team) => team,
        None => {
            let none: Vec<EnemyData> = Vec::new();
            assert(enemy_views(none@) =~= Seq::empty());
            return none;
        },
    };
    let ghost all = json::documents(team@);
    let ghost names = champions::name_views(id_to_name@);
    let mut found: Vec<(u8, EnemyData)> = Vec::new();
    let mut i: usize = 0;
    assert(keyed_views(found@) =~= Seq::empty());
    while i < team.len()
        invariant
            i <= team@.len(),
            all == json::documents(team@),
            names == champions::name_views(id_to_name@),
            keyed_views(found@) == enemies_in_draft(all.take(i as int), names, spells.table()),
            forall|j: int| 0 <= j < found@.len() ==> (#[trigger] found@[j]).0 <= NO_LANE_ORDER,
        decreases team@.len() - i,
    {
        proof {
            assert(all.take(i + 1).drop_last() =~= all.take(i as int));
            assert(all.take(i + 1).last() == team@[i as int]@);
        }
        if let Some(e) = read_drafted_enemy(&team[i], id_to_name, spells) {
            let ghost before = keyed_views(found@);
            let ghost view = (e.0, e.1@);
            found.push(e);
            assert(keyed_views(found@) =~= before.push(view));
        }
        i += 1;
    }
    assert(all.take(i as int) =~= all);
    sort_by_role(found)
}

// ── Enemies in the running game ──

/// What a player is called: by Riot ID, else by summoner name.
pub open spec fn player_label(p: json::Document) -> Option<json::Document> {
    match p.member("riotIdGameName"@) {
        Some(name) => Some(name),
        None => p.member("summonerName"@),
    }
}

pub open spec fn label_text(label: Option<json::Document>) -> Seq<char> {
    match label {
        Some(name) => match name.string() {
            Some(s) => s,
            None => ""@,
        },
        None => ""@,
    }
}

fn read_label(p: &Json) -> (r: &str)
    ensures
        r@ == label_text(player_label(p@)),
{
    let label = match p.get("riotIdGameName") {
        Some(name) => Some(name),
        None => p.get("summonerName"),
    };
    match label {
        Some(name) => match name.as_str() {
            Some(s) => s,
            None => "",
        },
        None => "",
    }
}

/// The name of the player at this machine.
pub open spec fn active_name(data: json::Document) -> Seq<char> {
    match data.member("activePlayer"@) {
        Some(p) => label_text(player_label(p)),
        None => ""@,
    }
}

/// The team of the first player of this name.
pub open spec fn team_of(players: Seq<json::Document>, name: Seq<char>) -> Seq<char>
    decreases players.len(),
{
    if players.len() == 0 {
        "ORDER"@
    } else if label_text(player_label(players[0])) == name {
        players[0].string_or("team"@, "ORDER"@)
    } else {
        team_of(players.drop_first(), name)
    }
}

fn read_team<'a>(players: &'a Vec<Json>, name: &str) -> (r: &'a str)
    ensures
        r@ == team_of(json::documents(players@), name@),
{
    let ghost all = json::documents(players@);
    let mut i: usize = 0;
    assert(all.skip(0) =~= all);
    while i < players.len()
        invariant
            i <= players@.len(),
            all == json::documents(players@),
            team_of(all, name@) == team_of(all.skip(i as int), name@),
        decreases players@.len() - i,
    {
        assert(all.skip(i as int)[0] == players@[i as int]@);
        assert(all.skip(i as int).drop_first() =~= all.skip(i + 1));
        if text::same(read_label(&players[i]), name) {
            return players[i].str_or("team", "ORDER");
        }
        i += 1;
    }
    "ORDER"
}

/// The players of this team, in their order.
pub open spec fn on_team(players: Seq<json::Document>, team: Seq<char>) -> Seq<json::Document>
    decreases players.len(),
{
    if players.len() == 0 {
        players
    } else {
        let before = on_team(players.drop_last(), team);
        if players.last().string_or("team"@, ""@) == team {
            before.push(players.last())
        } else {
            before
        }
    }
}

/// The players of the other team.
pub open spec fn opponents(data: json::Document, players: Seq<json::Document>) -> Seq<
    json::Document,
> {
    on_team(
        players,
        if team_of(players, active_name(data)) == "ORDER"@ {
            "CHAOS"@
        } else {
            "ORDER"@
        },
    )
}

/// The text at the end of a path of object keys.
pub open spec fn spell_shown(player: json::Document, which: Seq<char>) -> Option<Seq<char>> {
    match player.member("summonerSpells"@) {
        Some(spells) => match spells.member(which) {
            Some(spell) => spell.string_at("displayName"@),
            None => None,
        },
        None => None,
    }
}

fn read_spell_shown<'a>(player: &'a Json, which: &str) -> (r: Option<&'a str>)
    ensures
        json::text_of(r) == spell_shown(player@, which@),
{
    match player.get("summonerSpells") {
        Some(spells) => match spells.get(which) {
            Some(spell) => spell.str_at("displayName"),
            None => None,
        },
        None => None,
    }
}

/// One of the general runes has this id.
pub open spec fn among_runes(runes: Seq<json::Document>, rune_id: i32) -> bool {
    exists|i: int|
        0 <= i < runes.len() && (#[trigger] runes[i]).int_at("id"@) == Some(rune_id as i64)
}

/// The player runs this rune, as the keystone or among the others.
pub open spec fn runs_rune(player: json::Document, rune_id: i32) -> bool {
    match player.member("runes"@) {
        None => false,
        Some(runes) => {
            ||| runes.member("keystone"@) matches Some(keystone) && keystone.int_at("id"@) == Some(
                rune_id as i64,
            )
            ||| runes.array_at("generalRunes"@) matches Some(general) && among_runes(
                general,
                rune_id,
            )
        },
    }
}

pub fn has_rune(player: &Json, rune_id: i32) -> (r: bool)
    ensures
        r == runs_rune(player@, rune_id),
{
    let runes = match player.get("runes") {
        Some(runes) => runes,
        None => {
            return false;
        },
    };
    if let Some(keystone) = runes.get("keystone") {
        if let Some(id) = keystone.i64_at("id") {
            if id == rune_id as i64 {
                return true;
            }
        }
    }
    if let Some(general) = runes.array_at("generalRunes") {
        let ghost all = json::documents(general@);
        let mut i: usize = 0;
        while i < general.len()
            invariant
                i <= general@.len(),
                all == json::documents(general@),
                Some(runes@) == player@.member("runes"@),
                runes@.array_at("generalRunes"@) == Some(all),
                forall|j: int|
                    0 <= j < i ==> (#[trigger] all[j]).int_at("id"@) != Some(rune_id as i64),
            decreases general@.len() - i,
        {
            assert(all[i as int] == general@[i as int]@);
            if let Some(id) = general[i].i64_at("id") {
                if id == rune_id as i64 {
                    return true;
                }
            }
            i += 1;
        }
    }
    false
}

/// The spell that a shown name means; none where nothing is shown.
pub open spec fn shown_id(table: Map<i32, SpellDataView>, shown: Seq<char>) -> i32 {
    if shown.len() == 0 {
        0
    } else {
        spell_id_of(table, text::lowercase(shown))
    }
}

fn read_shown_id(spells: &SpellRegistry, shown: &str) -> (r: i32)
    ensures
        r == shown_id(spells.table(), shown@),
{
    if shown.is_empty() {
        0
    } else {
        spells.id_from_display_name(shown)
    }
}

pub open spec fn shown_or_empty(shown: Option<Seq<char>>) -> Seq<char> {
    match shown {
        Some(s) => s,
        None => ""@,
    }
}

/// An enemy known from the running game alone (practice tool, no champ select).
pub open spec fn enemy_in_game(
    player: json::Document,
    table: Map<i32, SpellDataView>,
) -> EnemyView {
    let shown1 = shown_or_empty(spell_shown(player, "summonerSpellOne"@));
    let shown2 = shown_or_empty(spell_shown(player, "summonerSpellTwo"@));
    let spell1_id = shown_id(table, shown1);
    let spell2_id = shown_id(table, shown2);
    let cosmic = runs_rune(player, spells::COSMIC_INSIGHT_ID);
    EnemyView {
        champion_id: 0,
        champion_name: player.string_or("championName"@, "Unknown"@),
        spell1_id,
        spell2_id,
        spell1_name: shown1,
        spell2_name: shown2,
        spell1_icon: spell_icon_of(table, spell1_id),
        spell2_icon: spell_icon_of(table, spell2_id),
        spell1_cooldown: spell_cooldown_of(table, spell1_id, cosmic),
        spell2_cooldown: spell_cooldown_of(table, spell2_id, cosmic),
        has_cosmic_insight: cosmic,
        has_unsealed_spellbook: runs_rune(player, spells::UNSEALED_SPELLBOOK_ID),
    }
}

fn read_enemy(player: &Json, spells: &SpellRegistry) -> (r: EnemyData)
    ensures
        r@ == enemy_in_game(player@, spells.table()),
{
    let shown1 = match read_spell_shown(player, "summonerSpellOne") {
        Some(s) => s,
        None => "",
    };
    let shown2 = match read_spell_shown(player, "summonerSpellTwo") {
        Some(s) => s,
        None => "",
    };
    let spell1_id = read_shown_id(spells, shown1);
    let spell2_id = read_shown_id(spells, shown2);
    let cosmic = has_rune(player, spells::COSMIC_INSIGHT_ID);
    let spellbook = has_rune(player, spells::UNSEALED_SPELLBOOK_ID);
    EnemyData {
        champion_id: 0,
        champion_name: player.str_or("championName", "Unknown").to_owned(),
        spell1_id,
        spell2_id,
        spell1_name: shown1.to_owned(),
        spell2_name: shown2.to_owned(),
        spell1_icon: spells.spell_icon(spell1_id),
        spell2_icon: spells.spell_icon(spell2_id),
        spell1_cooldown: spells.spell_cooldown(spell1_id, cosmic),
        spell2_cooldown: spells.spell_cooldown(spell2_id, cosmic),
        has_cosmic_insight: cosmic,
        has_unsealed_spellbook: spellbook,
    }
}

/// An enemy from champ select, with the spells and runes of the running game. A
/// spell that the game does not show stays as it was.
pub open spec fn refreshed(
    e: EnemyView,
    player: json::Document,
    table: Map<i32, SpellDataView>,
) -> EnemyView {
    let shown1 = spell_shown(player, "summonerSpellOne"@);
    let shown2 = spell_shown(player, "summonerSpellTwo"@);
    let spell1_id = match shown1 {
        Some(s) => spell_id_of(table, text::lowercase(s)),
        None => e.spell1_id,
    };
    let spell2_id = match shown2 {
        Some(s) => spell_id_of(table, text::lowercase(s)),
        None => e.spell2_id,
    };
    let cosmic = runs_rune(player, spells::COSMIC_INSIGHT_ID);
    EnemyView {
        champion_id: e.champion_id,
        champion_name: e.champion_name,
        spell1_id,
        spell2_id,
        spell1_name: match shown1 {
            Some(s) => s,
            None => e.spell1_name,
        },
        spell2_name: match shown2 {
            Some(s) => s,
            None => e.spell2_name,
        },
        spell1_icon: match shown1 {
            Some(_) => spell_icon_of(table, spell1_id),
            None => e.spell1_icon,
        },
        spell2_icon: match shown2 {
            Some(_) => spell_icon_of(table, spell2_id),
            None => e.spell2_icon,
        },
        spell1_cooldown: spell_cooldown_of(table, spell1_id, cosmic),
        spell2_cooldown: spell_cooldown_of(table, spell2_id, cosmic),
        has_cosmic_insight: cosmic,
        has_unsealed_spellbook: runs_rune(player, spells::UNSEALED_SPELLBOOK_ID),
    }
}

fn refresh(enemy: &mut EnemyData, player: &Json, spells: &SpellRegistry)
    ensures
        final(enemy)@ == refreshed(old(enemy)@, player@, spells.table()),
{
    let cosmic = has_rune(player, spells::COSMIC_INSIGHT_ID);
    let spellbook = has_rune(player, spells::UNSEALED_SPELLBOOK_ID);
    enemy.has_cosmic_insight = cosmic;
    enemy.has_unsealed_spellbook = spellbook;
    if let Some(shown) = read_spell_shown(player, "summonerSpellOne") {
        let id = spells.id_from_display_name(shown);
        enemy.spell1_id = id;
        enemy.spell1_name = shown.to_owned();
        enemy.spell1_icon = spells.spell_icon(id);
    }
    if let Some(shown) = read_spell_shown(player, "summonerSpellTwo") {
        let id = spells.id_from_display_name(shown);
        enemy.spell2_id = id;
        enemy.spell2_name = shown.to_owned();
        enemy.spell2_icon = spells.spell_icon(id);
    }
    enemy.spell1_cooldown = spells.spell_cooldown(enemy.spell1_id, cosmic);
    enemy.spell2_cooldown = spells.spell_cooldown(enemy.spell2_id, cosmic);
}

/// `i` is the first enemy who plays this champion.
pub open spec fn first_playing(enemies: Seq<EnemyView>, champion: Seq<char>, i: int) -> bool {
    &&& 0 <= i < enemies.len()
    &&& enemies[i].champion_name == champion
    &&& forall|j: int| 0 <= j < i ==> (#[trigger] enemies[j]).champion_name != champion
}

/// The enemies, with the one who plays this player's champion refreshed.
pub open spec fn refreshed_by(
    enemies: Seq<EnemyView>,
    player: json::Document,
    table: Map<i32, SpellDataView>,
) -> Seq<EnemyView> {
    let champion = player.string_or("championName"@, ""@);
    if exists|i: int| first_playing(enemies, champion, i) {
        let i = choose|i: int| first_playing(enemies, champion, i);
        enemies.update(i, refreshed(enemies[i], player, table))
    } else {
        enemies
    }
}

fn refresh_by(enemies: &mut Vec<EnemyData>, player: &Json, spells: &SpellRegistry)
    ensures
        enemy_views(final(enemies)@) == refreshed_by(
            enemy_views(old(enemies)@),
            player@,
            spells.table(),
        ),
{
    let champion = player.str_or("championName", "");
    let ghost before = enemy_views(enemies@);
    let mut i: usize = 0;
    while i < enemies.len()
        invariant
            i <= enemies@.len(),
            before == enemy_views(enemies@),
            before == enemy_views(old(enemies)@),
            champion@ == player@.string_or("championName"@, ""@),
            forall|j: int| 0 <= j < i ==> (#[trigger] before[j]).champion_name != champion@,
        decreases enemies@.len() - i,
    {
        assert(before[i as int] == enemies@[i as int]@);
        if text::same(enemies[i].champion_name.as_str(), champion) {
            proof {
                assert(first_playing(before, champion@, i as int));
                let k = choose|k: int| first_playing(before, champion@, k);
                if k < i {
                    assert(before[k].champion_name != champion@);
                }
                if i < k {
                    assert(before[i as int].champion_name != champion@);
                }
            }
            let enemy = &mut enemies[i];
            refresh(enemy, player, spells);
            assert(enemy_views(enemies@) =~= before.update(
                i as int,
                refreshed(before[i as int], player@, spells.table()),
            ));
            return ;
        }
        i += 1;
    }
    assert(forall|k: int| !first_playing(before, champion@, k));
}

/// What the players of the running game make of the enemies known so far.
pub open spec fn merged(
    enemies: Seq<EnemyView>,
    players: Seq<json::Document>,
    table: Map<i32, SpellDataView>,
) -> Seq<EnemyView>
    decreases players.len(),
{
    if players.len() == 0 {
        enemies
    } else {
        refreshed_by(merged(enemies, players.drop_last(), table), players.last(), table)
    }
}

/// The place of the first player with this champion.
pub open spec fn place_of(players: Seq<json::Document>, champion: Seq<char>) -> u8
    decreases players.len(),
{
    if players.len() == 0 {
        NO_LANE_ORDER
    } else if players[0].string_or("championName"@, ""@) == champion {
        order_of(players[0].string_or("position"@, ""@))
    } else {
        place_of(players.drop_first(), champion)
    }
}

fn read_place(players: &Vec<&Json>, champion: &str) -> (r: u8)
    ensures
        r == place_of(ref_documents(players@), champion@),
        r <= NO_LANE_ORDER,
{
    let ghost all = ref_documents(players@);
    let mut i: usize = 0;
    assert(all.skip(0) =~= all);
    while i < players.len()
        invariant
            i <= players@.len(),
            all == ref_documents(players@),
            place_of(all, champion@) == place_of(all.skip(i as int), champion@),
        decreases players@.len() - i,
    {
        assert(all.skip(i as int)[0] == players@[i as int]@);
        assert(all.skip(i as int).drop_first() =~= all.skip(i + 1));
        if text::same(players[i].str_or("championName", ""), champion) {
            return role_order(players[i].str_or("position", ""));
        }
        i += 1;
    }
    NO_LANE_ORDER
}

pub open spec fn ref_documents(items: Seq<&Json>) -> Seq<json::Document> {
    items.map_values(|item: &Json| item@)
}

/// Each enemy with the place that the running game gives their champion.
pub open spec fn placed(enemies: Seq<EnemyView>, players: Seq<json::Document>) -> Seq<
    (u8, EnemyView),
> {
    enemies.map_values(|e: EnemyView| (place_of(players, e.champion_name), e))
}

/// The enemies once the running game has been read, or nothing while it says
/// nothing useful yet: no players, or none on the other team.
pub open spec fn in_game(
    enemies: Seq<EnemyView>,
    data: json::Document,
    table: Map<i32, SpellDataView>,
) -> Option<Seq<EnemyView>> {
    match data.array_at("allPlayers"@) {
        None => None,
        Some(players) => {
            let others = opponents(data, players);
            if others.len() == 0 {
                None
            } else {
                let known = if enemies.len() == 0 {
                    others.map_values(|p: json::Document| enemy_in_game(p, table))
                } else {
                    merged(enemies, others, table)
                };
                Some(by_role(placed(known, others)))
            }
        },
    }
}

fn collect_team<'a>(players: &'a Vec<Json>, team: &str) -> (r: Vec<&'a Json>)
    ensures
        ref_documents(r@) == on_team(json::documents(players@), team@),
{
    let ghost all = json::documents(players@);
    let mut out: Vec<&Json> = Vec::new();
    let mut i: usize = 0;
    assert(ref_documents(out@) =~= on_team(all.take(0), team@));
    while i < players.len()
        invariant
            i <= players@.len(),
            all == json::documents(players@),
            ref_documents(out@) == on_team(all.take(i as int), team@),
        decreases players@.len() - i,
    {
        proof {
            assert(all.take(i + 1).drop_last() =~= all.take(i as int));
            assert(all.take(i + 1).last() == players@[i as int]@);
        }
        if text::same(players[i].str_or("team", ""), team) {
            let ghost before = ref_documents(out@);
            out.push(&players[i]);
            assert(ref_documents(out@) =~= before.push(players@[i as int]@));
        }
        i += 1;
    }
    assert(all.take(i as int) =~= all);
    out
}

fn place_enemies(enemies: &mut Vec<EnemyData>, players: &Vec<&Json>)
    ensures
        enemy_views(final(enemies)@) == by_role(
            placed(enemy_views(old(enemies)@), ref_documents(players@)),
        ),
{
    let ghost before = enemy_views(enemies@);
    let ghost others = ref_documents(players@);
    let mut unsorted: Vec<EnemyData> = Vec::new();
    std::mem::swap(&mut unsorted, enemies);
    let mut reversed: Vec<(u8, EnemyData)> = Vec::new();
    let ghost whole = unsorted@;
    while unsorted.len() > 0
        invariant
            others == ref_documents(players@),
            unsorted@.len() <= whole.len(),
            unsorted@ == whole.take(unsorted@.len() as int),
            reversed@.len() == whole.len() - unsorted@.len(),
            forall|i: int|
                0 <= i < reversed@.len() ==> (#[trigger] reversed@[i]).0 <= NO_LANE_ORDER && (
                reversed@[i].0, reversed@[i].1@) == (
                    place_of(others, whole[whole.len() - 1 - i].champion_name@),
                    whole[whole.len() - 1 - i]@,
                ),
        decreases unsorted@.len(),
    {
        let ghost n = unsorted@.len() - 1;
        if let Some(enemy) = unsorted.pop() {
            assert(enemy == whole[n]);
            let place = read_place(players, enemy.champion_name.as_str());
            reversed.push((place, enemy));
        }
    }
    let mut list: Vec<(u8, EnemyData)> = Vec::new();
    let ghost back = reversed@;
    while reversed.len() > 0
        invariant
            reversed@.len() <= back.len(),
            reversed@ == back.take(reversed@.len() as int),
            list@.len() == back.len() - reversed@.len(),
            forall|i: int|
                0 <= i < list@.len() ==> #[trigger] list@[i] == back[back.len() - 1 - i],
        decreases reversed@.len(),
    {
        if let Some(item) = reversed.pop() {
            list.push(item);
        }
    }
    proof {
        assert forall|i: int| 0 <= i < list@.len() implies (#[trigger] list@[i]).0
            <= NO_LANE_ORDER by {
            assert(list@[i] == back[back.len() - 1 - i]);
        }
        assert(keyed_views(list@) =~= placed(before, others)) by {
            assert forall|i: int| 0 <= i < list@.len() implies keyed_views(list@)[i] == placed(
                before,
                others,
            )[i] by {
                assert(list@[i] == back[back.len() - 1 - i]);
                assert(before[i] == whole[i]@);
            }
        }
    }
    *enemies = sort_by_role(list);
}

/// Reads runes and spells of the enemies off the running game's data. Whether
/// there was anything to read; where not, nothing changes and it is asked again
/// later.
pub fn update_from_live_client(
    enemies: &mut Vec<EnemyData>,
    data: &Json,
    spells: &SpellRegistry,
) -> (done: bool)
    ensures
        done == (in_game(enemy_views(old(enemies)@), data@, spells.table()) is Some),
        match in_game(enemy_views(old(enemies)@), data@, spells.table()) {
            Some(after) => enemy_views(final(enemies)@) == after,
            None => *final(enemies) == *old(enemies),
        },
{
    let players = match data.array_at("allPlayers") {
        Some(players) => players,
        None => {
            return false;
        },
    };
    let me = match data.get("activePlayer") {
        Some(p) => read_label(p),
        None => "",
    };
    let my_team = read_team(players, me);
    let their_team = if text::same(my_team, "ORDER") {
        "CHAOS"
    } else {
        "ORDER"
    };
    let others = collect_team(players, their_team);
    let ghost docs = ref_documents(others@);
    assert(docs == opponents(data@, json::documents(players@)));
    if others.len() == 0 {
        return false;
    }
    let ghost table = spells.table();
    let ghost before = enemy_views(enemies@);
    if enemies.len() == 0 {
        let mut i: usize = 0;
        while i < others.len()
            invariant
                i <= others@.len(),
                docs == ref_documents(others@),
                table == spells.table(),
                enemy_views(enemies@) == docs.take(i as int).map_values(
                    |p: json::Document| enemy_in_game(p, table),
                ),
            decreases others@.len() - i,
        {
            let enemy = read_enemy(others[i], spells);
            let ghost was = enemy_views(enemies@);
            let ghost view = enemy@;
            enemies.push(enemy);
            proof {
                assert(enemy_views(enemies@) =~= was.push(view));
                assert(docs[i as int] == others@[i as int]@);
                assert(enemy_views(enemies@) =~= docs.take(i + 1).map_values(
                    |p: json::Document| enemy_in_game(p, table),
                ));
            }
            i += 1;
        }
        assert(docs.take(i as int) =~= docs);
    } else {
        let mut i: usize = 0;
        assert(docs.take(0) =~= Seq::empty());
        while i < others.len()
            invariant
                i <= others@.len(),
                docs == ref_documents(others@),
                table == spells.table(),
                enemy_views(enemies@) == merged(before, docs.take(i as int), table),
            decreases others@.len() - i,
        {
            proof {
                assert(docs.take(i + 1).drop_last() =~= docs.take(i as int));
                assert(docs.take(i + 1).last() == others@[i as int]@);
            }
            refresh_by(enemies, others[i], spells);
            i += 1;
        }
        assert(docs.take(i as int) =~= docs);
    }
    place_enemies(enemies, &others);
    true
}

// ── The state of the overlay ──

/// How often the running game is asked before giving up, and how far apart in
/// seconds.
pub const LIVE_CLIENT_ATTEMPTS: u32 = 30;

pub const LIVE_CLIENT_INTERVAL_SECS: u64 = 2;

/// What the overlay shows. The spells start as the fallback and are replaced
/// once the published ones arrive.
#[derive(Debug)]
pub struct OverlayState {
    pub enemies: Vec<EnemyData>,
    pub game_id: Option<String>,
    pub spells: SpellRegistry,
}

impl OverlayState {
    pub fn new() -> (r: Self)
        ensures
            r.enemies@.len() == 0,
            r.game_id is None,
            r.spells.table() == fallback_spells(spells::spell_table()),
    {
        OverlayState { enemies: Vec::new(), game_id: None, spells: SpellRegistry::fallback() }
    }
}

// ── Laws ──

proof fn lemma_keyed_contains<T>(list: Seq<(u8, T)>, key: u8, i: int)
    requires
        0 <= i < list.len(),
        list[i].0 == key,
    ensures
        keyed(list, key).contains(list[i].1),
    decreases list.len(),
{
    let out = keyed(list, key);
    if i == list.len() - 1 {
        assert(out[out.len() - 1] == list[i].1);
    } else {
        lemma_keyed_contains(list.drop_last(), key, i);
        let before = keyed(list.drop_last(), key);
        let w = choose|w: int| 0 <= w < before.len() && before[w] == list[i].1;
        assert(out[w] == list[i].1);
    }
}

proof fn lemma_keyed_lengths<T>(list: Seq<(u8, T)>)
    requires
        forall|i: int| 0 <= i < list.len() ==> (#[trigger] list[i]).0 <= NO_LANE_ORDER,
    ensures
        keyed(list, 0).len() + keyed(list, 1).len() + keyed(list, 2).len() + keyed(list, 3).len()
            + keyed(list, 4).len() + keyed(list, 5).len() == list.len(),
    decreases list.len(),
{
    if list.len() > 0 {
        let shorter = list.drop_last();
        assert forall|i: int| 0 <= i < shorter.len() implies (#[trigger] shorter[i]).0
            <= NO_LANE_ORDER by {
            assert(shorter[i] == list[i]);
        }
        lemma_keyed_lengths(shorter);
        assert(list[list.len() - 1].0 <= NO_LANE_ORDER);
    }
}

/// Sorting by role loses nobody and invents nobody.
pub proof fn law_sorting_by_role_keeps_everyone<T>(list: Seq<(u8, T)>, i: int)
    requires
        forall|j: int| 0 <= j < list.len() ==> (#[trigger] list[j]).0 <= NO_LANE_ORDER,
        0 <= i < list.len(),
    ensures
        by_role(list).contains(list[i].1),
        by_role(list).len() == list.len(),
{
    lemma_keyed_lengths(list);
    let key = list[i].0;
    lemma_keyed_contains(list, key, i);
    let part = keyed(list, key);
    let w = choose|w: int| 0 <= w < part.len() && part[w] == list[i].1;
    let k0 = keyed(list, 0).len() as int;
    let k1 = k0 + keyed(list, 1).len();
    let k2 = k1 + keyed(list, 2).len();
    let k3 = k2 + keyed(list, 3).len();
    let k4 = k3 + keyed(list, 4).len();
    let at = if key == 0 {
        w
    } else if key == 1 {
        k0 + w
    } else if key == 2 {
        k1 + w
    } else if key == 3 {
        k2 + w
    } else if key == 4 {
        k3 + w
    } else {
        k4 + w
    };
    assert(by_role(list)[at] == list[i].1);
}

/// The two ways of naming a lane sort alike, and no lane sorts last.
pub proof fn law_lane_names_agree(upper: Seq<char>)
    ensures
        upper_order("MID"@) == upper_order("MIDDLE"@),
        upper_order("ADC"@) == upper_order("BOTTOM"@),
        upper_order("SUPPORT"@) == upper_order("UTILITY"@),
        upper_order(upper) <= NO_LANE_ORDER,
{
    reveal_strlit("TOP");
    reveal_strlit("JUNGLE");
    reveal_strlit("MIDDLE");
    reveal_strlit("MID");
    reveal_strlit("BOTTOM");
    reveal_strlit("BOT");
    reveal_strlit("ADC");
    reveal_strlit("UTILITY");
    reveal_strlit("SUPPORT");
    reveal_strlit("SUP");
    assert("MID"@[0] == 'M' && "TOP"@[0] == 'T' && "ADC"@[0] == 'A' && "BOT"@[0] == 'B');
    assert("SUPPORT"@[0] == 'S' && "UTILITY"@[0] == 'U' && "BOTTOM"@[0] == 'B' && "MIDDLE"@[0]
        == 'M' && "JUNGLE"@[0] == 'J');
}

/// A spell's cooldown as the registry gives it for the spell's own id, three
/// hundred seconds where it knows none, less eighteen with Cosmic Insight.
pub open spec fn is_cooldown_of(
    table: Map<i32, SpellDataView>,
    id: i32,
    has_cosmic: bool,
    cooldown: u32,
) -> bool {
    let base: int = if table.contains_key(id) {
        table[id].cooldown as int
    } else {
        300
    };
    if !has_cosmic {
        cooldown == base
    } else if base < 18 {
        cooldown == 0
    } else {
        cooldown == base - 18
    }
}

/// Each of the two cooldowns is that of the very spell beside it.
pub open spec fn has_its_own_cooldowns(e: EnemyView, table: Map<i32, SpellDataView>) -> bool {
    &&& is_cooldown_of(table, e.spell1_id, e.has_cosmic_insight, e.spell1_cooldown)
    &&& is_cooldown_of(table, e.spell2_id, e.has_cosmic_insight, e.spell2_cooldown)
}

/// The same enemy with the two spells the other way round.
pub open spec fn swapped(e: EnemyView) -> EnemyView {
    EnemyView {
        spell1_id: e.spell2_id,
        spell2_id: e.spell1_id,
        spell1_name: e.spell2_name,
        spell2_name: e.spell1_name,
        spell1_icon: e.spell2_icon,
        spell2_icon: e.spell1_icon,
        spell1_cooldown: e.spell2_cooldown,
        spell2_cooldown: e.spell1_cooldown,
        ..e
    }
}

/// What the running game shows of a spell becomes the enemy's: the shown name, the
/// spell of that name, that spell's icon and its own cooldown. A spell that is not
/// shown stays, with its cooldown by the runes of now. Who the enemy is stays.
pub proof fn law_a_refresh_reads_each_spell(
    e: EnemyView,
    player: json::Document,
    table: Map<i32, SpellDataView>,
)
    ensures
        ({
            let after = refreshed(e, player, table);
            &&& after.champion_id == e.champion_id
            &&& after.champion_name == e.champion_name
            &&& has_its_own_cooldowns(after, table)
            &&& after.has_cosmic_insight == runs_rune(player, 8347)
            &&& after.has_unsealed_spellbook == runs_rune(player, 8360)
            &&& match spell_shown(player, "summonerSpellOne"@) {
                Some(shown) => after.spell1_name == shown && after.spell1_id == spell_id_of(
                    table,
                    text::lowercase(shown),
                ) && (table.contains_key(after.spell1_id) ==> after.spell1_icon
                    == table[after.spell1_id].icon_url),
                None => after.spell1_name == e.spell1_name && after.spell1_id == e.spell1_id
                    && after.spell1_icon == e.spell1_icon,
            }
            &&& match spell_shown(player, "summonerSpellTwo"@) {
                Some(shown) => after.spell2_name == shown && after.spell2_id == spell_id_of(
                    table,
                    text::lowercase(shown),
                ) && (table.contains_key(after.spell2_id) ==> after.spell2_icon
                    == table[after.spell2_id].icon_url),
                None => after.spell2_name == e.spell2_name && after.spell2_id == e.spell2_id
                    && after.spell2_icon == e.spell2_icon,
            }
        }),
{
}

/// Two players who show the same spells the other way round, under the same runes,
/// make the same enemy with ids, names, icons and cooldowns the other way round.
pub proof fn law_swapping_the_spells_swaps_everything(
    e: EnemyView,
    p: json::Document,
    q: json::Document,
    table: Map<i32, SpellDataView>,
)
    requires
        spell_shown(p, "summonerSpellOne"@) == spell_shown(q, "summonerSpellTwo"@),
        spell_shown(p, "summonerSpellTwo"@) == spell_shown(q, "summonerSpellOne"@),
        runs_rune(p, spells::COSMIC_INSIGHT_ID) == runs_rune(q, spells::COSMIC_INSIGHT_ID),
        runs_rune(p, spells::UNSEALED_SPELLBOOK_ID) == runs_rune(q, spells::UNSEALED_SPELLBOOK_ID),
        p.string_or("championName"@, "Unknown"@) == q.string_or("championName"@, "Unknown"@),
    ensures
        refreshed(swapped(e), q, table) == swapped(refreshed(e, p, table)),
        enemy_in_game(q, table) == swapped(enemy_in_game(p, table)),
{
}

/// A shown spell is what the game shows under that spell's display name.
pub proof fn law_where_a_shown_spell_stands(player: json::Document, which: Seq<char>)
    ensures
        spell_shown(player, which) matches Some(shown) ==> {
            &&& player.member("summonerSpells"@) is Some
            &&& player.member("summonerSpells"@)->0.member(which) is Some
            &&& player.member("summonerSpells"@)->0.member(which)->0.string_at("displayName"@)
                == Some(shown)
        },
        player.member("summonerSpells"@) matches Some(shown) ==> (shown.member(which) matches Some(
            spell,
        ) ==> spell_shown(player, which) == spell.string_at("displayName"@)),
{
}

/// A rune counts as the keystone or as any of the others, wherever it stands among
/// them.
pub proof fn law_where_a_rune_counts(
    player: json::Document,
    runes: json::Document,
    rune_id: i32,
    i: int,
)
    requires
        player.member("runes"@) == Some(runes),
    ensures
        runes.member("keystone"@) matches Some(keystone) ==> (keystone.int_at("id"@) == Some(
            rune_id as i64,
        ) ==> runs_rune(player, rune_id)),
        runes.array_at("generalRunes"@) matches Some(general) ==> (0 <= i < general.len()
            && general[i].int_at("id"@) == Some(rune_id as i64) ==> runs_rune(player, rune_id)),
        runs_rune(player, rune_id) ==> {
            ||| runes.member("keystone"@) is Some && runes.member("keystone"@)->0.int_at("id"@)
                == Some(rune_id as i64)
            ||| runes.array_at("generalRunes"@) is Some && exists|k: int|
                0 <= k < runes.array_at("generalRunes"@)->0.len() && (
                #[trigger] runes.array_at("generalRunes"@)->0[k]).int_at("id"@) == Some(
                    rune_id as i64,
                )
        },
{
}

/// An enemy known from the game alone plays the champion it names and brought the
/// spells it shows, each with its own cooldown.
pub proof fn law_an_enemy_of_the_game(player: json::Document, table: Map<i32, SpellDataView>)
    ensures
        ({
            let e = enemy_in_game(player, table);
            &&& e.champion_name == player.string_or("championName"@, "Unknown"@)
            &&& has_its_own_cooldowns(e, table)
            &&& e.has_cosmic_insight == runs_rune(player, 8347)
            &&& e.has_unsealed_spellbook == runs_rune(player, 8360)
            &&& spell_shown(player, "summonerSpellOne"@) matches Some(shown) ==> e.spell1_name
                == shown && (shown.len() > 0 ==> e.spell1_id == spell_id_of(
                table,
                text::lowercase(shown),
            ))
            &&& spell_shown(player, "summonerSpellTwo"@) matches Some(shown) ==> e.spell2_name
                == shown && (shown.len() > 0 ==> e.spell2_id == spell_id_of(
                table,
                text::lowercase(shown),
            ))
            &&& table.contains_key(e.spell1_id) ==> e.spell1_icon == table[e.spell1_id].icon_url
            &&& table.contains_key(e.spell2_id) ==> e.spell2_icon == table[e.spell2_id].icon_url
        }),
{
}

/// An enemy of the draft has a locked champion, goes by its name, brought the
/// spells of the session with their own cooldowns, and no runes are known yet.
pub proof fn law_an_enemy_of_the_draft(
    player: json::Document,
    names: Map<i32, Seq<char>>,
    table: Map<i32, SpellDataView>,
)
    ensures
        enemy_in_draft(player, names, table) is Some <==> (player.int_at("championId"@) matches Some(
            id,
        ) && id as i32 > 0),
        enemy_in_draft(player, names, table) matches Some((order, e)) ==> {
            &&& order == order_of(player.string_or("assignedPosition"@, ""@))
            &&& Some(e.champion_id) == match player.int_at("championId"@) {
                Some(id) => Some(id as i32),
                None => None,
            }
            &&& names.contains_key(e.champion_id) ==> e.champion_name == names[e.champion_id]
            &&& !e.has_cosmic_insight && !e.has_unsealed_spellbook
            &&& has_its_own_cooldowns(e, table)
            &&& player.int_at("spell1Id"@) matches Some(id) ==> e.spell1_id == id as i32
            &&& player.int_at("spell2Id"@) matches Some(id) ==> e.spell2_id == id as i32
            &&& table.contains_key(e.spell1_id) ==> e.spell1_name == table[e.spell1_id].name
                && e.spell1_icon == table[e.spell1_id].icon_url
            &&& table.contains_key(e.spell2_id) ==> e.spell2_name == table[e.spell2_id].name
                && e.spell2_icon == table[e.spell2_id].icon_url
        },
{
}

/// Everyone of the other team with a locked champion is shown, and nobody else.
pub proof fn law_every_locked_enemy_is_shown(
    team: Seq<json::Document>,
    names: Map<i32, Seq<char>>,
    table: Map<i32, SpellDataView>,
)
    ensures
        enemies_in_draft(team, names, table) == team.filter_map(
            |p: json::Document| enemy_in_draft(p, names, table),
        ),
    decreases team.len(),
{
    if team.len() > 0 {
        law_every_locked_enemy_is_shown(team.drop_last(), names, table);
        let f = |p: json::Document| enemy_in_draft(p, names, table);
        if let Some(e) = enemy_in_draft(team.last(), names, table) {
            assert(team.drop_last().filter_map(f) + seq![e] =~= team.drop_last().filter_map(f).push(
                e,
            ));
        }
    }
}

/// No two enemies go by the same champion.
pub open spec fn distinct_champions(enemies: Seq<EnemyView>) -> bool {
    forall|i: int, j: int|
        0 <= i < j < enemies.len() ==> (#[trigger] enemies[i]).champion_name != (
        #[trigger] enemies[j]).champion_name
}

/// Some player plays this champion.
pub open spec fn played(players: Seq<json::Document>, champion: Seq<char>) -> bool {
    exists|j: int|
        0 <= j < players.len() && (#[trigger] players[j]).string_or("championName"@, ""@)
            == champion
}

proof fn lemma_merged(
    enemies: Seq<EnemyView>,
    players: Seq<json::Document>,
    table: Map<i32, SpellDataView>,
)
    requires
        distinct_champions(enemies),
    ensures
        merged(enemies, players, table).len() == enemies.len(),
        forall|i: int|
            0 <= i < enemies.len() ==> (#[trigger] merged(enemies, players, table)[i]).champion_name
                == enemies[i].champion_name && merged(enemies, players, table)[i].champion_id
                == enemies[i].champion_id,
        forall|i: int|
            0 <= i < enemies.len() && played(players, enemies[i].champion_name)
                ==> has_its_own_cooldowns(#[trigger] merged(enemies, players, table)[i], table),
        forall|i: int|
            0 <= i < enemies.len() && !played(players, enemies[i].champion_name) ==> (
            #[trigger] merged(enemies, players, table)[i]) == enemies[i],
    decreases players.len(),
{
    if players.len() > 0 {
        let shorter = players.drop_last();
        lemma_merged(enemies, shorter, table);
        let before = merged(enemies, shorter, table);
        let after = merged(enemies, players, table);
        let champion = players.last().string_or("championName"@, ""@);
        assert forall|i: int| 0 <= i < enemies.len() implies (#[trigger] after[i]).champion_name
            == enemies[i].champion_name && after[i].champion_id == enemies[i].champion_id && (played(
            players,
            enemies[i].champion_name,
        ) ==> has_its_own_cooldowns(after[i], table)) && (!played(
            players,
            enemies[i].champion_name,
        ) ==> after[i] == enemies[i]) by {
            assert(before[i].champion_name == enemies[i].champion_name);
            if enemies[i].champion_name == champion {
                assert forall|j: int| 0 <= j < i implies (#[trigger] before[j]).champion_name
                    != champion by {
                    assert(before[j].champion_name == enemies[j].champion_name);
                    assert(enemies[j].champion_name != enemies[i].champion_name);
                }
                assert(first_playing(before, champion, i));
                let k = choose|k: int| first_playing(before, champion, k);
                assert(k == i) by {
                    if k < i {
                        assert(before[k].champion_name != champion);
                    }
                    if i < k {
                        assert(before[i].champion_name != champion);
                    }
                }
                assert(after[i] == refreshed(before[i], players.last(), table));
                assert(players[players.len() - 1].string_or("championName"@, ""@) == champion);
            } else {
                assert(after[i] == before[i]) by {
                    if exists|k: int| first_playing(before, champion, k) {
                        let k = choose|k: int| first_playing(before, champion, k);
                        assert(before[k].champion_name == champion);
                    }
                }
                if played(players, enemies[i].champion_name) {
                    let j = choose|j: int|
                        0 <= j < players.len() && (#[trigger] players[j]).string_or(
                            "championName"@,
                            ""@,
                        ) == enemies[i].champion_name;
                    assert(shorter[j] == players[j]);
                    assert(played(shorter, enemies[i].champion_name));
                } else if played(shorter, enemies[i].champion_name) {
                    let j = choose|j: int|
                        0 <= j < shorter.len() && (#[trigger] shorter[j]).string_or(
                            "championName"@,
                            ""@,
                        ) == enemies[i].champion_name;
                    assert(players[j] == shorter[j]);
                }
            }
        }
    }
}

proof fn lemma_keyed_from<T>(list: Seq<(u8, T)>, key: u8)
    ensures
        forall|w: int|
            0 <= w < keyed(list, key).len() ==> list.contains((key, #[trigger] keyed(list, key)[w])),
    decreases list.len(),
{
    if list.len() > 0 {
        let shorter = list.drop_last();
        lemma_keyed_from(shorter, key);
        let out = keyed(list, key);
        let before = keyed(shorter, key);
        assert forall|w: int| 0 <= w < out.len() implies list.contains((key, #[trigger] out[w])) by {
            if w < before.len() {
                assert(out[w] == before[w]);
                assert(shorter.contains((key, before[w])));
                let i = choose|i: int| 0 <= i < shorter.len() && shorter[i] == (key, before[w]);
                assert(list[i] == (key, out[w]));
            } else {
                assert(list[list.len() - 1] == (key, out[w]));
            }
        }
    }
}

/// Where the parts of a list by role begin.
spec fn role_start<T>(list: Seq<(u8, T)>, key: u8) -> int
    decreases key,
{
    if key == 0 {
        0
    } else {
        role_start(list, (key - 1) as u8) + keyed(list, (key - 1) as u8).len()
    }
}

proof fn lemma_by_role_at<T>(list: Seq<(u8, T)>, at: int) -> (key: u8)
    requires
        0 <= at < by_role(list).len(),
    ensures
        key <= NO_LANE_ORDER,
        role_start(list, key) <= at < role_start(list, key) + keyed(list, key).len(),
        by_role(list)[at] == keyed(list, key)[at - role_start(list, key)],
{
    reveal_with_fuel(role_start, 7);
    if at < role_start(list, 1) {
        0
    } else if at < role_start(list, 2) {
        1
    } else if at < role_start(list, 3) {
        2
    } else if at < role_start(list, 4) {
        3
    } else if at < role_start(list, 5) {
        4
    } else {
        5
    }
}

proof fn lemma_role_starts<T>(list: Seq<(u8, T)>, a: u8, b: u8)
    requires
        a < b,
    ensures
        role_start(list, a) + keyed(list, a).len() <= role_start(list, b),
    decreases b,
{
    if a + 1 < b {
        lemma_role_starts(list, a, (b - 1) as u8);
    }
}

/// Everyone in a list by role was in the list.
proof fn lemma_by_role_from<T>(list: Seq<(u8, T)>, at: int) -> (key: u8)
    requires
        0 <= at < by_role(list).len(),
    ensures
        key <= NO_LANE_ORDER,
        list.contains((key, by_role(list)[at])),
        role_start(list, key) <= at < role_start(list, key) + keyed(list, key).len(),
{
    let key = lemma_by_role_at(list, at);
    lemma_keyed_from(list, key);
    assert(list.contains((key, keyed(list, key)[at - role_start(list, key)])));
    key
}

/// By role means in the order of the roles: whoever stands earlier has no later
/// role, where every item carries its own role.
pub proof fn law_by_role_is_in_order<T>(list: Seq<(u8, (u8, T))>, i: int, j: int)
    requires
        forall|k: int| 0 <= k < list.len() ==> (#[trigger] list[k]).0 == list[k].1.0,
        0 <= i < j < by_role(list).len(),
    ensures
        by_role(list)[i].0 <= by_role(list)[j].0,
{
    let a = lemma_by_role_from(list, i);
    let b = lemma_by_role_from(list, j);
    let x = choose|x: int| 0 <= x < list.len() && list[x] == (a, by_role(list)[i]);
    let y = choose|y: int| 0 <= y < list.len() && list[y] == (b, by_role(list)[j]);
    assert(list[x].0 == list[x].1.0);
    assert(list[y].0 == list[y].1.0);
    if b < a {
        lemma_role_starts(list, b, a);
    }
}

/// Within a role everyone keeps their place: what stands under a key is what the
/// list holds under it, in the order of the list.
pub proof fn law_a_role_keeps_its_order<T>(list: Seq<(u8, T)>, key: u8)
    ensures
        keyed(list, key) == list.filter_map(
            |p: (u8, T)|
                if p.0 == key {
                    Some(p.1)
                } else {
                    None
                },
        ),
    decreases list.len(),
{
    let f = |p: (u8, T)|
        if p.0 == key {
            Some(p.1)
        } else {
            None
        };
    if list.len() > 0 {
        law_a_role_keeps_its_order(list.drop_last(), key);
        let before = list.drop_last().filter_map(f);
        assert(before + seq![list.last().1] =~= before.push(list.last().1));
    }
}

/// Top comes first, then jungle, middle, bottom and support, and whoever has no
/// lane comes last, by whichever name the lane goes.
pub proof fn law_the_order_of_the_lanes(upper: Seq<char>)
    ensures
        upper_order("TOP"@) < upper_order("JUNGLE"@) < upper_order("MIDDLE"@) < upper_order(
            "BOTTOM"@,
        ) < upper_order("UTILITY"@),
        upper_order("MID"@) == upper_order("MIDDLE"@),
        upper_order("BOT"@) == upper_order("BOTTOM"@),
        upper_order("ADC"@) == upper_order("BOTTOM"@),
        upper_order("SUPPORT"@) == upper_order("UTILITY"@),
        upper_order("SUP"@) == upper_order("UTILITY"@),
        ({
            ||| upper == "TOP"@
            ||| upper == "JUNGLE"@
            ||| upper == "MIDDLE"@
            ||| upper == "MID"@
            ||| upper == "BOTTOM"@
            ||| upper == "BOT"@
            ||| upper == "ADC"@
            ||| upper == "UTILITY"@
            ||| upper == "SUPPORT"@
            ||| upper == "SUP"@
            ||| upper_order(upper) > upper_order("UTILITY"@)
        }),
        upper_order(upper) <= NO_LANE_ORDER,
{
    law_lane_names_agree(upper);
    reveal_strlit("TOP");
    reveal_strlit("JUNGLE");
    reveal_strlit("MIDDLE");
    reveal_strlit("MID");
    reveal_strlit("BOTTOM");
    reveal_strlit("BOT");
    reveal_strlit("ADC");
    reveal_strlit("UTILITY");
    reveal_strlit("SUPPORT");
    reveal_strlit("SUP");
    assert("MID"@[0] == 'M' && "TOP"@[0] == 'T' && "ADC"@[0] == 'A' && "BOT"@[0] == 'B'
        && "SUP"@[0] == 'S' && "SUPPORT"@[0] == 'S' && "UTILITY"@[0] == 'U' && "BOTTOM"@[0] == 'B'
        && "MIDDLE"@[0] == 'M' && "JUNGLE"@[0] == 'J');
}

/// Once the running game has been read, every enemy whose champion is played on
/// the other team has, for both spells alike, the cooldown of that very spell.
/// Where nobody was known before, everyone of the other team has.
pub proof fn law_the_running_game_gives_each_spell_its_cooldown(
    enemies: Seq<EnemyView>,
    data: json::Document,
    table: Map<i32, SpellDataView>,
    at: int,
)
    requires
        distinct_champions(enemies),
        data.array_at("allPlayers"@) is Some,
        in_game(enemies, data, table) is Some,
        0 <= at < in_game(enemies, data, table)->0.len(),
    ensures
        ({
            let x = in_game(enemies, data, table)->0[at];
            let others = opponents(data, data.array_at("allPlayers"@)->0);
            enemies.len() == 0 || played(others, x.champion_name) ==> has_its_own_cooldowns(
                x,
                table,
            )
        }),
{
    let others = opponents(data, data.array_at("allPlayers"@)->0);
    let known = if enemies.len() == 0 {
        others.map_values(|p: json::Document| enemy_in_game(p, table))
    } else {
        merged(enemies, others, table)
    };
    let list = placed(known, others);
    let key = lemma_by_role_from(list, at);
    let x = by_role(list)[at];
    let i = choose|i: int| 0 <= i < list.len() && list[i] == (key, x);
    assert(known[i] == x);
    if enemies.len() == 0 {
        law_an_enemy_of_the_game(others[i], table);
    } else {
        lemma_merged(enemies, others, table);
    }
}

proof fn lemma_place_is_small(players: Seq<json::Document>, champion: Seq<char>)
    ensures
        place_of(players, champion) <= NO_LANE_ORDER,
    decreases players.len(),
{
    if players.len() > 0 {
        law_lane_names_agree(text::uppercase(players[0].string_or("position"@, ""@)));
        lemma_place_is_small(players.drop_first(), champion);
    }
}

/// The running game loses none of the enemies known before and invents none; who
/// plays a champion that nobody on the other team plays stays as they were.
pub proof fn law_the_running_game_keeps_everyone(
    enemies: Seq<EnemyView>,
    data: json::Document,
    table: Map<i32, SpellDataView>,
    i: int,
)
    requires
        distinct_champions(enemies),
        data.array_at("allPlayers"@) is Some,
        in_game(enemies, data, table) is Some,
        0 <= i < enemies.len(),
    ensures
        ({
            let after = in_game(enemies, data, table)->0;
            let others = opponents(data, data.array_at("allPlayers"@)->0);
            &&& after.len() == enemies.len()
            &&& exists|at: int|
                0 <= at < after.len() && (#[trigger] after[at]).champion_name
                    == enemies[i].champion_name
            &&& !played(others, enemies[i].champion_name) ==> after.contains(enemies[i])
        }),
{
    let others = opponents(data, data.array_at("allPlayers"@)->0);
    let known = merged(enemies, others, table);
    let list = placed(known, others);
    lemma_merged(enemies, others, table);
    assert forall|j: int| 0 <= j < list.len() implies (#[trigger] list[j]).0 <= NO_LANE_ORDER by {
        lemma_place_is_small(others, known[j].champion_name);
    }
    law_sorting_by_role_keeps_everyone(list, i);
    let after = by_role(list);
    assert(list[i].1 == known[i]);
    let at = choose|at: int| 0 <= at < after.len() && after[at] == known[i];
    assert(known[i].champion_name == enemies[i].champion_name);
    assert(in_game(enemies, data, table) == Some(after));
    assert(after[at].champion_name == enemies[i].champion_name);
    if !played(others, enemies[i].champion_name) {
        assert(merged(enemies, others, table)[i] == enemies[i]);
    }
}

proof fn lemma_team_of(players: Seq<json::Document>, name: Seq<char>, me: int)
    requires
        0 <= me < players.len(),
        label_text(player_label(players[me])) == name,
        forall|j: int| 0 <= j < me ==> label_text(player_label(#[trigger] players[j])) != name,
    ensures
        team_of(players, name) == players[me].string_or("team"@, "ORDER"@),
    decreases players.len(),
{
    if me > 0 {
        let rest = players.drop_first();
        assert(label_text(player_label(players[0])) != name);
        assert forall|j: int| 0 <= j < me - 1 implies label_text(player_label(#[trigger] rest[j]))
            != name by {
            assert(rest[j] == players[j + 1]);
        }
        lemma_team_of(rest, name, me - 1);
    }
}

/// The players of a team are those that the game puts on it, in their order.
pub proof fn law_who_is_on_a_team(players: Seq<json::Document>, team: Seq<char>)
    ensures
        on_team(players, team) == players.filter(
            |p: json::Document| p.string_or("team"@, ""@) == team,
        ),
    decreases players.len(),
{
    reveal(Seq::filter);
    if players.len() > 0 {
        law_who_is_on_a_team(players.drop_last(), team);
    }
}

/// The enemies are the players of the team that I am not on: I am the player who
/// goes by the name of whoever plays at this machine.
pub proof fn law_the_enemies_are_the_other_team(
    data: json::Document,
    players: Seq<json::Document>,
    me: int,
)
    requires
        0 <= me < players.len(),
        label_text(player_label(players[me])) == active_name(data),
        forall|j: int|
            0 <= j < me ==> label_text(player_label(#[trigger] players[j])) != active_name(data),
    ensures
        players[me].string_or("team"@, "ORDER"@) == "ORDER"@ ==> opponents(data, players)
            == players.filter(|p: json::Document| p.string_or("team"@, ""@) == "CHAOS"@),
        players[me].string_or("team"@, "ORDER"@) != "ORDER"@ ==> opponents(data, players)
            == players.filter(|p: json::Document| p.string_or("team"@, ""@) == "ORDER"@),
{
    lemma_team_of(players, active_name(data), me);
    law_who_is_on_a_team(players, "CHAOS"@);
    law_who_is_on_a_team(players, "ORDER"@);
}

/// Players go by their Riot ID where the game gives one, else by their summoner
/// name, and so does whoever plays at this machine.
pub proof fn law_what_a_player_goes_by(data: json::Document, p: json::Document)
    ensures
        data.member("activePlayer"@) == Some(p) ==> active_name(data) == label_text(
            player_label(p),
        ),
        p.member("riotIdGameName"@) matches Some(id) ==> (id.string() matches Some(name)
            ==> label_text(player_label(p)) == name),
        p.member("riotIdGameName"@) is None ==> (p.member("summonerName"@) matches Some(id) ==> (
        id.string() matches Some(name) ==> label_text(player_label(p)) == name)),
{
}

/// A spell is known by its own name, whatever its case; of several by the same
/// name, by the smallest id. The variants of Flash and Teleport go by their own
/// aliases, and a name that fits nothing is no spell.
pub proof fn law_a_spell_is_known_by_its_name(
    table: Map<i32, SpellDataView>,
    lowered: Seq<char>,
    id: i32,
)
    ensures
        table.contains_key(4) && (lowered == "flash"@ || lowered == "hexflash"@) ==> spell_id_of(
            table,
            lowered,
        ) == 4,
        table.contains_key(12) && lowered == "unleashed teleport"@ ==> spell_id_of(table, lowered)
            == 12,
        ({
            &&& table.contains_key(id)
            &&& text::lowercase(table[id].name) == lowered
            &&& lowered != "flash"@ && lowered != "hexflash"@ && lowered != "unleashed teleport"@
            &&& forall|j: i32|
                table.contains_key(j) && text::lowercase((#[trigger] table[j]).name) == lowered
                    ==> id <= j
        }) ==> spell_id_of(table, lowered) == id,
        ({
            &&& lowered != "flash"@ && lowered != "hexflash"@ && lowered != "unleashed teleport"@
            &&& forall|j: i32|
                table.contains_key(j) ==> text::lowercase((#[trigger] table[j]).name) != lowered
                    && !text::occurs(lowered, text::lowercase(table[j].name))
        }) ==> spell_id_of(table, lowered) == 0,
{
    reveal_strlit("flash");
    reveal_strlit("hexflash");
    reveal_strlit("unleashed teleport");
    assert("flash"@.len() == 5 && "hexflash"@.len() == 8 && "unleashed teleport"@.len() == 18);
    if table.contains_key(id) && text::lowercase(table[id].name) == lowered && (forall|j: i32|
        table.contains_key(j) && text::lowercase((#[trigger] table[j]).name) == lowered ==> id
            <= j) {
        assert forall|j: int| i32::MIN <= j < id implies !(#[trigger] called(
            table,
            lowered,
            j as i32,
        )) by {
            if called(table, lowered, j as i32) {
                assert(text::lowercase(table[j as i32].name) == lowered);
            }
        }
        assert(first_called(table, lowered, id));
        let other = choose|other: i32| first_called(table, lowered, other);
        if other < id {
            assert(called(table, lowered, other as int as i32));
        }
        if id < other {
            assert(called(table, lowered, id as int as i32));
        }
    }
    if forall|j: i32|
        table.contains_key(j) ==> text::lowercase((#[trigger] table[j]).name) != lowered
            && !text::occurs(lowered, text::lowercase(table[j].name)) {
        assert forall|j: i32| !first_called(table, lowered, j) && !first_called_in(
            table,
            lowered,
            j,
        ) by {
            if table.contains_key(j) {
                assert(text::lowercase(table[j].name) != lowered);
            }
        }
    }
}

/// A published spell is read off the last row with its id: its name, its icon and
/// its cooldown, three hundred seconds where the row gives none.
pub proof fn law_a_published_spell_is_read(rows: Seq<json::Document>, i: int)
    requires
        0 <= i < rows.len(),
        rows[i].int_at("id"@) is Some,
        forall|j: int|
            i < j < rows.len() ==> match (#[trigger] rows[j]).int_at("id"@) {
                Some(id) => id as i32 != rows[i].int_at("id"@)->0 as i32,
                None => true,
            },
    ensures
        ({
            let id = rows[i].int_at("id"@)->0 as i32;
            let spell = published_spells(rows)[id];
            &&& published_spells(rows).contains_key(id)
            &&& spell.name == rows[i].string_or("name"@, "Unknown"@)
            &&& rows[i].member("cooldown"@) is None ==> spell.cooldown == 300
            &&& rows[i].member("cooldown"@) matches Some(m) ==> match m.uint64() {
                Some(secs) => spell.cooldown == secs as u32,
                None => spell.cooldown == 300,
            }
            &&& spell.icon_url == icon_of_path(rows[i].string_or("iconPath"@, ""@))
        }),
    decreases rows.len(),
{
    if i < rows.len() - 1 {
        let shorter = rows.drop_last();
        assert(shorter[i] == rows[i]);
        assert forall|j: int| i < j < shorter.len() implies match (#[trigger] shorter[j]).int_at(
            "id"@,
        ) {
            Some(id) => id as i32 != shorter[i].int_at("id"@)->0 as i32,
            None => true,
        } by {
            assert(shorter[j] == rows[j]);
        }
        law_a_published_spell_is_read(shorter, i);
        assert(rows[rows.len() - 1] == rows.last());
    }
}

/// What is known of a spell without asking anyone is its name and its cooldown.
pub proof fn law_a_built_in_spell_is_known(table: Seq<spells::SpellView>, i: int)
    requires
        0 <= i < table.len(),
        forall|j: int| i < j < table.len() ==> (#[trigger] table[j]).id != table[i].id,
    ensures
        fallback_spells(table).contains_key(table[i].id),
        fallback_spells(table)[table[i].id].name == table[i].name,
        fallback_spells(table)[table[i].id].cooldown == table[i].base_cooldown,
    decreases table.len(),
{
    if i < table.len() - 1 {
        let shorter = table.drop_last();
        assert(shorter[i] == table[i]);
        assert forall|j: int| i < j < shorter.len() implies (#[trigger] shorter[j]).id
            != shorter[i].id by {
            assert(shorter[j] == table[j]);
        }
        law_a_built_in_spell_is_known(shorter, i);
        assert(table[table.len() - 1].id != table[i].id);
    }
}

proof fn lemma_place_of(players: Seq<json::Document>, champion: Seq<char>, i: int)
    requires
        0 <= i < players.len(),
        players[i].string_or("championName"@, ""@) == champion,
        forall|j: int|
            0 <= j < i ==> (#[trigger] players[j]).string_or("championName"@, ""@) != champion,
    ensures
        place_of(players, champion) == order_of(players[i].string_or("position"@, ""@)),
    decreases players.len(),
{
    if i > 0 {
        let rest = players.drop_first();
        assert(players[0].string_or("championName"@, ""@) != champion);
        assert forall|j: int| 0 <= j < i - 1 implies (#[trigger] rest[j]).string_or(
            "championName"@,
            ""@,
        ) != champion by {
            assert(rest[j] == players[j + 1]);
        }
        lemma_place_of(rest, champion, i - 1);
    }
}

/// An enemy's place is that of the position which the game gives whoever plays their
/// champion.
pub proof fn law_the_place_of_an_enemy(players: Seq<json::Document>, champion: Seq<char>, i: int)
    requires
        0 <= i < players.len(),
        players[i].string_or("championName"@, ""@) == champion,
        forall|j: int|
            0 <= j < i ==> (#[trigger] players[j]).string_or("championName"@, ""@) != champion,
    ensures
        place_of(players, champion) == upper_order(
            text::uppercase(players[i].string_or("position"@, ""@)),
        ),
{
    lemma_place_of(players, champion, i);
}

/// The enemies of the running game stand in the order of their places.
pub proof fn law_the_running_game_is_in_lane_order(
    enemies: Seq<EnemyView>,
    data: json::Document,
    table: Map<i32, SpellDataView>,
    i: int,
    j: int,
)
    requires
        data.array_at("allPlayers"@) is Some,
        in_game(enemies, data, table) is Some,
        0 <= i < j < in_game(enemies, data, table)->0.len(),
    ensures
        ({
            let others = opponents(data, data.array_at("allPlayers"@)->0);
            let after = in_game(enemies, data, table)->0;
            place_of(others, after[i].champion_name) <= place_of(others, after[j].champion_name)
        }),
{
    let others = opponents(data, data.array_at("allPlayers"@)->0);
    let known = if enemies.len() == 0 {
        others.map_values(|p: json::Document| enemy_in_game(p, table))
    } else {
        merged(enemies, others, table)
    };
    let list = placed(known, others);
    let a = lemma_by_role_from(list, i);
    let b = lemma_by_role_from(list, j);
    let x = choose|x: int| 0 <= x < list.len() && list[x] == (a, by_role(list)[i]);
    let y = choose|y: int| 0 <= y < list.len() && list[y] == (b, by_role(list)[j]);
    assert(list[x] == (place_of(others, known[x].champion_name), known[x]));
    assert(list[y] == (place_of(others, known[y].champion_name), known[y]));
    if b < a {
        lemma_role_starts(list, b, a);
    }
}

/// The running game says something useful exactly where it lists players of the other
/// team.
pub proof fn law_when_the_running_game_is_useful(
    enemies: Seq<EnemyView>,
    data: json::Document,
    table: Map<i32, SpellDataView>,
)
    ensures
        in_game(enemies, data, table) is Some <==> (data.array_at("allPlayers"@) matches Some(
            players,
        ) && opponents(data, players).len() > 0),
        enemies.len() == 0 ==> (data.array_at("allPlayers"@) matches Some(players) ==> (in_game(
            enemies,
            data,
            table,
        ) matches Some(after) ==> after.len() == opponents(data, players).len())),
{
    if let Some(players) = data.array_at("allPlayers"@) {
        let others = opponents(data, players);
        if enemies.len() == 0 && others.len() > 0 {
            let known = others.map_values(|p: json::Document| enemy_in_game(p, table));
            let list = placed(known, others);
            assert forall|k: int| 0 <= k < list.len() implies (#[trigger] list[k]).0
                <= NO_LANE_ORDER by {
                lemma_place_is_small(others, known[k].champion_name);
            }
            law_sorting_by_role_keeps_everyone(list, 0);
        }
    }
}

/// An icon of the published kind lies under the published game data, at its own path in
/// lower case; any other path has none.
pub proof fn law_where_an_icon_lies(rest: Seq<char>, path: Seq<char>)
    ensures
        icon_of_path("/lol-game-data/assets/"@ + rest) == CD_BASE@ + text::lowercase(rest),
        !"/lol-game-data/assets/"@.is_prefix_of(path) ==> icon_of_path(path).len() == 0,
{
    let prefix = "/lol-game-data/assets/"@;
    assert((prefix + rest).take(prefix.len() as int) =~= prefix);
    assert(prefix.is_prefix_of(prefix + rest));
    assert((prefix + rest).skip(prefix.len() as int) =~= rest);
}

/// A champion goes by its own name, and by its id where the name is not known.
pub proof fn law_what_a_champion_goes_by(names: Map<i32, Seq<char>>, id: i32)
    ensures
        names.contains_key(id) ==> champion_label(names, id) == names[id],
        !names.contains_key(id) ==> champion_label(names, id) == "Champion "@ + text::decimal_int(
            id as int,
        ),
{
}

} // verus!

//! What the user has configured: switches, delays and champion lists.

use crate::champions;
use crate::names;
use crate::names::NameMap;
use crate::text;
use crate::time::Seconds;
use vstd::prelude::*;

verus! {

/// The mode key holding entries that apply in **every** game mode.
///
/// This is the escape hatch from per-mode memory: "always ban K'Sante, whatever
/// we're playing" lives here, while a Zac picked in Arena stays in Arena.
pub const GLOBAL_MODE: &'static str = "*";

/// Where entries go when no lobby is open and there is no mode to attribute
/// them to. Summoner's Rift is the resting state of the client.
pub const DEFAULT_MODE: &'static str = "CLASSIC";

/// The Arena game mode, the only place a Bravery entry can be used.
pub const ARENA_MODE: &'static str = "CHERRY";

/// The list entry that means "let Arena roll the champion for me".
///
/// Bravery is not a champion and never resolves through the champion table; it
/// is matched by name here and turned into the client's sentinel below. As a
/// list entry it can be ordered and made one-shot like any other: "Bravery,
/// just this game, otherwise Zac".
pub const BRAVERY_ENTRY: &'static str = "Bravery";

/// The championId the client itself recognises for a Bravery commit.
pub const BRAVERY_ID: i32 = -3;

/// Enough to cover a session's worth of champions without the row wrapping
/// past a couple of lines.
pub const MAX_RECENTS: usize = 8;

// ── Champion names ──

/// Two list entries name the same champion. "Kai'Sa" and "kaisa" are one entry
/// rather than two of which the second could never be reached.
pub open spec fn same_champion_spec(a: Seq<char>, b: Seq<char>) -> bool {
    champions::normalized(a) == champions::normalized(b)
}

pub fn same_champion(a: &str, b: &str) -> (r: bool)
    ensures
        r == same_champion_spec(a@, b@),
{
    champions::normalize(a) == champions::normalize(b)
}

pub fn is_bravery(name: &str) -> (r: bool)
    ensures
        r == same_champion_spec(name@, BRAVERY_ENTRY@),
{
    same_champion(name, BRAVERY_ENTRY)
}

// ── Roles ──

#[derive(Clone, Copy, PartialEq, Eq, Debug, Structural)]
pub enum Lane {
    Top,
    Jungle,
    Middle,
    Bottom,
    Utility,
}

/// The lane that a role name means. The champ-select session says "middle"; the
/// Live Client API and some queues say "mid". Everything that is no lane (ARAM,
/// blind pick, the `default` bucket itself) is `None`.
pub open spec fn lane(role: Seq<char>) -> Option<Lane> {
    let r = text::ascii_lower(role);
    if r == "top"@ {
        Some(Lane::Top)
    } else if r == "jungle"@ {
        Some(Lane::Jungle)
    } else if r == "middle"@ || r == "mid"@ {
        Some(Lane::Middle)
    } else if r == "bottom"@ || r == "bot"@ || r == "adc"@ {
        Some(Lane::Bottom)
    } else if r == "utility"@ || r == "support"@ || r == "sup"@ {
        Some(Lane::Utility)
    } else {
        None
    }
}

pub fn lane_of(role: &str) -> (r: Option<Lane>)
    ensures
        r == lane(role@),
{
    let lower = text::to_ascii_lower(role);
    let r = lower.as_str();
    if text::same(r, "top") {
        Some(Lane::Top)
    } else if text::same(r, "jungle") {
        Some(Lane::Jungle)
    } else if text::same(r, "middle") || text::same(r, "mid") {
        Some(Lane::Middle)
    } else if text::same(r, "bottom") || text::same(r, "bot") || text::same(r, "adc") {
        Some(Lane::Bottom)
    } else if text::same(r, "utility") || text::same(r, "support") || text::same(r, "sup") {
        Some(Lane::Utility)
    } else {
        None
    }
}

/// Whether a role name means "no lane".
pub fn is_default_role(role: &str) -> (r: bool)
    ensures
        r == (lane(role@) is None),
{
    lane_of(role).is_none()
}

// ── List entries ──

/// One entry in a champion priority list.
///
/// An entry carries how long it lasts and whether it is parked, which is what
/// lets "just this game" sit in the same list as everything else.
#[derive(Debug)]
pub struct ChampionEntry {
    pub name: String,
    /// Only for the next game. Once the game actually starts this entry is
    /// *disabled*, not removed: the order survives, and re-arming it is one
    /// click.
    pub once: bool,
    /// Skipped when choosing. What a spent one-shot becomes, and what the user
    /// can set by hand to park a champion without losing its place.
    pub disabled: bool,
}

/// A list entry as a plain value.
pub struct EntryView {
    pub name: Seq<char>,
    pub once: bool,
    pub disabled: bool,
}

impl View for ChampionEntry {
    type V = EntryView;

    open spec fn view(&self) -> EntryView {
        EntryView { name: self.name@, once: self.once, disabled: self.disabled }
    }
}

impl Clone for ChampionEntry {
    fn clone(&self) -> (r: Self)
        ensures
            r == *self,
    {
        ChampionEntry { name: self.name.clone(), once: self.once, disabled: self.disabled }
    }
}

impl Default for ChampionEntry {
    fn default() -> (r: Self)
        ensures
            r@ == (EntryView { name: Seq::empty(), once: false, disabled: false }),
    {
        ChampionEntry { name: String::new(), once: false, disabled: false }
    }
}

/// A permanent, armed entry.
pub open spec fn plain_entry(name: Seq<char>) -> EntryView {
    EntryView { name, once: false, disabled: false }
}

impl ChampionEntry {
    pub fn new(name: &str) -> (r: Self)
        ensures
            r@ == plain_entry(name@),
    {
        ChampionEntry { name: name.to_owned(), once: false, disabled: false }
    }

    pub open spec fn active(self) -> bool {
        !self.disabled && !text::blank(self.name@)
    }

    /// Whether this entry may be chosen right now.
    pub fn is_active(&self) -> (r: bool)
        ensures
            r == self.active(),
    {
        !self.disabled && !text::is_blank(self.name.as_str())
    }
}

pub open spec fn entry_views(list: Seq<ChampionEntry>) -> Seq<EntryView> {
    list.map_values(|e: ChampionEntry| e@)
}

/// Some entry of the list names this champion.
pub open spec fn lists_champion(list: Seq<ChampionEntry>, name: Seq<char>) -> bool {
    exists|i: int| 0 <= i < list.len() && same_champion_spec((#[trigger] list[i]).name@, name)
}

fn names_champion(list: &Vec<ChampionEntry>, name: &str) -> (r: bool)
    ensures
        r == lists_champion(list@, name@),
{
    let mut i: usize = 0;
    while i < list.len()
        invariant
            i <= list@.len(),
            forall|j: int|
                0 <= j < i ==> !same_champion_spec((#[trigger] list@[j]).name@, name@),
        decreases list@.len() - i,
    {
        if same_champion(list[i].name.as_str(), name) {
            return true;
        }
        i += 1;
    }
    false
}

// ── Lists by role ──

/// Ordered champion preferences, per assigned role.
///
/// The role names match `assignedPosition` in the champ-select session exactly,
/// which is lowercase. `default` covers ARAM, blind pick, and any role the user
/// left empty, so a single list still works for someone who doesn't care about
/// roles.
#[derive(Debug)]
pub struct RoleLists {
    pub default: Vec<ChampionEntry>,
    pub top: Vec<ChampionEntry>,
    pub jungle: Vec<ChampionEntry>,
    pub middle: Vec<ChampionEntry>,
    pub bottom: Vec<ChampionEntry>,
    pub utility: Vec<ChampionEntry>,
}

/// The six lists as plain sequences.
#[verifier::ext_equal]
pub struct RoleListsView {
    pub default: Seq<EntryView>,
    pub top: Seq<EntryView>,
    pub jungle: Seq<EntryView>,
    pub middle: Seq<EntryView>,
    pub bottom: Seq<EntryView>,
    pub utility: Seq<EntryView>,
}

impl View for RoleLists {
    type V = RoleListsView;

    open spec fn view(&self) -> RoleListsView {
        RoleListsView {
            default: entry_views(self.default@),
            top: entry_views(self.top@),
            jungle: entry_views(self.jungle@),
            middle: entry_views(self.middle@),
            bottom: entry_views(self.bottom@),
            utility: entry_views(self.utility@),
        }
    }
}

/// Lists with nothing but these general entries.
pub open spec fn only_default(default: Seq<EntryView>) -> RoleListsView {
    RoleListsView {
        default,
        top: Seq::empty(),
        jungle: Seq::empty(),
        middle: Seq::empty(),
        bottom: Seq::empty(),
        utility: Seq::empty(),
    }
}

impl Clone for RoleLists {
    fn clone(&self) -> (r: Self)
        ensures
            r@ == self@,
    {
        let r = RoleLists {
            default: self.default.clone(),
            top: self.top.clone(),
            jungle: self.jungle.clone(),
            middle: self.middle.clone(),
            bottom: self.bottom.clone(),
            utility: self.utility.clone(),
        };
        assert(r@ =~= self@);
        r
    }
}

impl Default for RoleLists {
    fn default() -> (r: Self)
        ensures
            r@ == only_default(Seq::empty()),
    {
        let r = RoleLists {
            default: Vec::new(),
            top: Vec::new(),
            jungle: Vec::new(),
            middle: Vec::new(),
            bottom: Vec::new(),
            utility: Vec::new(),
        };
        assert(r@ =~= only_default(Seq::empty()));
        r
    }
}

/// `own`, and beneath it every fallback whose champion is not there yet.
pub open spec fn extended(own: Seq<ChampionEntry>, fallback: Seq<ChampionEntry>) -> Seq<
    ChampionEntry,
>
    decreases fallback.len(),
{
    if fallback.len() == 0 {
        own
    } else {
        let out = extended(own, fallback.drop_last());
        if lists_champion(out, fallback.last().name@) {
            out
        } else {
            out.push(fallback.last())
        }
    }
}

impl RoleLists {
    /// The list stored against one role, with no `default` mixed in.
    pub open spec fn own_spec(self, role: Seq<char>) -> Seq<ChampionEntry> {
        match lane(role) {
            Some(Lane::Top) => self.top@,
            Some(Lane::Jungle) => self.jungle@,
            Some(Lane::Middle) => self.middle@,
            Some(Lane::Bottom) => self.bottom@,
            Some(Lane::Utility) => self.utility@,
            None => self.default@,
        }
    }

    /// The list for one role.
    pub open spec fn for_role_spec(self, role: Seq<char>) -> Seq<ChampionEntry> {
        if lane(role) is None {
            self.default@
        } else {
            extended(self.own_spec(role), self.default@)
        }
    }

    fn own(&self, role: &str) -> (r: &Vec<ChampionEntry>)
        ensures
            r@ == self.own_spec(role@),
    {
        match lane_of(role) {
            Some(Lane::Top) => &self.top,
            Some(Lane::Jungle) => &self.jungle,
            Some(Lane::Middle) => &self.middle,
            Some(Lane::Bottom) => &self.bottom,
            Some(Lane::Utility) => &self.utility,
            None => &self.default,
        }
    }

    /// The list for this role: its own entries first, then `default` as the
    /// safety net beneath them.
    ///
    /// `default` **extends** a role list rather than being replaced by it, so
    /// that adding a single champion to Mid does not silently drop every general
    /// fallback.
    pub fn for_role(&self, role: &str) -> (r: Vec<ChampionEntry>)
        ensures
            r@ == self.for_role_spec(role@),
    {
        if is_default_role(role) {
            let out = self.default.clone();
            assert(out@ =~= self.default@);
            return out;
        }
        let mut out = self.own(role).clone();
        assert(out@ =~= self.own_spec(role@));
        let mut i: usize = 0;
        while i < self.default.len()
            invariant
                i <= self.default@.len(),
                out@ == extended(self.own_spec(role@), self.default@.take(i as int)),
            decreases self.default@.len() - i,
        {
            let fallback = &self.default[i];
            proof {
                assert(self.default@.take(i + 1).drop_last() =~= self.default@.take(i as int));
                assert(self.default@.take(i + 1).last() == *fallback);
            }
            if !names_champion(&out, fallback.name.as_str()) {
                out.push(fallback.clone());
            }
            i += 1;
        }
        assert(self.default@.take(i as int) =~= self.default@);
        out
    }
}

/// A role's own entries lead its list, unchanged and in their order.
pub proof fn law_own_entries_lead(own: Seq<ChampionEntry>, fallback: Seq<ChampionEntry>)
    ensures
        own.is_prefix_of(extended(own, fallback)),
    decreases fallback.len(),
{
    if fallback.len() > 0 {
        law_own_entries_lead(own, fallback.drop_last());
    }
}

/// No general entry disappears: its champion is in every role's list.
pub proof fn law_no_fallback_disappears(
    own: Seq<ChampionEntry>,
    fallback: Seq<ChampionEntry>,
    i: int,
)
    requires
        0 <= i < fallback.len(),
    ensures
        lists_champion(extended(own, fallback), fallback[i].name@),
    decreases fallback.len(),
{
    let before = extended(own, fallback.drop_last());
    let out = extended(own, fallback);
    if i == fallback.len() - 1 {
        if !lists_champion(before, fallback.last().name@) {
            assert(out[before.len() as int] == fallback.last());
        }
    } else {
        law_no_fallback_disappears(own, fallback.drop_last(), i);
        let w = choose|w: int|
            0 <= w < before.len() && same_champion_spec(
                (#[trigger] before[w]).name@,
                fallback.drop_last()[i].name@,
            );
        assert(out[w] == before[w]);
    }
}

/// What is taken over from the general list names no champion twice.
pub proof fn law_fallbacks_add_no_duplicate(
    own: Seq<ChampionEntry>,
    fallback: Seq<ChampionEntry>,
    i: int,
    j: int,
)
    requires
        own.len() <= j < extended(own, fallback).len(),
        0 <= i < j,
    ensures
        !same_champion_spec(
            extended(own, fallback)[i].name@,
            extended(own, fallback)[j].name@,
        ),
    decreases fallback.len(),
{
    if fallback.len() > 0 {
        let before = extended(own, fallback.drop_last());
        if j < before.len() {
            law_fallbacks_add_no_duplicate(own, fallback.drop_last(), i, j);
        } else {
            assert(before[i] == extended(own, fallback)[i]);
        }
    }
}

// ── Lists by mode ──

/// Champion preferences keyed by the client's `gameMode` ("CLASSIC", "ARAM",
/// "CHERRY", and whatever rotating mode is live this month), plus the
/// [`GLOBAL_MODE`] key.
///
/// There is no user interface for the keys: the app edits whichever mode is
/// being played. Per-mode memory can be switched off, in which case everything
/// is written to [`GLOBAL_MODE`] instead.
pub type ModeLists = NameMap<RoleLists>;

pub open spec fn list_in(
    lists: Map<Seq<char>, RoleLists>,
    key: Seq<char>,
    role: Seq<char>,
) -> Seq<ChampionEntry> {
    if lists.contains_key(key) {
        lists[key].for_role_spec(role)
    } else {
        Seq::empty()
    }
}

/// The global entries, and behind them the mode's own.
pub open spec fn effective(
    lists: Map<Seq<char>, RoleLists>,
    mode_key: Seq<char>,
    role: Seq<char>,
) -> Seq<ChampionEntry> {
    if mode_key == GLOBAL_MODE@ {
        list_in(lists, mode_key, role)
    } else {
        list_in(lists, GLOBAL_MODE@, role) + list_in(lists, mode_key, role)
    }
}

fn list_for(lists: &ModeLists, key: &str, role: &str) -> (r: Vec<ChampionEntry>)
    ensures
        r@ == list_in(lists@, key@, role@),
{
    match lists.get(key) {
        Some(l) => l.for_role(role),
        None => Vec::new(),
    }
}

/// The list actually used for a pick or ban: global entries first, then the
/// ones belonging to the mode being played.
///
/// Globals lead because that is what "always ban K'Sante" means: it is the
/// priority, and the mode-specific entries are what it falls through to.
pub fn effective_list(lists: &ModeLists, mode_key: &str, role: &str) -> (r: Vec<ChampionEntry>)
    ensures
        r@ == effective(lists@, mode_key@, role@),
{
    let mut out = list_for(lists, GLOBAL_MODE, role);
    if !text::same(mode_key, GLOBAL_MODE) {
        let mut mode = list_for(lists, mode_key, role);
        out.append(&mut mode);
    }
    out
}

/// Global entries lead the list of every mode.
pub proof fn law_globals_lead(
    lists: Map<Seq<char>, RoleLists>,
    mode_key: Seq<char>,
    role: Seq<char>,
)
    ensures
        list_in(lists, GLOBAL_MODE@, role).is_prefix_of(effective(lists, mode_key, role)),
{
}

/// What is kept under one mode has no bearing on another: two books that agree
/// on the global bucket and on the mode being played give the same list.
pub proof fn law_modes_do_not_mix(
    lists: Map<Seq<char>, RoleLists>,
    other_mode: Seq<char>,
    other_lists: RoleLists,
    mode_key: Seq<char>,
    role: Seq<char>,
)
    requires
        other_mode != mode_key,
        other_mode != GLOBAL_MODE@,
    ensures
        effective(lists.insert(other_mode, other_lists), mode_key, role) == effective(
            lists,
            mode_key,
            role,
        ),
{
}

// ── One-shot entries ──

/// An entry once the game has started: a one-shot is disabled, anything else
/// stays as it is.
pub open spec fn spent(e: EntryView) -> EntryView {
    EntryView { name: e.name, once: e.once, disabled: e.disabled || e.once }
}

pub open spec fn spent_list(list: Seq<EntryView>) -> Seq<EntryView> {
    list.map_values(|e: EntryView| spent(e))
}

pub open spec fn spent_roles(l: RoleListsView) -> RoleListsView {
    RoleListsView {
        default: spent_list(l.default),
        top: spent_list(l.top),
        jungle: spent_list(l.jungle),
        middle: spent_list(l.middle),
        bottom: spent_list(l.bottom),
        utility: spent_list(l.utility),
    }
}

/// How many entries of the list are armed one-shots.
pub open spec fn armed_in_list(list: Seq<EntryView>) -> nat
    decreases list.len(),
{
    if list.len() == 0 {
        0
    } else {
        armed_in_list(list.drop_last()) + if list.last().once && !list.last().disabled {
            1nat
        } else {
            0nat
        }
    }
}

pub open spec fn armed_in_roles(l: RoleListsView) -> nat {
    armed_in_list(l.default) + armed_in_list(l.top) + armed_in_list(l.jungle) + armed_in_list(
        l.middle,
    ) + armed_in_list(l.bottom) + armed_in_list(l.utility)
}

/// The lists of every mode, by name.
pub open spec fn book(listed: Seq<(String, RoleLists)>) -> Seq<(Seq<char>, RoleListsView)> {
    listed.map_values(|e: (String, RoleLists)| (e.0@, e.1@))
}

pub open spec fn spent_book(b: Seq<(Seq<char>, RoleListsView)>) -> Seq<
    (Seq<char>, RoleListsView),
> {
    b.map_values(|e: (Seq<char>, RoleListsView)| (e.0, spent_roles(e.1)))
}

pub open spec fn armed_in_book(b: Seq<(Seq<char>, RoleListsView)>) -> nat
    decreases b.len(),
{
    if b.len() == 0 {
        0
    } else {
        armed_in_book(b.drop_last()) + armed_in_roles(b.last().1)
    }
}

/// The count as far as a `usize` reaches.
pub open spec fn counted(n: nat) -> usize {
    if n <= usize::MAX {
        n as usize
    } else {
        usize::MAX
    }
}

fn spend_list(list: &mut Vec<ChampionEntry>) -> (r: usize)
    ensures
        entry_views(final(list)@) == spent_list(entry_views(old(list)@)),
        r == armed_in_list(entry_views(old(list)@)),
{
    let ghost before = list@;
    let mut count: usize = 0;
    let mut i: usize = 0;
    while i < list.len()
        invariant
            i <= list@.len(),
            list@.len() == before.len(),
            count <= i,
            count == armed_in_list(entry_views(before).take(i as int)),
            forall|j: int| 0 <= j < i ==> (#[trigger] list@[j])@ == spent(before[j]@),
            forall|j: int| i <= j < list@.len() ==> #[trigger] list@[j] == before[j],
        decreases list@.len() - i,
    {
        proof {
            let all = entry_views(before);
            assert(all.take(i + 1).drop_last() =~= all.take(i as int));
            assert(all.take(i + 1).last() == before[i as int]@);
        }
        if list[i].once && !list[i].disabled {
            let entry = &mut list[i];
            entry.disabled = true;
            count += 1;
        }
        i += 1;
    }
    proof {
        assert(entry_views(before).take(i as int) =~= entry_views(before));
        assert(entry_views(list@) =~= spent_list(entry_views(before)));
    }
    count
}

fn spend_roles(lists: &mut RoleLists) -> (r: usize)
    ensures
        final(lists)@ == spent_roles(old(lists)@),
        r == counted(armed_in_roles(old(lists)@)),
{
    let a = spend_list(&mut lists.default);
    let b = spend_list(&mut lists.top);
    let c = spend_list(&mut lists.jungle);
    let d = spend_list(&mut lists.middle);
    let e = spend_list(&mut lists.bottom);
    let f = spend_list(&mut lists.utility);
    a.saturating_add(b).saturating_add(c).saturating_add(d).saturating_add(e).saturating_add(f)
}

/// Spends every one-shot entry in these lists, across every mode and role, and
/// counts them.
///
/// Called once the game has actually started. Disabling rather than removing is
/// deliberate: the order is often the point, and re-arming a greyed entry is one
/// click, whereas rebuilding a list is not.
pub fn spend_one_shots(lists: &mut ModeLists) -> (r: usize)
    ensures
        book(final(lists).listed()) == spent_book(book(old(lists).listed())),
        r == counted(armed_in_book(book(old(lists).listed()))),
        final(lists)@.dom() == old(lists)@.dom(),
        forall|mode: Seq<char>| #[trigger]
            old(lists)@.contains_key(mode) ==> final(lists)@[mode]@ == spent_roles(
                old(lists)@[mode]@,
            ),
{
    let mut entries = lists.take_entries();
    let ghost before = entries@;
    let mut count: usize = 0;
    let mut i: usize = 0;
    while i < entries.len()
        invariant
            i <= entries@.len(),
            entries@.len() == before.len(),
            count == counted(armed_in_book(book(before).take(i as int))),
            forall|j: int|
                0 <= j < i ==> (#[trigger] entries@[j]).0 == before[j].0 && entries@[j].1@
                    == spent_roles(before[j].1@),
            forall|j: int| i <= j < entries@.len() ==> #[trigger] entries@[j] == before[j],
        decreases entries@.len() - i,
    {
        proof {
            let all = book(before);
            assert(all.take(i + 1).drop_last() =~= all.take(i as int));
            assert(all.take(i + 1).last() == (before[i as int].0@, before[i as int].1@));
        }
        let entry = &mut entries[i];
        let here = spend_roles(&mut entry.1);
        count = count.saturating_add(here);
        i += 1;
    }
    proof {
        assert(book(before).take(i as int) =~= book(before));
        assert(names::keys_distinct(entries@)) by {
            assert forall|a: int, b: int| 0 <= a < b < entries@.len() implies (
            #[trigger] entries@[a]).0@ != (#[trigger] entries@[b]).0@ by {
                assert(before[a].0@ != before[b].0@);
            }
        }
        assert(book(entries@) =~= spent_book(book(before)));
        let old_map = names::as_map(before);
        let new_map = names::as_map(entries@);
        assert forall|mode: Seq<char>|
            old_map.contains_key(mode) == new_map.contains_key(mode) by {
            if old_map.contains_key(mode) {
                let w = choose|w: int| names::holds_at(before, mode, w);
                assert(names::holds_at(entries@, mode, w));
            }
            if new_map.contains_key(mode) {
                let w = choose|w: int| names::holds_at(entries@, mode, w);
                assert(names::holds_at(before, mode, w));
            }
        }
        assert(old_map.dom() =~= new_map.dom());
        assert forall|mode: Seq<char>| #[trigger] old_map.contains_key(mode) implies new_map[mode]@
            == spent_roles(old_map[mode]@) by {
            let w = choose|w: int| names::holds_at(before, mode, w);
            names::lemma_entry_is_in_map(before, w);
            names::lemma_entry_is_in_map(entries@, w);
        }
    }
    *lists = NameMap::from_entries(entries);
    count
}

proof fn lemma_nothing_armed(list: Seq<EntryView>)
    ensures
        armed_in_list(spent_list(list)) == 0,
        spent_list(spent_list(list)) == spent_list(list),
    decreases list.len(),
{
    assert(spent_list(spent_list(list)) =~= spent_list(list));
    if list.len() > 0 {
        lemma_nothing_armed(list.drop_last());
        assert(spent_list(list).drop_last() =~= spent_list(list.drop_last()));
    }
}

/// Spending the one-shots a second time finds nothing to spend and changes
/// nothing.
pub proof fn law_spending_twice_is_spending_once(b: Seq<(Seq<char>, RoleListsView)>)
    ensures
        armed_in_book(spent_book(b)) == 0,
        spent_book(spent_book(b)) == spent_book(b),
    decreases b.len(),
{
    assert forall|i: int| 0 <= i < b.len() implies (#[trigger] spent_book(spent_book(b))[i])
        == spent_book(b)[i] by {
        let l = b[i].1;
        lemma_nothing_armed(l.default);
        lemma_nothing_armed(l.top);
        lemma_nothing_armed(l.jungle);
        lemma_nothing_armed(l.middle);
        lemma_nothing_armed(l.bottom);
        lemma_nothing_armed(l.utility);
    }
    assert(spent_book(spent_book(b)) =~= spent_book(b));
    if b.len() > 0 {
        law_spending_twice_is_spending_once(b.drop_last());
        assert(spent_book(b).drop_last() =~= spent_book(b.drop_last()));
        let l = b.last().1;
        lemma_nothing_armed(l.default);
        lemma_nothing_armed(l.top);
        lemma_nothing_armed(l.jungle);
        lemma_nothing_armed(l.middle);
        lemma_nothing_armed(l.bottom);
        lemma_nothing_armed(l.utility);
    }
}

/// Spending keeps every entry, its name and its place; only an armed one-shot
/// becomes disabled.
pub proof fn law_spending_keeps_the_order(list: Seq<EntryView>, i: int)
    requires
        0 <= i < list.len(),
    ensures
        spent_list(list).len() == list.len(),
        spent_list(list)[i].name == list[i].name,
        spent_list(list)[i].once == list[i].once,
        spent_list(list)[i].disabled == (list[i].disabled || list[i].once),
{
}

// ── Recently used champions ──

/// The names that are not this one, whatever the case of their ASCII letters.
pub open spec fn others(recents: Seq<Seq<char>>, name: Seq<char>) -> Seq<Seq<char>>
    decreases recents.len(),
{
    if recents.len() == 0 {
        recents
    } else {
        let before = others(recents.drop_last(), name);
        if text::ascii_lower(recents.last()) == text::ascii_lower(name) {
            before
        } else {
            before.push(recents.last())
        }
    }
}

/// The recents once this champion has been used: it leads, without a second
/// copy, and the oldest fall off the end.
pub open spec fn with_recent(recents: Seq<Seq<char>>, name: Seq<char>) -> Seq<Seq<char>> {
    let all = seq![name] + others(recents, name);
    if all.len() <= MAX_RECENTS {
        all
    } else {
        all.take(MAX_RECENTS as int)
    }
}

/// Records a champion that was actually picked or banned, so it can be offered
/// again with one click instead of being typed out.
pub fn push_recent(recents: &mut Vec<String>, name: &str)
    ensures
        text::texts(final(recents)@) == with_recent(text::texts(old(recents)@), name@),
{
    let ghost all = text::texts(recents@);
    let mut out: Vec<String> = Vec::new();
    out.push(name.to_owned());
    let mut i: usize = 0;
    assert(text::texts(out@) =~= seq![name@] + others(all.take(0), name@));
    while i < recents.len()
        invariant
            all == text::texts(recents@),
            i <= recents@.len(),
            text::texts(out@) == seq![name@] + others(all.take(i as int), name@),
        decreases recents@.len() - i,
    {
        proof {
            assert(all.take(i + 1).drop_last() =~= all.take(i as int));
            assert(all.take(i + 1).last() == recents@[i as int]@);
        }
        if !text::same_ignoring_ascii_case(recents[i].as_str(), name) {
            let ghost before = text::texts(out@);
            out.push(recents[i].clone());
            assert(text::texts(out@) =~= before.push(recents@[i as int]@));
            assert(text::texts(out@) =~= seq![name@] + others(all.take(i + 1), name@));
        }
        i += 1;
    }
    assert(all.take(i as int) =~= all);
    let ghost whole = text::texts(out@);
    out.truncate(MAX_RECENTS);
    assert(text::texts(out@) =~= with_recent(all, name@));
    *recents = out;
}

proof fn lemma_others(recents: Seq<Seq<char>>, name: Seq<char>)
    ensures
        forall|i: int|
            0 <= i < others(recents, name).len() ==> text::ascii_lower(
                #[trigger] others(recents, name)[i],
            ) != text::ascii_lower(name),
        distinct_names(recents) ==> distinct_names(others(recents, name)),
        forall|i: int|
            0 <= i < others(recents, name).len() ==> recents.contains(
                #[trigger] others(recents, name)[i],
            ),
    decreases recents.len(),
{
    if recents.len() > 0 {
        let shorter = recents.drop_last();
        lemma_others(shorter, name);
        let before = others(shorter, name);
        let after = others(recents, name);
        assert forall|i: int| 0 <= i < after.len() implies recents.contains(
            #[trigger] after[i],
        ) by {
            if i < before.len() {
                assert(shorter.contains(before[i]));
                let j = choose|j: int| 0 <= j < shorter.len() && shorter[j] == before[i];
                assert(recents[j] == after[i]);
            } else {
                assert(recents[recents.len() - 1] == after[i]);
            }
        }
        if distinct_names(recents) {
            assert forall|i: int, j: int| 0 <= i < j < shorter.len() implies text::ascii_lower(
                #[trigger] shorter[i],
            ) != text::ascii_lower(#[trigger] shorter[j]) by {
                assert(recents[i] == shorter[i] && recents[j] == shorter[j]);
            }
            assert forall|i: int, j: int| 0 <= i < j < after.len() implies text::ascii_lower(
                #[trigger] after[i],
            ) != text::ascii_lower(#[trigger] after[j]) by {
                if j == before.len() {
                    assert(shorter.contains(before[i]));
                    let k = choose|k: int| 0 <= k < shorter.len() && shorter[k] == before[i];
                    assert(recents[k] == before[i]);
                    assert(recents[recents.len() - 1] == after[j]);
                } else {
                    assert(before[i] == after[i] && before[j] == after[j]);
                }
            }
        }
    }
}

/// No name stands twice, whatever the case of its ASCII letters.
pub open spec fn distinct_names(names: Seq<Seq<char>>) -> bool {
    forall|i: int, j: int|
        0 <= i < j < names.len() ==> text::ascii_lower(#[trigger] names[i]) != text::ascii_lower(
            #[trigger] names[j],
        )
}

/// The recents start with the newest champion, never list one twice, and never
/// outgrow their limit.
pub proof fn law_recents(recents: Seq<Seq<char>>, name: Seq<char>)
    requires
        distinct_names(recents),
    ensures
        with_recent(recents, name)[0] == name,
        1 <= with_recent(recents, name).len() <= MAX_RECENTS,
        distinct_names(with_recent(recents, name)),
{
    lemma_others(recents, name);
    let rest = others(recents, name);
    let all = seq![name] + rest;
    assert forall|i: int, j: int| 0 <= i < j < all.len() implies text::ascii_lower(
        #[trigger] all[i],
    ) != text::ascii_lower(#[trigger] all[j]) by {
        if i == 0 {
            assert(all[j] == rest[j - 1]);
        } else {
            assert(all[i] == rest[i - 1] && all[j] == rest[j - 1]);
        }
    }
}

// ── The settings ──

/// Everything the user has configured.
#[derive(Debug)]
pub struct Settings {
    pub auto_accept: bool,
    pub auto_pick: bool,
    pub auto_ban: bool,
    /// One champion for every mode, from before there were lists. [`migrate`]
    /// seeds the lists from it.
    pub pick_champion: String,
    pub ban_champion: String,
    pub pick_lists: ModeLists,
    pub ban_lists: ModeLists,
    /// Remember preferences separately per game mode. On by default and
    /// invisible: it is what stops an Arena pick turning up in SoloQ.
    pub per_mode_lists: bool,
    /// Champions recently picked or banned, newest first.
    pub recent_picks: Vec<String>,
    pub recent_bans: Vec<String>,
    /// Start the queue once the lobby meets `auto_queue_trigger`. Off by
    /// default: nothing should put the user in a queue unasked.
    pub auto_queue: bool,
    /// "full" | "members" | "ready".
    pub auto_queue_trigger: String,
    pub auto_queue_min_members: u32,
    /// Breathing room between the lobby becoming queueable and the request, so
    /// that a member joining and leaving again doesn't fire a search, and so
    /// that there is a moment to cancel.
    pub auto_queue_delay_secs: Seconds,
    /// Skip a champion an ally is already hovering and take the next one. For
    /// bans the client's own rule governs instead.
    pub avoid_ally_hover: bool,
    /// Bravery as a switch of its own, from before it was a list entry.
    pub bravery_enabled: bool,
    pub restore_focus_after_action: bool,
    pub hover_pick: bool,
    pub accept_delay_secs: Seconds,
    pub pick_delay_secs: Seconds,
    pub ban_delay_secs: Seconds,
    pub action_margin_secs: Seconds,
    /// Off by default: a fresh install should not put a window on top of the
    /// game until the user asks for it.
    pub overlay_enabled: bool,
    /// In thousandths.
    pub overlay_opacity: i64,
    /// In pixels.
    pub overlay_x: Option<i64>,
    pub overlay_y: Option<i64>,
    pub sync_enabled: bool,
    pub sync_server_url: String,
    pub theme: String,
    /// In thousandths.
    pub panel_opacity: i64,
    pub always_on_top: bool,
    pub minimize_to_tray: bool,
}

/// The settings as plain values.
#[verifier::ext_equal]
pub struct SettingsView {
    pub auto_accept: bool,
    pub auto_pick: bool,
    pub auto_ban: bool,
    pub pick_champion: Seq<char>,
    pub ban_champion: Seq<char>,
    pub pick_lists: Map<Seq<char>, RoleListsView>,
    pub ban_lists: Map<Seq<char>, RoleListsView>,
    pub per_mode_lists: bool,
    pub recent_picks: Seq<Seq<char>>,
    pub recent_bans: Seq<Seq<char>>,
    pub auto_queue: bool,
    pub auto_queue_trigger: Seq<char>,
    pub auto_queue_min_members: u32,
    pub auto_queue_delay_secs: Seconds,
    pub avoid_ally_hover: bool,
    pub bravery_enabled: bool,
    pub restore_focus_after_action: bool,
    pub hover_pick: bool,
    pub accept_delay_secs: Seconds,
    pub pick_delay_secs: Seconds,
    pub ban_delay_secs: Seconds,
    pub action_margin_secs: Seconds,
    pub overlay_enabled: bool,
    pub overlay_opacity: i64,
    pub overlay_x: Option<i64>,
    pub overlay_y: Option<i64>,
    pub sync_enabled: bool,
    pub sync_server_url: Seq<char>,
    pub theme: Seq<char>,
    pub panel_opacity: i64,
    pub always_on_top: bool,
    pub minimize_to_tray: bool,
}

pub open spec fn lists_view(lists: Map<Seq<char>, RoleLists>) -> Map<Seq<char>, RoleListsView> {
    lists.map_values(|l: RoleLists| l@)
}

impl View for Settings {
    type V = SettingsView;

    open spec fn view(&self) -> SettingsView {
        SettingsView {
            auto_accept: self.auto_accept,
            auto_pick: self.auto_pick,
            auto_ban: self.auto_ban,
            pick_champion: self.pick_champion@,
            ban_champion: self.ban_champion@,
            pick_lists: lists_view(self.pick_lists@),
            ban_lists: lists_view(self.ban_lists@),
            per_mode_lists: self.per_mode_lists,
            recent_picks: text::texts(self.recent_picks@),
            recent_bans: text::texts(self.recent_bans@),
            auto_queue: self.auto_queue,
            auto_queue_trigger: self.auto_queue_trigger@,
            auto_queue_min_members: self.auto_queue_min_members,
            auto_queue_delay_secs: self.auto_queue_delay_secs,
            avoid_ally_hover: self.avoid_ally_hover,
            bravery_enabled: self.bravery_enabled,
            restore_focus_after_action: self.restore_focus_after_action,
            hover_pick: self.hover_pick,
            accept_delay_secs: self.accept_delay_secs,
            pick_delay_secs: self.pick_delay_secs,
            ban_delay_secs: self.ban_delay_secs,
            action_margin_secs: self.action_margin_secs,
            overlay_enabled: self.overlay_enabled,
            overlay_opacity: self.overlay_opacity,
            overlay_x: self.overlay_x,
            overlay_y: self.overlay_y,
            sync_enabled: self.sync_enabled,
            sync_server_url: self.sync_server_url@,
            theme: self.theme@,
            panel_opacity: self.panel_opacity,
            always_on_top: self.always_on_top,
            minimize_to_tray: self.minimize_to_tray,
        }
    }
}

/// A fresh install. K'Sante is banned in every mode, so that switching Auto Ban
/// on does something useful straight away.
pub open spec fn default_settings() -> SettingsView {
    SettingsView {
        auto_accept: true,
        auto_pick: false,
        auto_ban: false,
        pick_champion: Seq::empty(),
        ban_champion: Seq::empty(),
        pick_lists: Map::empty(),
        ban_lists: map![GLOBAL_MODE@ => only_default(seq![plain_entry("K'Sante"@)])],
        per_mode_lists: true,
        recent_picks: Seq::empty(),
        recent_bans: Seq::empty(),
        auto_queue: false,
        auto_queue_trigger: "full"@,
        auto_queue_min_members: 2,
        auto_queue_delay_secs: Seconds { millis: 2000 },
        avoid_ally_hover: true,
        bravery_enabled: false,
        restore_focus_after_action: true,
        hover_pick: false,
        accept_delay_secs: Seconds { millis: 0 },
        pick_delay_secs: Seconds { millis: 0 },
        ban_delay_secs: Seconds { millis: 0 },
        action_margin_secs: Seconds { millis: 1500 },
        overlay_enabled: false,
        overlay_opacity: 800,
        overlay_x: None,
        overlay_y: None,
        sync_enabled: false,
        sync_server_url: "ws://localhost:9876"@,
        theme: "dark"@,
        panel_opacity: 550,
        always_on_top: false,
        minimize_to_tray: true,
    }
}

/// Lists with one general entry.
fn general_list(name: &str) -> (r: RoleLists)
    ensures
        r@ == only_default(seq![plain_entry(name@)]),
{
    let mut r = RoleLists::default();
    r.default.push(ChampionEntry::new(name));
    assert(r@ =~= only_default(seq![plain_entry(name@)]));
    r
}

impl Default for Settings {
    fn default() -> (r: Self)
        ensures
            r@ == default_settings(),
    {
        let mut ban_lists: ModeLists = NameMap::new();
        ban_lists.insert(GLOBAL_MODE.to_owned(), general_list("K'Sante"));
        let r = Settings {
            auto_accept: true,
            auto_pick: false,
            auto_ban: false,
            pick_champion: String::new(),
            ban_champion: String::new(),
            pick_lists: NameMap::new(),
            ban_lists,
            per_mode_lists: true,
            recent_picks: Vec::new(),
            recent_bans: Vec::new(),
            auto_queue: false,
            auto_queue_trigger: "full".to_owned(),
            auto_queue_min_members: 2,
            auto_queue_delay_secs: Seconds { millis: 2000 },
            avoid_ally_hover: true,
            bravery_enabled: false,
            restore_focus_after_action: true,
            hover_pick: false,
            accept_delay_secs: Seconds { millis: 0 },
            pick_delay_secs: Seconds { millis: 0 },
            ban_delay_secs: Seconds { millis: 0 },
            action_margin_secs: Seconds { millis: 1500 },
            overlay_enabled: false,
            overlay_opacity: 800,
            overlay_x: None,
            overlay_y: None,
            sync_enabled: false,
            sync_server_url: "ws://localhost:9876".to_owned(),
            theme: "dark".to_owned(),
            panel_opacity: 550,
            always_on_top: false,
            minimize_to_tray: true,
        };
        assert(r@ =~= default_settings());
        r
    }
}

fn clone_texts(list: &Vec<String>) -> (r: Vec<String>)
    ensures
        text::texts(r@) == text::texts(list@),
{
    let r = list.clone();
    assert(text::texts(r@) =~= text::texts(list@));
    r
}

fn clone_lists(lists: &ModeLists) -> (r: ModeLists)
    ensures
        lists_view(r@) == lists_view(lists@),
{
    let r = lists.clone();
    assert(lists_view(r@) =~= lists_view(lists@));
    r
}

impl Clone for Settings {
    fn clone(&self) -> (r: Self)
        ensures
            r@ == self@,
    {
        Settings {
            auto_accept: self.auto_accept,
            auto_pick: self.auto_pick,
            auto_ban: self.auto_ban,
            pick_champion: self.pick_champion.clone(),
            ban_champion: self.ban_champion.clone(),
            pick_lists: clone_lists(&self.pick_lists),
            ban_lists: clone_lists(&self.ban_lists),
            per_mode_lists: self.per_mode_lists,
            recent_picks: clone_texts(&self.recent_picks),
            recent_bans: clone_texts(&self.recent_bans),
            auto_queue: self.auto_queue,
            auto_queue_trigger: self.auto_queue_trigger.clone(),
            auto_queue_min_members: self.auto_queue_min_members,
            auto_queue_delay_secs: self.auto_queue_delay_secs,
            avoid_ally_hover: self.avoid_ally_hover,
            bravery_enabled: self.bravery_enabled,
            restore_focus_after_action: self.restore_focus_after_action,
            hover_pick: self.hover_pick,
            accept_delay_secs: self.accept_delay_secs,
            pick_delay_secs: self.pick_delay_secs,
            ban_delay_secs: self.ban_delay_secs,
            action_margin_secs: self.action_margin_secs,
            overlay_enabled: self.overlay_enabled,
            overlay_opacity: self.overlay_opacity,
            overlay_x: self.overlay_x,
            overlay_y: self.overlay_y,
            sync_enabled: self.sync_enabled,
            sync_server_url: self.sync_server_url.clone(),
            theme: self.theme.clone(),
            panel_opacity: self.panel_opacity,
            always_on_top: self.always_on_top,
            minimize_to_tray: self.minimize_to_tray,
        }
    }
}

// ── Settings from before there were lists ──

/// Whether an old single champion still has to become a list entry.
pub open spec fn to_be_seeded(
    lists: Map<Seq<char>, RoleListsView>,
    champion: Seq<char>,
) -> bool {
    lists == Map::<Seq<char>, RoleListsView>::empty() && champion.len() > 0
}

pub open spec fn seeded(lists: Map<Seq<char>, RoleListsView>, champion: Seq<char>) -> Map<
    Seq<char>,
    RoleListsView,
> {
    if to_be_seeded(lists, champion) {
        map![GLOBAL_MODE@ => only_default(seq![plain_entry(champion)])]
    } else {
        lists
    }
}

pub open spec fn lists_bravery(list: Seq<EntryView>) -> bool {
    exists|i: int| 0 <= i < list.len() && same_champion_spec((#[trigger] list[i]).name, BRAVERY_ENTRY@)
}

/// Lists in which Bravery leads the general entries, unless it is there already.
pub open spec fn with_bravery(bucket: RoleListsView) -> RoleListsView {
    if lists_bravery(bucket.default) {
        bucket
    } else {
        RoleListsView {
            default: seq![plain_entry(BRAVERY_ENTRY@)] + bucket.default,
            top: bucket.top,
            jungle: bucket.jungle,
            middle: bucket.middle,
            bottom: bucket.bottom,
            utility: bucket.utility,
        }
    }
}

/// The only bucket that is read for an Arena pick of this user.
pub open spec fn bravery_bucket(per_mode_lists: bool) -> Seq<char> {
    if per_mode_lists {
        ARENA_MODE@
    } else {
        GLOBAL_MODE@
    }
}

pub open spec fn bravery_added(lists: Map<Seq<char>, RoleListsView>, key: Seq<char>) -> Map<
    Seq<char>,
    RoleListsView,
> {
    lists.insert(
        key,
        with_bravery(
            if lists.contains_key(key) {
                lists[key]
            } else {
                only_default(Seq::empty())
            },
        ),
    )
}

/// Settings carried forward: the old single champions become global entries, and
/// the old Bravery switch becomes the first entry of the list it stood for.
pub open spec fn migrated(s: SettingsView) -> SettingsView {
    let picks = seeded(s.pick_lists, s.pick_champion);
    SettingsView {
        pick_lists: if s.bravery_enabled {
            bravery_added(picks, bravery_bucket(s.per_mode_lists))
        } else {
            picks
        },
        ban_lists: seeded(s.ban_lists, s.ban_champion),
        bravery_enabled: false,
        ..s
    }
}

fn seed(lists: &mut ModeLists, champion: &str) -> (r: bool)
    ensures
        lists_view(final(lists)@) == seeded(lists_view(old(lists)@), champion@),
        r == to_be_seeded(lists_view(old(lists)@), champion@),
{
    proof {
        if lists@ == Map::<Seq<char>, RoleLists>::empty() {
            assert(lists_view(lists@) =~= Map::empty());
        } else if lists_view(lists@) == Map::<Seq<char>, RoleListsView>::empty() {
            assert(lists_view(lists@).dom() =~= lists@.dom());
            assert(lists@ =~= Map::empty());
        }
    }
    if lists.len() > 0 || champion.is_empty() {
        return false;
    }
    lists.insert(GLOBAL_MODE.to_owned(), general_list(champion));
    assert(lists_view(lists@) =~= seeded(lists_view(old(lists)@), champion@));
    true
}

fn has_bravery(list: &Vec<ChampionEntry>) -> (r: bool)
    ensures
        r == lists_bravery(entry_views(list@)),
{
    let r = names_champion(list, BRAVERY_ENTRY);
    proof {
        let views = entry_views(list@);
        if lists_champion(list@, BRAVERY_ENTRY@) {
            let i = choose|i: int|
                0 <= i < list@.len() && same_champion_spec(
                    (#[trigger] list@[i]).name@,
                    BRAVERY_ENTRY@,
                );
            assert(views[i].name == list@[i].name@);
        }
        if lists_bravery(views) {
            let i = choose|i: int|
                0 <= i < views.len() && same_champion_spec(
                    (#[trigger] views[i]).name,
                    BRAVERY_ENTRY@,
                );
            assert(views[i].name == list@[i].name@);
        }
    }
    r
}

fn add_bravery(lists: &mut ModeLists, key: &str)
    ensures
        lists_view(final(lists)@) == bravery_added(lists_view(old(lists)@), key@),
{
    let mut bucket = match lists.take(key) {
        Some(bucket) => bucket,
        None => RoleLists::default(),
    };
    let ghost before = bucket@;
    if !has_bravery(&bucket.default) {
        bucket.default.insert(0, ChampionEntry::new(BRAVERY_ENTRY));
        assert(bucket@.default =~= seq![plain_entry(BRAVERY_ENTRY@)] + before.default);
    }
    assert(bucket@ =~= with_bravery(before));
    lists.insert(key.to_owned(), bucket);
    assert(lists_view(lists@) =~= bravery_added(lists_view(old(lists)@), key@));
}

/// Carries settings written before there were lists forward, and tells whether
/// anything changed: then they have to be saved, or an entry that the user
/// deletes would come back on the next launch.
pub fn migrate(settings: &mut Settings) -> (changed: bool)
    ensures
        final(settings)@ == migrated(old(settings)@),
        changed == (old(settings).bravery_enabled || to_be_seeded(
            old(settings)@.pick_lists,
            old(settings)@.pick_champion,
        ) || to_be_seeded(old(settings)@.ban_lists, old(settings)@.ban_champion)),
{
    let pick_champion = settings.pick_champion.clone();
    let ban_champion = settings.ban_champion.clone();
    let picks = seed(&mut settings.pick_lists, pick_champion.as_str());
    let bans = seed(&mut settings.ban_lists, ban_champion.as_str());
    let bravery = settings.bravery_enabled;
    if bravery {
        settings.bravery_enabled = false;
        let key = if settings.per_mode_lists {
            ARENA_MODE
        } else {
            GLOBAL_MODE
        };
        add_bravery(&mut settings.pick_lists, key);
    }
    picks || bans || bravery
}

proof fn lemma_seeded_once(lists: Map<Seq<char>, RoleListsView>, champion: Seq<char>)
    ensures
        seeded(seeded(lists, champion), champion) == seeded(lists, champion),
{
    if to_be_seeded(lists, champion) {
        assert(seeded(lists, champion).contains_key(GLOBAL_MODE@));
        assert(!Map::<Seq<char>, RoleListsView>::empty().contains_key(GLOBAL_MODE@));
    }
}

proof fn lemma_not_seeded_with(
    lists: Map<Seq<char>, RoleListsView>,
    key: Seq<char>,
    bucket: RoleListsView,
    champion: Seq<char>,
)
    ensures
        seeded(lists.insert(key, bucket), champion) == lists.insert(key, bucket),
{
    assert(lists.insert(key, bucket).contains_key(key));
    assert(!Map::<Seq<char>, RoleListsView>::empty().contains_key(key));
}

/// Carrying settings forward a second time changes nothing.
pub proof fn law_migrating_twice_is_migrating_once(s: SettingsView)
    ensures
        migrated(migrated(s)) == migrated(s),
{
    let once = migrated(s);
    let picks = seeded(s.pick_lists, s.pick_champion);
    lemma_seeded_once(s.pick_lists, s.pick_champion);
    lemma_seeded_once(s.ban_lists, s.ban_champion);
    let key = bravery_bucket(s.per_mode_lists);
    lemma_not_seeded_with(
        picks,
        key,
        with_bravery(
            if picks.contains_key(key) {
                picks[key]
            } else {
                only_default(Seq::empty())
            },
        ),
        s.pick_champion,
    );
    let twice = migrated(once);
    assert(twice.pick_lists == once.pick_lists);
    assert(twice.ban_lists == once.ban_lists);
    assert(!once.bravery_enabled);
}

// ── Which lists apply ──

/// The mode bucket to read and write right now.
pub open spec fn mode_bucket(per_mode_lists: bool, current_mode: Option<Seq<char>>) -> Seq<char> {
    if !per_mode_lists {
        GLOBAL_MODE@
    } else {
        match current_mode {
            Some(mode) => if mode.len() > 0 {
                mode
            } else {
                DEFAULT_MODE@
            },
            None => DEFAULT_MODE@,
        }
    }
}

pub open spec fn optional_text(s: Option<&str>) -> Option<Seq<char>> {
    match s {
        Some(s) => Some(s@),
        None => None,
    }
}

impl Settings {
    /// Which mode bucket to read and write right now.
    ///
    /// With per-mode memory off everything collapses onto the global key, so one
    /// list serves every mode and nothing is lost: the per-mode buckets stay,
    /// just unused. With no lobby open the user is configuring, and Summoner's
    /// Rift is the resting state of the client.
    pub fn mode_key(&self, current_mode: Option<&str>) -> (r: String)
        ensures
            r@ == mode_bucket(self.per_mode_lists, optional_text(current_mode)),
    {
        if !self.per_mode_lists {
            return GLOBAL_MODE.to_owned();
        }
        match current_mode {
            Some(mode) => if !mode.is_empty() {
                mode.to_owned()
            } else {
                DEFAULT_MODE.to_owned()
            },
            None => DEFAULT_MODE.to_owned(),
        }
    }

    pub fn pick_list_for(&self, current_mode: Option<&str>, role: &str) -> (r: Vec<ChampionEntry>)
        ensures
            r@ == effective(
                self.pick_lists@,
                mode_bucket(self.per_mode_lists, optional_text(current_mode)),
                role@,
            ),
    {
        effective_list(&self.pick_lists, self.mode_key(current_mode).as_str(), role)
    }

    pub fn ban_list_for(&self, current_mode: Option<&str>, role: &str) -> (r: Vec<ChampionEntry>)
        ensures
            r@ == effective(
                self.ban_lists@,
                mode_bucket(self.per_mode_lists, optional_text(current_mode)),
                role@,
            ),
    {
        effective_list(&self.ban_lists, self.mode_key(current_mode).as_str(), role)
    }
}

// ── Laws ──

/// What the user has put under a lane, by the name that the client gives the lane
/// or by one that players use. Nothing where the name means no lane.
pub open spec fn entries_under(l: RoleLists, lane_name: Seq<char>) -> Option<Seq<ChampionEntry>> {
    if lane_name == "top"@ {
        Some(l.top@)
    } else if lane_name == "jungle"@ {
        Some(l.jungle@)
    } else if lane_name == "middle"@ || lane_name == "mid"@ {
        Some(l.middle@)
    } else if lane_name == "bottom"@ || lane_name == "bot"@ || lane_name == "adc"@ {
        Some(l.bottom@)
    } else if lane_name == "utility"@ || lane_name == "support"@ || lane_name == "sup"@ {
        Some(l.utility@)
    } else {
        None
    }
}

/// Every entry of an extended list was in one of the two.
proof fn lemma_extended_from(own: Seq<ChampionEntry>, fallback: Seq<ChampionEntry>)
    ensures
        forall|i: int|
            own.len() <= i < extended(own, fallback).len() ==> fallback.contains(
                #[trigger] extended(own, fallback)[i],
            ),
    decreases fallback.len(),
{
    if fallback.len() > 0 {
        let shorter = fallback.drop_last();
        lemma_extended_from(own, shorter);
        let before = extended(own, shorter);
        let out = extended(own, fallback);
        assert forall|i: int| own.len() <= i < out.len() implies fallback.contains(
            #[trigger] out[i],
        ) by {
            if i < before.len() {
                assert(shorter.contains(before[i]));
                let w = choose|w: int| 0 <= w < shorter.len() && shorter[w] == before[i];
                assert(fallback[w] == out[i]);
            } else {
                assert(fallback[fallback.len() - 1] == out[i]);
            }
        }
    }
}

/// The list for a lane starts with what the user has put under that very lane, in
/// its order; behind it stand only general entries, and every general champion is
/// in it. Without a lane it is the general list.
pub proof fn law_a_lane_has_its_own_list(l: RoleLists, role: Seq<char>)
    ensures
        match entries_under(l, text::ascii_lower(role)) {
            Some(own) => {
                let list = l.for_role_spec(role);
                &&& own.is_prefix_of(list)
                &&& forall|i: int|
                    own.len() <= i < list.len() ==> l.default@.contains(#[trigger] list[i])
                &&& forall|i: int|
                    0 <= i < l.default@.len() ==> lists_champion(
                        list,
                        (#[trigger] l.default@[i]).name@,
                    )
            },
            None => l.for_role_spec(role) == l.default@,
        },
{
    if let Some(own) = entries_under(l, text::ascii_lower(role)) {
        law_own_entries_lead(own, l.default@);
        lemma_extended_from(own, l.default@);
        assert forall|i: int| 0 <= i < l.default@.len() implies lists_champion(
            l.for_role_spec(role),
            (#[trigger] l.default@[i]).name@,
        ) by {
            law_no_fallback_disappears(own, l.default@, i);
        }
    }
}

/// The general entries come in their own order: more of them at the end only ever
/// add to the end of a lane's list.
pub proof fn law_fallbacks_come_in_their_order(
    own: Seq<ChampionEntry>,
    fallback: Seq<ChampionEntry>,
    more: Seq<ChampionEntry>,
)
    ensures
        extended(own, fallback).is_prefix_of(extended(own, fallback + more)),
    decreases more.len(),
{
    if more.len() == 0 {
        assert(fallback + more =~= fallback);
    } else {
        law_fallbacks_come_in_their_order(own, fallback, more.drop_last());
        assert((fallback + more).drop_last() =~= fallback + more.drop_last());
    }
}

/// A general entry that names no champion of the list so far is its next entry; one
/// that does is left out.
pub proof fn law_a_new_fallback_is_next(
    own: Seq<ChampionEntry>,
    fallback: Seq<ChampionEntry>,
    next: ChampionEntry,
)
    ensures
        (forall|i: int|
            0 <= i < extended(own, fallback).len() ==> champions::normalized(
                (#[trigger] extended(own, fallback)[i]).name@,
            ) != champions::normalized(next.name@)) ==> extended(own, fallback.push(next))
            == extended(own, fallback).push(next),
        (exists|i: int|
            0 <= i < extended(own, fallback).len() && champions::normalized(
                (#[trigger] extended(own, fallback)[i]).name@,
            ) == champions::normalized(next.name@)) ==> extended(own, fallback.push(next))
            == extended(own, fallback),
{
    assert(fallback.push(next).drop_last() =~= fallback);
}

/// The list that is used is the global one followed by that of the mode being
/// played, each for the role being played; a mode without lists of its own adds
/// nothing, and so do missing globals.
pub proof fn law_the_list_of_a_mode(
    lists: Map<Seq<char>, RoleLists>,
    mode_key: Seq<char>,
    role: Seq<char>,
)
    ensures
        ({
            let globals = if lists.contains_key("*"@) {
                lists["*"@].for_role_spec(role)
            } else {
                Seq::empty()
            };
            let own = if mode_key != "*"@ && lists.contains_key(mode_key) {
                lists[mode_key].for_role_spec(role)
            } else {
                Seq::empty()
            };
            effective(lists, mode_key, role) == globals + own
        }),
{
    let globals = list_in(lists, "*"@, role);
    assert(globals + Seq::<ChampionEntry>::empty() =~= globals);
    assert(Seq::<ChampionEntry>::empty() + Seq::<ChampionEntry>::empty() =~= Seq::<
        ChampionEntry,
    >::empty());
}

/// With memory per mode the mode being played has a bucket of its own, and without
/// a mode it is Summoner's Rift; without that memory one bucket serves them all.
pub proof fn law_the_bucket_of_a_mode(mode: Seq<char>)
    ensures
        mode.len() > 0 ==> mode_bucket(true, Some(mode)) == mode,
        mode.len() == 0 ==> mode_bucket(true, Some(mode)) == "CLASSIC"@,
        mode_bucket(true, None) == "CLASSIC"@,
        mode_bucket(false, Some(mode)) == "*"@,
        mode_bucket(false, None) == "*"@,
{
}

proof fn lemma_others_filter(recents: Seq<Seq<char>>, name: Seq<char>)
    ensures
        others(recents, name) == recents.filter(
            |r: Seq<char>| text::ascii_lower(r) != text::ascii_lower(name),
        ),
    decreases recents.len(),
{
    reveal(Seq::filter);
    if recents.len() > 0 {
        lemma_others_filter(recents.drop_last(), name);
    }
}

/// The newest champion leads, and behind it stand the others of before in their
/// order, as far as there is room for eight.
pub proof fn law_the_other_recents_keep_their_order(recents: Seq<Seq<char>>, name: Seq<char>)
    ensures
        ({
            let rest = recents.filter(
                |r: Seq<char>| text::ascii_lower(r) != text::ascii_lower(name),
            );
            let after = with_recent(recents, name);
            &&& after[0] == name
            &&& after.len() == (if rest.len() < 7 {
                rest.len() + 1
            } else {
                8
            })
            &&& forall|i: int| 0 < i < after.len() ==> #[trigger] after[i] == rest[i - 1]
        }),
{
    lemma_others_filter(recents, name);
}

/// As many one-shots are counted as there are entries that are for the next game
/// only and not disabled yet.
pub proof fn law_armed_entries_are_counted(list: Seq<EntryView>)
    ensures
        armed_in_list(list) == list.filter(|e: EntryView| e.once && !e.disabled).len(),
    decreases list.len(),
{
    reveal(Seq::filter);
    if list.len() > 0 {
        law_armed_entries_are_counted(list.drop_last());
    }
}

/// Spending reaches every entry of every lane: whoever is for one game only is
/// disabled afterwards, and nobody else changes.
pub proof fn law_spending_reaches_every_lane(l: RoleListsView, i: int)
    ensures
        ({
            let after = spent_roles(l);
            let once_spent = |before: Seq<EntryView>, after: Seq<EntryView>|
                after.len() == before.len() && (0 <= i < before.len() ==> after[i].name
                    == before[i].name && after[i].once == before[i].once && (after[i].disabled
                    <==> before[i].disabled || before[i].once));
            &&& once_spent(l.default, after.default)
            &&& once_spent(l.top, after.top)
            &&& once_spent(l.jungle, after.jungle)
            &&& once_spent(l.middle, after.middle)
            &&& once_spent(l.bottom, after.bottom)
            &&& once_spent(l.utility, after.utility)
        }),
{
}

/// An old single champion becomes the one global entry where there were no lists
/// yet, and lists that are there are kept.
pub proof fn law_an_old_champion_becomes_a_global_entry(s: SettingsView)
    requires
        !s.bravery_enabled,
    ensures
        s.ban_lists == Map::<Seq<char>, RoleListsView>::empty() && s.ban_champion.len() > 0 ==> {
            let after = migrated(s).ban_lists;
            &&& after.contains_key("*"@)
            &&& after["*"@].default.len() == 1
            &&& after["*"@].default[0].name == s.ban_champion
            &&& !after["*"@].default[0].once && !after["*"@].default[0].disabled
            &&& forall|key: Seq<char>| #[trigger] after.contains_key(key) ==> key == "*"@
        },
        s.pick_lists == Map::<Seq<char>, RoleListsView>::empty() && s.pick_champion.len() > 0 ==> {
            let after = migrated(s).pick_lists;
            &&& after.contains_key("*"@)
            &&& after["*"@].default.len() == 1
            &&& after["*"@].default[0].name == s.pick_champion
            &&& !after["*"@].default[0].once && !after["*"@].default[0].disabled
            &&& forall|key: Seq<char>| #[trigger] after.contains_key(key) ==> key == "*"@
        },
        s.ban_lists != Map::<Seq<char>, RoleListsView>::empty() || s.ban_champion.len() == 0
            ==> migrated(s).ban_lists == s.ban_lists,
        s.pick_lists != Map::<Seq<char>, RoleListsView>::empty() || s.pick_champion.len() == 0
            ==> migrated(s).pick_lists == s.pick_lists,
{
}

/// The old Bravery switch becomes an entry that leads the list it stood for, and is
/// switched off; a list that has one already keeps it where it is.
pub proof fn law_the_bravery_switch_becomes_an_entry(s: SettingsView, key: Seq<char>)
    requires
        s.bravery_enabled,
        s.per_mode_lists ==> key == "CHERRY"@,
        !s.per_mode_lists ==> key == "*"@,
    ensures
        !migrated(s).bravery_enabled,
        migrated(s).pick_lists.contains_key(key),
        exists|i: int|
            0 <= i < migrated(s).pick_lists[key].default.len() && champions::normalized(
                (#[trigger] migrated(s).pick_lists[key].default[i]).name,
            ) == champions::normalized("Bravery"@),
        s.pick_lists.contains_key(key) && !lists_bravery(s.pick_lists[key].default) ==> migrated(
            s,
        ).pick_lists[key].default.drop_first() == s.pick_lists[key].default,
        s.pick_lists.contains_key(key) && lists_bravery(s.pick_lists[key].default) ==> migrated(
            s,
        ).pick_lists[key].default == s.pick_lists[key].default,
{
    let picks = seeded(s.pick_lists, s.pick_champion);
    if s.pick_lists.contains_key(key) {
        assert(!Map::<Seq<char>, RoleListsView>::empty().contains_key(key));
        assert(picks == s.pick_lists);
    }
    let bucket = if picks.contains_key(key) {
        picks[key]
    } else {
        only_default(Seq::empty())
    };
    let after = with_bravery(bucket);
    assert(migrated(s).pick_lists[key] == after);
    if lists_bravery(bucket.default) {
        let w = choose|w: int|
            0 <= w < bucket.default.len() && same_champion_spec(
                (#[trigger] bucket.default[w]).name,
                BRAVERY_ENTRY@,
            );
        assert(migrated(s).pick_lists[key].default[w].name == bucket.default[w].name);
    } else {
        assert(migrated(s).pick_lists[key].default[0].name == "Bravery"@);
        assert(after.default.drop_first() =~= bucket.default);
    }
}

/// The one-shots of all lanes are counted together, and those of all modes.
pub proof fn law_one_shots_are_counted_everywhere(
    b: Seq<(Seq<char>, RoleListsView)>,
    mode: Seq<char>,
    l: RoleListsView,
)
    ensures
        armed_in_book(b.push((mode, l))) == armed_in_book(b) + armed_in_list(l.default)
            + armed_in_list(l.top) + armed_in_list(l.jungle) + armed_in_list(l.middle)
            + armed_in_list(l.bottom) + armed_in_list(l.utility),
        armed_in_book(Seq::<(Seq<char>, RoleListsView)>::empty()) == 0,
{
    assert(b.push((mode, l)).drop_last() =~= b);
}

} // verus!

//! The champion table: how a name that someone typed finds a champion.

use crate::names::NameMap;
use crate::text;
use std::collections::HashMap;
use vstd::prelude::*;

verus! {

broadcast use vstd::std_specs::hash::group_hash_axioms;

/// One entry in the champion picker.
pub struct ChampionOption {
    pub id: i32,
    pub name: String,
}

/// One row of the published champion summary.
pub struct ChampionRow {
    pub id: i32,
    pub name: String,
    pub alias: Option<String>,
}

/// The id under which the summary lists "no champion".
pub const NO_CHAMPION: i32 = -1;

pub struct Champions {
    name_to_id: NameMap<i32>,
    id_to_name: HashMap<i32, String>,
    names: Vec<String>,
}

// ── Normalized names ──

/// A lowercased name without apostrophes, spaces and dots, and with `and` for
/// each `&`.
pub open spec fn stripped(lowered: Seq<char>) -> Seq<char>
    decreases lowered.len(),
{
    if lowered.len() == 0 {
        lowered
    } else {
        let rest = stripped(lowered.drop_last());
        let c = lowered.last();
        if c == '\'' || c == ' ' || c == '.' {
            rest
        } else if c == '&' {
            rest + seq!['a', 'n', 'd']
        } else {
            rest.push(c)
        }
    }
}

/// The form in which champion names are compared.
pub open spec fn normalized(name: Seq<char>) -> Seq<char> {
    stripped(text::lowercase(name))
}

/// The second half of [`normalize`]: what is left of a name once it has been
/// lowercased.
pub fn strip_marks(lowered: &str) -> (r: String)
    ensures
        r@ == stripped(lowered@),
{
    let v = text::chars_of(lowered);
    let mut out = String::new();
    let mut i: usize = 0;
    while i < v.len()
        invariant
            v@ == lowered@,
            i <= v@.len(),
            out@ == stripped(v@.take(i as int)),
        decreases v@.len() - i,
    {
        let c = v[i];
        proof {
            assert(v@.take(i + 1).drop_last() =~= v@.take(i as int));
            assert(v@.take(i + 1).last() == c);
        }
        if c == '\'' || c == ' ' || c == '.' {
        } else if c == '&' {
            let ghost before = out@;
            out.push('a');
            out.push('n');
            out.push('d');
            assert(out@ =~= before + seq!['a', 'n', 'd']);
        } else {
            out.push(c);
        }
        i += 1;
    }
    assert(v@.take(i as int) =~= lowered@);
    out
}

/// Champion-name normalization. List entries are deduplicated with it too, and
/// the user interface has to agree with it character for character: a name that
/// is accepted there and cannot be resolved here fails silently at pick time.
pub fn normalize(name: &str) -> (r: String)
    ensures
        r@ == normalized(name@),
        vstd::utf8::is_ascii_chars(name@) ==> r@ == stripped(text::ascii_lower(name@)),
{
    strip_marks(name.to_lowercase().as_str())
}

proof fn lemma_stripped_concat(a: Seq<char>, b: Seq<char>)
    ensures
        stripped(a + b) == stripped(a) + stripped(b),
    decreases b.len(),
{
    if b.len() == 0 {
        assert(a + b =~= a);
        assert(stripped(a) + stripped(b) =~= stripped(a));
    } else {
        lemma_stripped_concat(a, b.drop_last());
        assert((a + b).drop_last() =~= a + b.drop_last());
        assert((a + b).last() == b.last());
        let c = b.last();
        let sa = stripped(a);
        let sb = stripped(b.drop_last());
        if c == '\'' || c == ' ' || c == '.' {
        } else if c == '&' {
            assert((sa + sb) + seq!['a', 'n', 'd'] =~= sa + (sb + seq!['a', 'n', 'd']));
        } else {
            assert((sa + sb).push(c) =~= sa + sb.push(c));
        }
    }
}

proof fn lemma_stripped_is_plain(s: Seq<char>)
    requires
        vstd::utf8::is_ascii_chars(s),
    ensures
        vstd::utf8::is_ascii_chars(stripped(text::ascii_lower(s))),
        forall|i: int|
            0 <= i < stripped(text::ascii_lower(s)).len() ==> {
                let c = #[trigger] stripped(text::ascii_lower(s))[i];
                c != '\'' && c != ' ' && c != '.' && c != '&' && !('A' <= c <= 'Z')
            },
    decreases s.len(),
{
    let low = text::ascii_lower(s);
    if s.len() > 0 {
        assert(vstd::utf8::is_ascii_chars(s.drop_last())) by {
            assert forall|i: int| 0 <= i < s.drop_last().len() implies 0 <= (
            #[trigger] s.drop_last()[i]) as int <= 127 by {
                assert(s[i] == s.drop_last()[i]);
            }
        }
        lemma_stripped_is_plain(s.drop_last());
        assert(low.drop_last() =~= text::ascii_lower(s.drop_last()));
        assert(low.last() == text::ascii_lower_char(s.last()));
        assert(0 <= (s[s.len() - 1]) as int <= 127);
    }
}

proof fn lemma_plain_is_kept(s: Seq<char>)
    requires
        forall|i: int|
            0 <= i < s.len() ==> {
                let c = #[trigger] s[i];
                c != '\'' && c != ' ' && c != '.' && c != '&' && !('A' <= c <= 'Z')
            },
    ensures
        stripped(text::ascii_lower(s)) == s,
    decreases s.len(),
{
    let low = text::ascii_lower(s);
    assert(low =~= s);
    if s.len() > 0 {
        lemma_plain_is_kept(s.drop_last());
        assert(text::ascii_lower(s.drop_last()) =~= s.drop_last());
        assert(s.drop_last().push(s.last()) =~= s);
    } else {
        assert(stripped(low) =~= s);
    }
}

/// Normalizing an ASCII name twice is normalizing it once.
pub proof fn law_normalizing_twice_changes_nothing(name: Seq<char>)
    requires
        vstd::utf8::is_ascii_chars(name),
    ensures
        stripped(text::ascii_lower(stripped(text::ascii_lower(name)))) == stripped(
            text::ascii_lower(name),
        ),
{
    lemma_stripped_is_plain(name);
    lemma_plain_is_kept(stripped(text::ascii_lower(name)));
}

/// How the case of ASCII letters, and where apostrophes, spaces and dots stand,
/// makes no difference to a normalized name.
pub proof fn law_marks_and_case_do_not_matter(before: Seq<char>, after: Seq<char>, mark: char)
    requires
        mark == '\'' || mark == ' ' || mark == '.',
    ensures
        stripped(before + seq![mark] + after) == stripped(before + after),
        stripped(text::ascii_lower(text::ascii_upper(before))) == stripped(
            text::ascii_lower(before),
        ),
{
    lemma_stripped_concat(before + seq![mark], after);
    lemma_stripped_concat(before, seq![mark]);
    lemma_stripped_concat(before, after);
    reveal_with_fuel(stripped, 2);
    assert(stripped(seq![mark]) =~= Seq::<char>::empty());
    assert(stripped(before) + stripped(seq![mark]) =~= stripped(before));
    assert(text::ascii_lower(text::ascii_upper(before)) =~= text::ascii_lower(before));
}

// ── The table ──

/// The ids by normalized name and alias; a later row wins.
pub open spec fn ids_by_name(rows: Seq<ChampionRow>) -> Map<Seq<char>, i32>
    decreases rows.len(),
{
    if rows.len() == 0 {
        Map::empty()
    } else {
        let before = ids_by_name(rows.drop_last());
        let row = rows.last();
        if row.id == NO_CHAMPION {
            before
        } else {
            let named = before.insert(normalized(row.name@), row.id);
            match row.alias {
                Some(alias) => named.insert(normalized(alias@), row.id),
                None => named,
            }
        }
    }
}

/// The display names by id; a later row wins.
pub open spec fn names_by_id(rows: Seq<ChampionRow>) -> Map<i32, Seq<char>>
    decreases rows.len(),
{
    if rows.len() == 0 {
        Map::empty()
    } else {
        let before = names_by_id(rows.drop_last());
        let row = rows.last();
        if row.id == NO_CHAMPION {
            before
        } else {
            before.insert(row.id, row.name@)
        }
    }
}

/// The display names in the order of the rows.
pub open spec fn names_of(rows: Seq<ChampionRow>) -> Seq<Seq<char>>
    decreases rows.len(),
{
    if rows.len() == 0 {
        Seq::empty()
    } else {
        let before = names_of(rows.drop_last());
        if rows.last().id == NO_CHAMPION {
            before
        } else {
            before.push(rows.last().name@)
        }
    }
}

/// The id is the one champion that `key` can mean by prefix: some name starts
/// with it, and every name that does belongs to this champion.
pub open spec fn only_prefix_match(table: Map<Seq<char>, i32>, key: Seq<char>, id: i32) -> bool {
    &&& exists|name: Seq<char>| #[trigger]
        table.contains_key(name) && key.is_prefix_of(name) && table[name] == id
    &&& forall|name: Seq<char>| #[trigger]
        table.contains_key(name) && key.is_prefix_of(name) ==> table[name] == id
}

/// What a normalized name resolves to.
pub open spec fn resolved(table: Map<Seq<char>, i32>, key: Seq<char>) -> Option<i32> {
    if key.len() == 0 {
        None
    } else if table.contains_key(key) {
        Some(table[key])
    } else if exists|id: i32| only_prefix_match(table, key, id) {
        Some(choose|id: i32| only_prefix_match(table, key, id))
    } else {
        None
    }
}

pub open spec fn name_views(m: Map<i32, String>) -> Map<i32, Seq<char>> {
    m.map_values(|s: String| s@)
}

impl Champions {
    /// The ids by normalized name.
    pub closed spec fn ids(self) -> Map<Seq<char>, i32> {
        self.name_to_id@
    }

    /// The display names by id.
    pub closed spec fn display(self) -> Map<i32, Seq<char>> {
        name_views(self.id_to_name@)
    }

    /// The display names in dictionary order.
    pub closed spec fn listed(self) -> Seq<Seq<char>> {
        text::texts(self.names@)
    }

    pub fn new() -> (r: Self)
        ensures
            r.ids() == Map::<Seq<char>, i32>::empty(),
            r.display() == Map::<i32, Seq<char>>::empty(),
            r.listed() == Seq::<Seq<char>>::empty(),
    {
        let r = Champions {
            name_to_id: NameMap::new(),
            id_to_name: HashMap::new(),
            names: Vec::new(),
        };
        assert(r.display() =~= Map::empty());
        assert(r.listed() =~= Seq::empty());
        r
    }

    /// Replaces the whole table by these rows.
    pub fn fill(&mut self, rows: &Vec<ChampionRow>)
        ensures
            final(self).ids() == ids_by_name(rows@),
            final(self).display() == names_by_id(rows@),
            text::sorted_texts(final(self).listed()),
            final(self).listed().to_multiset() == names_of(rows@).to_multiset(),
    {
        let mut table = Champions::new();
        let mut i: usize = 0;
        while i < rows.len()
            invariant
                i <= rows@.len(),
                table.ids() == ids_by_name(rows@.take(i as int)),
                table.display() == names_by_id(rows@.take(i as int)),
                text::sorted_texts(table.listed()),
                table.listed().to_multiset() == names_of(rows@.take(i as int)).to_multiset(),
            decreases rows@.len() - i,
        {
            proof {
                assert(rows@.take(i + 1).drop_last() =~= rows@.take(i as int));
                assert(rows@.take(i + 1).last() == rows@[i as int]);
            }
            table.add_row(&rows[i]);
            i += 1;
        }
        assert(rows@.take(i as int) =~= rows@);
        *self = table;
    }

    fn add_row(&mut self, row: &ChampionRow)
        requires
            text::sorted_texts(old(self).listed()),
        ensures
            row.id == NO_CHAMPION ==> *final(self) == *old(self),
            row.id != NO_CHAMPION ==> {
                &&& final(self).ids() == match row.alias {
                    Some(alias) => old(self).ids().insert(normalized(row.name@), row.id).insert(
                        normalized(alias@),
                        row.id,
                    ),
                    None => old(self).ids().insert(normalized(row.name@), row.id),
                }
                &&& final(self).display() == old(self).display().insert(row.id, row.name@)
                &&& text::sorted_texts(final(self).listed())
                &&& final(self).listed().to_multiset() == old(self).listed().to_multiset().insert(
                    row.name@,
                )
            },
            forall|s: Seq<Seq<char>>| #[trigger]
                s.to_multiset() == old(self).listed().to_multiset() ==> s.push(
                    row.name@,
                ).to_multiset() == old(self).listed().to_multiset().insert(row.name@),
    {
        proof {
            broadcast use vstd::seq_lib::group_to_multiset_ensures;

            assert forall|s: Seq<Seq<char>>| #[trigger]
                s.to_multiset() == old(self).listed().to_multiset() implies s.push(
                row.name@,
            ).to_multiset() == old(self).listed().to_multiset().insert(row.name@) by {}
        }
        if row.id == NO_CHAMPION {
            return ;
        }
        let at = text::place_in_order(&self.names, row.name.as_str());
        self.names.insert(at, row.name.clone());
        assert(text::texts(self.names@) =~= old(self).listed().insert(at as int, row.name@));
        self.id_to_name.insert(row.id, row.name.clone());
        assert(self.display() =~= old(self).display().insert(row.id, row.name@));
        self.name_to_id.insert(normalize(row.name.as_str()), row.id);
        if let Some(alias) = &row.alias {
            self.name_to_id.insert(normalize(alias.as_str()), row.id);
        }
    }

    /// Whether any champion is known yet.
    pub fn is_loaded(&self) -> (r: bool)
        ensures
            r == (self.listed().len() > 0),
    {
        self.names.len() > 0
    }

    /// The champion that a typed name means: the one with exactly this
    /// normalized name or alias, else the only one with a name that starts so.
    /// An ambiguous prefix is refused rather than guessed at.
    pub fn resolve_id(&self, input: &str) -> (r: Option<i32>)
        ensures
            r == resolved(self.ids(), normalized(input@)),
    {
        let key = normalize(input);
        self.resolve_normalized(key.as_str())
    }

    /// [`Champions::resolve_id`] for a name that has been normalized.
    pub fn resolve_normalized(&self, key: &str) -> (r: Option<i32>)
        ensures
            r == resolved(self.ids(), key@),
    {
        if key.is_empty() {
            return None;
        }
        if let Some(id) = self.name_to_id.get(key) {
            return Some(*id);
        }
        let ghost table = self.name_to_id@;
        let entries = self.name_to_id.entries();
        let mut found: Option<i32> = None;
        let mut i: usize = 0;
        while i < entries.len()
            invariant
                i <= entries@.len(),
                crate::names::keys_distinct(entries@),
                table == crate::names::as_map(entries@),
                table == self.ids(),
                key@.len() > 0,
                !table.contains_key(key@),
                found is None ==> forall|j: int|
                    0 <= j < i ==> !key@.is_prefix_of((#[trigger] entries@[j]).0@),
                found matches Some(id) ==> {
                    &&& exists|j: int|
                        0 <= j < i && key@.is_prefix_of((#[trigger] entries@[j]).0@)
                            && entries@[j].1 == id
                    &&& forall|j: int|
                        0 <= j < i && key@.is_prefix_of((#[trigger] entries@[j]).0@)
                            ==> entries@[j].1 == id
                },
            decreases entries@.len() - i,
        {
            if text::starts_with(entries[i].0.as_str(), key) {
                match found {
                    None => {
                        found = Some(entries[i].1);
                    },
                    Some(id) => {
                        if id != entries[i].1 {
                            proof {
                                let j = choose|j: int|
                                    0 <= j < i && key@.is_prefix_of((#[trigger] entries@[j]).0@)
                                        && entries@[j].1 == id;
                                crate::names::lemma_entry_is_in_map(entries@, j);
                                crate::names::lemma_entry_is_in_map(entries@, i as int);
                                assert(forall|other: i32|
                                    !only_prefix_match(table, key@, other));
                            }
                            return None;
                        }
                    },
                }
            }
            i += 1;
        }
        proof {
            assert forall|name: Seq<char>| #[trigger] table.contains_key(name) implies exists|j: int|
                crate::names::holds_at(entries@, name, j) && entries@[j].1 == table[name] by {
                let j = choose|j: int| crate::names::holds_at(entries@, name, j);
                crate::names::lemma_entry_is_in_map(entries@, j);
                assert(crate::names::holds_at(entries@, name, j));
            }
            match found {
                Some(id) => {
                    let j = choose|j: int|
                        0 <= j < entries@.len() && key@.is_prefix_of((#[trigger] entries@[j]).0@)
                            && entries@[j].1 == id;
                    crate::names::lemma_entry_is_in_map(entries@, j);
                    assert(table.contains_key(entries@[j].0@));
                    assert(only_prefix_match(table, key@, id));
                    assert forall|other: i32| only_prefix_match(table, key@, other) implies other
                        == id by {}
                },
                None => {
                    assert(forall|other: i32| !only_prefix_match(table, key@, other));
                },
            }
        }
        found
    }

    /// Every display name, in dictionary order.
    pub fn get_names(&self) -> (r: Vec<String>)
        ensures
            text::texts(r@) == self.listed(),
    {
        self.names.clone()
    }

    /// Name paired with its numeric id, sorted by name. The picker needs the id
    /// to build the icon's address.
    pub fn get_entries(&self) -> (r: Vec<ChampionOption>)
        ensures
            r@.len() == self.display().len(),
            forall|i: int|
                0 <= i < r@.len() ==> self.display().contains_key((#[trigger] r@[i]).id)
                    && self.display()[r@[i].id] == r@[i].name@,
            forall|i: int, j: int|
                0 <= i < j < r@.len() ==> (#[trigger] r@[i]).id != (#[trigger] r@[j]).id,
            forall|i: int, j: int|
                0 <= i <= j < r@.len() ==> text::in_order(
                    (#[trigger] r@[i]).name@,
                    (#[trigger] r@[j]).name@,
                ),
    {
        let mut names: Vec<String> = Vec::new();
        let mut out: Vec<ChampionOption> = Vec::new();
        for id in it: self.id_to_name.keys()
            invariant
                it.seq().unref().to_set() == self.id_to_name@.dom(),
                it.seq().no_duplicates(),
                it.seq().len() == self.id_to_name@.dom().len(),
                out@.len() == it.index(),
                names@.len() == out@.len(),
                text::sorted_texts(text::texts(names@)),
                forall|i: int| 0 <= i < out@.len() ==> (#[trigger] out@[i]).name@ == names@[i]@,
                forall|i: int|
                    0 <= i < out@.len() ==> self.display().contains_key((#[trigger] out@[i]).id)
                        && self.display()[out@[i].id] == out@[i].name@,
                forall|i: int|
                    0 <= i < out@.len() ==> it.seq().unref().take(it.index() as int).contains(
                        (#[trigger] out@[i]).id,
                    ),
                forall|i: int, j: int|
                    0 <= i < j < out@.len() ==> (#[trigger] out@[i]).id != (#[trigger] out@[j]).id,
        {
            assert(it.seq().unref()[it.index() as int] == *id);
            assert(self.id_to_name@.dom().contains(*id));
            if let Some(name) = self.id_to_name.get(id) {
                let at = text::place_in_order(&names, name.as_str());
                let ghost before = out@;
                let ghost names_before = text::texts(names@);
                out.insert(at, ChampionOption { id: *id, name: name.clone() });
                names.insert(at, name.clone());
                proof {
                    let k = it.index() as int;
                    let all = it.seq().unref();
                    assert(text::texts(names@) =~= names_before.insert(at as int, name@));
                    assert forall|i: int| 0 <= i < out@.len() implies all.take(k + 1).contains(
                        (#[trigger] out@[i]).id,
                    ) by {
                        if i == at {
                            assert(all.take(k + 1)[k] == *id);
                        } else {
                            let earlier = if i < at {
                                before[i]
                            } else {
                                before[i - 1]
                            };
                            assert(out@[i] == earlier);
                            let w = choose|w: int| 0 <= w < k && all.take(k)[w] == earlier.id;
                            assert(all.take(k + 1)[w] == earlier.id);
                        }
                    }
                    assert forall|i: int, j: int| 0 <= i < j < out@.len() implies (
                    #[trigger] out@[i]).id != (#[trigger] out@[j]).id by {
                        assert forall|m: int| 0 <= m < before.len() implies (
                        #[trigger] before[m]).id != *id by {
                            let w = choose|w: int| 0 <= w < k && all.take(k)[w] == before[m].id;
                            assert(it.seq()[w] != it.seq()[k]);
                        }
                    }
                }
            }
        }
        proof {
            assert(self.display().dom() =~= self.id_to_name@.dom());
            assert forall|i: int, j: int| 0 <= i <= j < out@.len() implies text::in_order(
                (#[trigger] out@[i]).name@,
                (#[trigger] out@[j]).name@,
            ) by {
                assert(text::in_order(text::texts(names@)[i], text::texts(names@)[j]));
            }
        }
        out
    }

    pub fn get_id_to_name(&self) -> (r: HashMap<i32, String>)
        ensures
            name_views(r@) == self.display(),
    {
        self.id_to_name.clone()
    }
}

/// A prefix that fits two champions resolves to neither, unless it is a whole
/// name.
pub proof fn law_an_ambiguous_prefix_is_refused(
    table: Map<Seq<char>, i32>,
    key: Seq<char>,
    a: Seq<char>,
    b: Seq<char>,
)
    requires
        table.contains_key(a),
        table.contains_key(b),
        table[a] != table[b],
        key.is_prefix_of(a),
        key.is_prefix_of(b),
        !table.contains_key(key),
    ensures
        resolved(table, key) is None,
{
}

/// A row gives this key to a champion.
pub open spec fn names_it(row: ChampionRow, key: Seq<char>) -> bool {
    row.id != NO_CHAMPION && (normalized(row.name@) == key || (row.alias matches Some(alias)
        && normalized(alias@) == key))
}

/// Every champion of the table resolves under its name and under its alias,
/// however either is typed, for as long as no later row takes the same name.
pub proof fn law_a_listed_champion_resolves(rows: Seq<ChampionRow>, i: int, key: Seq<char>)
    requires
        0 <= i < rows.len(),
        key.len() > 0,
        names_it(rows[i], key),
        forall|j: int| i < j < rows.len() ==> !names_it(#[trigger] rows[j], key),
    ensures
        resolved(ids_by_name(rows), key) == Some(rows[i].id),
    decreases rows.len(),
{
    if i < rows.len() - 1 {
        let shorter = rows.drop_last();
        assert(shorter[i] == rows[i]);
        assert forall|j: int| i < j < shorter.len() implies !names_it(
            #[trigger] shorter[j],
            key,
        ) by {
            assert(shorter[j] == rows[j]);
        }
        law_a_listed_champion_resolves(shorter, i, key);
        lemma_known_key(shorter, i, key);
        assert(!names_it(rows[rows.len() - 1], key));
    }
}

proof fn lemma_known_key(rows: Seq<ChampionRow>, i: int, key: Seq<char>)
    requires
        0 <= i < rows.len(),
        names_it(rows[i], key),
    ensures
        ids_by_name(rows).contains_key(key),
    decreases rows.len(),
{
    if i < rows.len() - 1 {
        assert(rows.drop_last()[i] == rows[i]);
        lemma_known_key(rows.drop_last(), i, key);
    }
}

/// A name that nobody bears resolves to the one champion whose names start with it,
/// and to nobody where none does or several do; an empty name is nobody's.
pub proof fn law_what_a_typed_name_finds(table: Map<Seq<char>, i32>, key: Seq<char>, name: Seq<char>)
    ensures
        key.len() == 0 ==> resolved(table, key) is None,
        key.len() > 0 && table.contains_key(key) ==> resolved(table, key) == Some(table[key]),
        key.len() > 0 && !table.contains_key(key) && table.contains_key(name) && key.is_prefix_of(
            name,
        ) && (forall|other: Seq<char>| #[trigger]
            table.contains_key(other) && key.is_prefix_of(other) ==> table[other] == table[name])
            ==> resolved(table, key) == Some(table[name]),
        key.len() > 0 && !table.contains_key(key) && (forall|other: Seq<char>| #[trigger]
            table.contains_key(other) ==> !key.is_prefix_of(other)) ==> resolved(table, key)
            is None,
{
    if key.len() > 0 && !table.contains_key(key) && table.contains_key(name) && key.is_prefix_of(
        name,
    ) && (forall|other: Seq<char>| #[trigger]
        table.contains_key(other) && key.is_prefix_of(other) ==> table[other] == table[name]) {
        assert(only_prefix_match(table, key, table[name]));
        let id = choose|id: i32| only_prefix_match(table, key, id);
        assert(table.contains_key(name) && key.is_prefix_of(name));
    }
    if forall|other: Seq<char>| #[trigger]
        table.contains_key(other) ==> !key.is_prefix_of(other) {
        assert forall|id: i32| !only_prefix_match(table, key, id) by {}
    }
}

/// Each letter of a name is kept in its place, but for the marks that go and the
/// ampersand that is spelled out.
pub proof fn law_what_stripping_does(before: Seq<char>, c: char, after: Seq<char>)
    ensures
        stripped(before + after) == stripped(before) + stripped(after),
        c != '\'' && c != ' ' && c != '.' && c != '&' ==> stripped(before + seq![c] + after)
            == stripped(before) + seq![c] + stripped(after),
        stripped(before + seq!['&'] + after) == stripped(before) + seq!['a', 'n', 'd'] + stripped(
            after,
        ),
{
    lemma_stripped_concat(before, after);
    lemma_stripped_concat(before + seq![c], after);
    lemma_stripped_concat(before, seq![c]);
    lemma_stripped_concat(before + seq!['&'], after);
    lemma_stripped_concat(before, seq!['&']);
    reveal_with_fuel(stripped, 2);
    assert(seq![c].drop_last() =~= Seq::<char>::empty());
    assert(seq!['&'].drop_last() =~= Seq::<char>::empty());
    if c != '\'' && c != ' ' && c != '.' && c != '&' {
        assert(stripped(seq![c]) =~= seq![c]);
    }
    assert(stripped(seq!['&']) =~= seq!['a', 'n', 'd']);
}

/// A champion is shown under the name of the last row of its id.
pub proof fn law_a_champion_is_shown_by_its_name(rows: Seq<ChampionRow>, i: int)
    requires
        0 <= i < rows.len(),
        rows[i].id != -1,
        forall|j: int| i < j < rows.len() ==> (#[trigger] rows[j]).id != rows[i].id,
    ensures
        names_by_id(rows).contains_key(rows[i].id),
        names_by_id(rows)[rows[i].id] == rows[i].name@,
        !names_by_id(rows).contains_key((-1) as i32),
    decreases rows.len(),
{
    lemma_no_champion_is_left_out(rows);
    if i < rows.len() - 1 {
        let shorter = rows.drop_last();
        assert(shorter[i] == rows[i]);
        assert forall|j: int| i < j < shorter.len() implies (#[trigger] shorter[j]).id
            != shorter[i].id by {
            assert(shorter[j] == rows[j]);
        }
        law_a_champion_is_shown_by_its_name(shorter, i);
        assert(rows[rows.len() - 1].id != rows[i].id);
    }
}

proof fn lemma_no_champion_is_left_out(rows: Seq<ChampionRow>)
    ensures
        !names_by_id(rows).contains_key((-1) as i32),
    decreases rows.len(),
{
    if rows.len() > 0 {
        lemma_no_champion_is_left_out(rows.drop_last());
    }
}

} // verus!

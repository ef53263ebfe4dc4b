//! Turning a puuid into a name you can read.
//!
//! The lobby carries nothing but puuids; the name lives on the summoner
//! resource. It is resolved once per puuid and remembered: names change rarely,
//! and a lobby is at most a handful of people.

use crate::names::NameMap;
use crate::text;
use vstd::prelude::*;

verus! {

/// Enough entries for a long session's worth of lobbies and champ selects
/// without the map being something to think about.
pub const MAX_CACHED: usize = 256;

/// What the client answers about one summoner.
#[derive(Debug, Default)]
pub struct SummonerResponse {
    pub game_name: String,
    pub tag_line: String,
    /// Deprecated and empty on current clients; read last, for old ones.
    pub display_name: String,
}

#[derive(Debug, PartialEq, Eq)]
pub struct RiotId {
    /// What to show in a list.
    pub name: String,
    /// `Name#TAG`, for the tooltip: two people can share a game name.
    pub full: String,
}

pub struct RiotIdView {
    pub name: Seq<char>,
    pub full: Seq<char>,
}

impl View for RiotId {
    type V = RiotIdView;

    open spec fn view(&self) -> RiotIdView {
        RiotIdView { name: self.name@, full: self.full@ }
    }
}

impl Clone for RiotId {
    fn clone(&self) -> (r: Self)
        ensures
            r == *self,
    {
        RiotId { name: self.name.clone(), full: self.full.clone() }
    }
}

pub open spec fn optional_riot_id(id: Option<RiotId>) -> Option<RiotIdView> {
    match id {
        Some(id) => Some(id@),
        None => None,
    }
}

/// The name in an answer: the game name first, then the deprecated display name
/// for older clients. An answer without either names nobody.
pub open spec fn named_in(s: SummonerResponse) -> Option<RiotIdView> {
    let name = if s.game_name@.len() > 0 {
        s.game_name@
    } else {
        s.display_name@
    };
    if name.len() == 0 {
        None
    } else {
        Some(
            RiotIdView {
                name,
                full: if s.tag_line@.len() == 0 {
                    name
                } else {
                    name + "#"@ + s.tag_line@
                },
            },
        )
    }
}

pub fn riot_id(s: &SummonerResponse) -> (r: Option<RiotId>)
    ensures
        optional_riot_id(r) == named_in(*s),
{
    let name = if !s.game_name.as_str().is_empty() {
        s.game_name.clone()
    } else if !s.display_name.as_str().is_empty() {
        s.display_name.clone()
    } else {
        return None;
    };
    let full = if s.tag_line.as_str().is_empty() {
        name.clone()
    } else {
        text::cat3(name.as_str(), "#", s.tag_line.as_str())
    };
    Some(RiotId { name, full })
}

/// The resource that knows a summoner.
pub fn summoner_path(puuid: &str) -> (r: String)
    ensures
        r@ == "/lol-summoner/v2/summoners/puuid/"@ + puuid@,
{
    text::cat("/lol-summoner/v2/summoners/puuid/", puuid)
}

/// Every name that has been resolved, by puuid.
#[derive(Debug, Default)]
pub struct SummonerNames {
    by_puuid: NameMap<RiotId>,
}

/// The puuids that have to be asked for: each once, in order, none empty and
/// none known.
pub open spec fn unknown(known: Map<Seq<char>, RiotId>, puuids: Seq<Seq<char>>) -> Seq<Seq<char>>
    decreases puuids.len(),
{
    if puuids.len() == 0 {
        puuids
    } else {
        let before = unknown(known, puuids.drop_last());
        let p = puuids.last();
        if p.len() > 0 && !known.contains_key(p) && !before.contains(p) {
            before.push(p)
        } else {
            before
        }
    }
}

/// What is known once these have been learned. Where it would grow beyond the
/// limit, everything older is forgotten first.
pub open spec fn learned_names(
    known: Map<Seq<char>, RiotId>,
    learned: Seq<(String, RiotId)>,
) -> Map<Seq<char>, RiotId>
    decreases learned.len(),
{
    if learned.len() == 0 {
        known
    } else {
        learned_names(known, learned.drop_last()).insert(
            learned.last().0@,
            learned.last().1,
        )
    }
}

impl SummonerNames {
    pub closed spec fn known(self) -> Map<Seq<char>, RiotId> {
        self.by_puuid@
    }

    pub fn new() -> (r: Self)
        ensures
            r.known() == Map::<Seq<char>, RiotId>::empty(),
    {
        SummonerNames { by_puuid: NameMap::new() }
    }

    pub fn get(&self, puuid: &str) -> (r: Option<RiotId>)
        ensures
            r == (if self.known().contains_key(puuid@) {
                Some(self.known()[puuid@])
            } else {
                None
            }),
    {
        match self.by_puuid.get(puuid) {
            Some(id) => Some(id.clone()),
            None => None,
        }
    }

    /// The puuids that are not known yet, each once.
    pub fn missing(&self, puuids: &Vec<String>) -> (r: Vec<String>)
        ensures
            text::texts(r@) == unknown(self.known(), text::texts(puuids@)),
    {
        let ghost all = text::texts(puuids@);
        let mut wanted: Vec<String> = Vec::new();
        let mut i: usize = 0;
        assert(text::texts(wanted@) =~= unknown(self.known(), all.take(0)));
        while i < puuids.len()
            invariant
                i <= puuids@.len(),
                all == text::texts(puuids@),
                text::texts(wanted@) == unknown(self.known(), all.take(i as int)),
            decreases puuids@.len() - i,
        {
            proof {
                assert(all.take(i + 1).drop_last() =~= all.take(i as int));
                assert(all.take(i + 1).last() == puuids@[i as int]@);
            }
            let p = puuids[i].as_str();
            if !p.is_empty() && !self.by_puuid.contains_key(p) && !lists_text(&wanted, p) {
                let ghost before = text::texts(wanted@);
                wanted.push(puuids[i].clone());
                assert(text::texts(wanted@) =~= before.push(p@));
            }
            i += 1;
        }
        assert(all.take(i as int) =~= all);
        wanted
    }

    /// Remembers what has been learned; whether there was anything, so that
    /// nothing is shown again that has not changed.
    pub fn learn(&mut self, learned: Vec<(String, RiotId)>) -> (changed: bool)
        ensures
            changed == (learned@.len() > 0),
            final(self).known() == learned_names(
                if learned@.len() > 0 && old(self).known().dom().len() + learned@.len()
                    > MAX_CACHED {
                    Map::empty()
                } else {
                    old(self).known()
                },
                learned@,
            ),
    {
        if learned.len() == 0 {
            return false;
        }
        if self.by_puuid.len() > MAX_CACHED || learned.len() > MAX_CACHED || self.by_puuid.len()
            + learned.len() > MAX_CACHED {
            self.by_puuid = NameMap::new();
        }
        let ghost start = self.by_puuid@;
        let mut i: usize = 0;
        assert(learned@.take(0) =~= Seq::empty());
        while i < learned.len()
            invariant
                i <= learned@.len(),
                self.by_puuid@ == learned_names(start, learned@.take(i as int)),
            decreases learned@.len() - i,
        {
            proof {
                assert(learned@.take(i + 1).drop_last() =~= learned@.take(i as int));
                assert(learned@.take(i + 1).last() == learned@[i as int]);
            }
            let puuid = learned[i].0.clone();
            let id = learned[i].1.clone();
            self.by_puuid.insert(puuid, id);
            i += 1;
        }
        assert(learned@.take(i as int) =~= learned@);
        true
    }
}

fn lists_text(list: &Vec<String>, s: &str) -> (r: bool)
    ensures
        r == text::texts(list@).contains(s@),
{
    let ghost all = text::texts(list@);
    let mut i: usize = 0;
    while i < list.len()
        invariant
            i <= list@.len(),
            all == text::texts(list@),
            forall|j: int| 0 <= j < i ==> all[j] != s@,
        decreases list@.len() - i,
    {
        assert(all[i as int] == list@[i as int]@);
        if text::same(list[i].as_str(), s) {
            return true;
        }
        i += 1;
    }
    false
}

proof fn lemma_learned_size(known: Map<Seq<char>, RiotId>, learned: Seq<(String, RiotId)>)
    requires
        known.dom().finite(),
    ensures
        learned_names(known, learned).dom().finite(),
        learned_names(known, learned).dom().len() <= known.dom().len() + learned.len(),
    decreases learned.len(),
{
    if learned.len() > 0 {
        lemma_learned_size(known, learned.drop_last());
    }
}

/// The cache never outgrows its limit, unless a single batch does.
pub proof fn law_the_cache_stays_small(
    known: Map<Seq<char>, RiotId>,
    learned: Seq<(String, RiotId)>,
)
    requires
        known.dom().finite(),
        known.dom().len() <= MAX_CACHED,
        0 < learned.len() <= MAX_CACHED,
    ensures
        learned_names(
            if known.dom().len() + learned.len() > MAX_CACHED {
                Map::empty()
            } else {
                known
            },
            learned,
        ).dom().len() <= MAX_CACHED,
{
    lemma_learned_size(known, learned);
    lemma_learned_size(Map::empty(), learned);
}

/// Nobody is asked for twice, and nobody who is known.
pub proof fn law_only_strangers_are_asked_for(
    known: Map<Seq<char>, RiotId>,
    puuids: Seq<Seq<char>>,
)
    ensures
        unknown(known, puuids).no_duplicates(),
        forall|i: int|
            0 <= i < unknown(known, puuids).len() ==> !known.contains_key(
                #[trigger] unknown(known, puuids)[i],
            ) && unknown(known, puuids)[i].len() > 0,
    decreases puuids.len(),
{
    if puuids.len() > 0 {
        law_only_strangers_are_asked_for(known, puuids.drop_last());
    }
}

/// Every stranger is asked for: whoever is named, not known and among the players.
pub proof fn law_every_stranger_is_asked_for(
    known: Map<Seq<char>, RiotId>,
    puuids: Seq<Seq<char>>,
    p: Seq<char>,
)
    ensures
        unknown(known, puuids).contains(p) <==> puuids.contains(p) && p.len() > 0
            && !known.contains_key(p),
    decreases puuids.len(),
{
    if puuids.len() > 0 {
        let shorter = puuids.drop_last();
        let before = unknown(known, shorter);
        let after = unknown(known, puuids);
        law_every_stranger_is_asked_for(known, shorter, p);
        if shorter.contains(p) {
            let w = choose|w: int| 0 <= w < shorter.len() && shorter[w] == p;
            assert(puuids[w] == p);
        }
        assert(puuids[puuids.len() - 1] == puuids.last());
        if puuids.contains(p) && p != puuids.last() {
            let w = choose|w: int| 0 <= w < puuids.len() && puuids[w] == p;
            assert(shorter[w] == p);
        }
        if before.contains(p) {
            let w = choose|w: int| 0 <= w < before.len() && before[w] == p;
            assert(after[w] == p);
        }
        if after != before {
            assert(after[after.len() - 1] == puuids.last());
            if after.contains(p) && p != puuids.last() {
                let w = choose|w: int| 0 <= w < after.len() && after[w] == p;
                assert(before[w] == p);
            }
        }
    }
}

/// The last thing learned of a player is what is known, and what was known of others
/// stays.
pub proof fn law_the_latest_name_counts(
    known: Map<Seq<char>, RiotId>,
    learned: Seq<(String, RiotId)>,
    i: int,
    other: Seq<char>,
)
    ensures
        0 <= i < learned.len() && (forall|j: int|
            i < j < learned.len() ==> (#[trigger] learned[j]).0@ != learned[i].0@)
            ==> learned_names(known, learned).contains_key(learned[i].0@) && learned_names(
            known,
            learned,
        )[learned[i].0@] == learned[i].1,
        (forall|j: int| 0 <= j < learned.len() ==> (#[trigger] learned[j]).0@ != other) ==> (
        learned_names(known, learned).contains_key(other) <==> known.contains_key(other)) && (
        known.contains_key(other) ==> learned_names(known, learned)[other] == known[other]),
    decreases learned.len(),
{
    if learned.len() > 0 {
        let shorter = learned.drop_last();
        law_the_latest_name_counts(known, shorter, i, other);
        assert forall|j: int| 0 <= j < shorter.len() implies #[trigger] shorter[j]
            == learned[j] by {}
        if 0 <= i < learned.len() - 1 && (forall|j: int|
            i < j < learned.len() ==> (#[trigger] learned[j]).0@ != learned[i].0@) {
            assert(learned[learned.len() - 1].0@ != learned[i].0@);
            assert(shorter[i] == learned[i]);
            assert forall|j: int| i < j < shorter.len() implies (#[trigger] shorter[j]).0@
                != shorter[i].0@ by {
                assert(learned[j].0@ != learned[i].0@);
            }
        }
        if forall|j: int| 0 <= j < learned.len() ==> (#[trigger] learned[j]).0@ != other {
            assert(learned[learned.len() - 1].0@ != other);
            assert forall|j: int| 0 <= j < shorter.len() implies (#[trigger] shorter[j]).0@
                != other by {
                assert(learned[j].0@ != other);
            }
        }
    }
}

/// A player is shown by the game name, or by the display name where there is none;
/// the tag, where there is one, stands behind it.
pub proof fn law_how_a_player_is_named(s: SummonerResponse)
    ensures
        named_in(s) is None <==> s.game_name@.len() == 0 && s.display_name@.len() == 0,
        named_in(s) matches Some(id) ==> {
            &&& s.game_name@.len() > 0 ==> id.name == s.game_name@
            &&& s.game_name@.len() == 0 ==> id.name == s.display_name@
            &&& s.tag_line@.len() == 0 ==> id.full == id.name
            &&& s.tag_line@.len() > 0 ==> id.full == id.name + "#"@ + s.tag_line@
        },
{
}

} // verus!

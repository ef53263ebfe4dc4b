//! The League client's local API: finding its credentials, addressing it, and
//! reading what it pushes.

use crate::json;
use crate::json::Json;
use crate::text;
use vstd::prelude::*;

verus! {

#[derive(Debug)]
pub struct QueueModeInfo {
    pub game_mode: String,
    pub queue_id: i64,
    /// The map, which is the stable half of this pair. Mode codenames are
    /// rotated every patch, but map 12 has been the Howling Abyss for as long as
    /// ARAM has existed.
    pub map_id: i64,
}

#[derive(Debug)]
pub enum LcuEvent {
    Connected,
    Disconnected,
    ReadyCheck(Json),
    ChampSelect(Json),
    /// Champ select ended (the session resource was deleted).
    ChampSelectEnded,
    GameflowPhase(String),
    /// The whole lobby resource. `None` is the Delete event, which arrives with
    /// a null payload.
    Lobby(Option<Json>),
    /// Matchmaking search state: queue times, and why a queue start was refused.
    Search(Option<Json>),
    /// Champions the server will let us pick / ban right now. Ownership, free
    /// rotation and queue restrictions are already applied by the client.
    PickableChampions(Vec<i32>),
    BannableChampions(Vec<i32>),
    /// One champion's live grid entry: hovered, banned, taken.
    GridChampion(Json),
}

/// An event as a mathematical value.
pub enum EventView {
    Connected,
    Disconnected,
    ReadyCheck(json::Document),
    ChampSelect(json::Document),
    ChampSelectEnded,
    GameflowPhase(Seq<char>),
    Lobby(Option<json::Document>),
    Search(Option<json::Document>),
    PickableChampions(Seq<i32>),
    BannableChampions(Seq<i32>),
    GridChampion(json::Document),
}

pub open spec fn optional_document(j: Option<Json>) -> Option<json::Document> {
    match j {
        Some(j) => Some(j@),
        None => None,
    }
}

impl View for LcuEvent {
    type V = EventView;

    open spec fn view(&self) -> EventView {
        match self {
            LcuEvent::Connected => EventView::Connected,
            LcuEvent::Disconnected => EventView::Disconnected,
            LcuEvent::ReadyCheck(j) => EventView::ReadyCheck(j@),
            LcuEvent::ChampSelect(j) => EventView::ChampSelect(j@),
            LcuEvent::ChampSelectEnded => EventView::ChampSelectEnded,
            LcuEvent::GameflowPhase(s) => EventView::GameflowPhase(s@),
            LcuEvent::Lobby(j) => EventView::Lobby(optional_document(*j)),
            LcuEvent::Search(j) => EventView::Search(optional_document(*j)),
            LcuEvent::PickableChampions(ids) => EventView::PickableChampions(ids@),
            LcuEvent::BannableChampions(ids) => EventView::BannableChampions(ids@),
            LcuEvent::GridChampion(j) => EventView::GridChampion(j@),
        }
    }
}

pub open spec fn optional_event(e: Option<LcuEvent>) -> Option<EventView> {
    match e {
        Some(e) => Some(e@),
        None => None,
    }
}

// ── Credentials ──

#[derive(Debug)]
pub struct LcuCredentials {
    pub port: u16,
    pub password: String,
}

impl Clone for LcuCredentials {
    fn clone(&self) -> (r: Self)
        ensures
            r == *self,
    {
        LcuCredentials { port: self.port, password: self.password.clone() }
    }
}

/// The Base64 text, standard alphabet with padding, of a text's UTF-8 bytes.
pub uninterp spec fn base64_text(text: Seq<char>) -> Seq<char>;

/// `base64::engine::general_purpose::STANDARD.encode` of a text is a function of
/// the text alone.
#[verifier::external_body]
fn encode_base64(text: &str) -> (r: String)
    ensures
        r@ == base64_text(text@),
{
    base64::Engine::encode(&base64::engine::general_purpose::STANDARD, text)
}

/// The Basic authorization that an encoded user and password make.
pub fn basic_authorization(encoded: &str) -> (r: String)
    ensures
        r@ == "Basic "@ + encoded@,
{
    text::cat("Basic ", encoded)
}

impl LcuCredentials {
    /// The `Authorization` header of every request: user `riot` and the
    /// password.
    pub fn auth_header(&self) -> (r: String)
        ensures
            r@ == "Basic "@ + base64_text("riot:"@ + self.password@),
    {
        let encoded = encode_base64(text::cat("riot:", self.password.as_str()).as_str());
        basic_authorization(encoded.as_str())
    }

    pub open spec fn url_spec(self, path: Seq<char>) -> Seq<char> {
        "https://127.0.0.1:"@ + text::decimal(self.port as nat) + path
    }

    pub fn url(&self, path: &str) -> (r: String)
        ensures
            r@ == self.url_spec(path@),
    {
        text::cat3("https://127.0.0.1:", text::write_u64(self.port as u64).as_str(), path)
    }

    /// Where the client's event socket listens.
    pub fn socket_url(&self) -> (r: String)
        ensures
            r@ == "wss://127.0.0.1:"@ + text::decimal(self.port as nat) + "/"@,
    {
        text::cat3("wss://127.0.0.1:", text::write_u64(self.port as u64).as_str(), "/")
    }
}

/// The credentials in a lockfile `name:pid:port:password:protocol`.
pub open spec fn lockfile_credentials(content: Seq<char>) -> Option<(u16, Seq<char>)> {
    let parts = text::split_on(content, ':');
    if parts.len() < 5 {
        None
    } else {
        match text::port_value(parts[2]) {
            Some(port) => Some((port, parts[3])),
            None => None,
        }
    }
}

pub open spec fn credentials_view(c: Option<LcuCredentials>) -> Option<(u16, Seq<char>)> {
    match c {
        Some(c) => Some((c.port, c.password@)),
        None => None,
    }
}

pub fn parse_lockfile(content: &str) -> (r: Option<LcuCredentials>)
    ensures
        credentials_view(r) == lockfile_credentials(content@),
{
    let parts = text::split(content, ':');
    let ghost all = text::texts(parts@);
    if parts.len() < 5 {
        return None;
    }
    assert(all[2] == parts@[2]@ && all[3] == parts@[3]@);
    match text::parse_port(parts[2].as_str()) {
        Some(port) => Some(LcuCredentials { port, password: parts[3].clone() }),
        None => None,
    }
}

/// A character that ends the value of a command-line flag.
pub open spec fn ends_flag(c: char) -> bool {
    text::white_space(c) || c == '"'
}

/// How many characters stand before the first that ends a flag.
pub open spec fn flag_length(s: Seq<char>) -> nat
    decreases s.len(),
{
    if s.len() == 0 || ends_flag(s[0]) {
        0
    } else {
        1 + flag_length(s.drop_first())
    }
}

proof fn lemma_flag_length(s: Seq<char>)
    ensures
        flag_length(s) <= s.len(),
    decreases s.len(),
{
    if s.len() > 0 && !ends_flag(s[0]) {
        lemma_flag_length(s.drop_first());
    }
}

/// What follows the first `prefix` in a command line, up to white space or a
/// quote.
pub open spec fn flag_value(line: Seq<char>, prefix: Seq<char>) -> Option<Seq<char>> {
    if exists|i: int| text::first_at(line, prefix, i) {
        let i = choose|i: int| text::first_at(line, prefix, i);
        let rest = line.skip(i + prefix.len());
        Some(rest.take(flag_length(rest) as int))
    } else {
        None
    }
}

proof fn lemma_first_at_is_one(line: Seq<char>, prefix: Seq<char>, i: int, j: int)
    requires
        text::first_at(line, prefix, i),
        text::first_at(line, prefix, j),
    ensures
        i == j,
{
    if i < j {
        assert(!text::occurs_at(line, prefix, i));
    }
    if j < i {
        assert(!text::occurs_at(line, prefix, j));
    }
}

proof fn lemma_first_occurrence(line: Seq<char>, prefix: Seq<char>, i: int)
    requires
        text::first_at(line, prefix, i),
    ensures
        flag_value(line, prefix) == Some(
            line.skip(i + prefix.len()).take(flag_length(line.skip(i + prefix.len())) as int),
        ),
{
    let j = choose|j: int| text::first_at(line, prefix, j);
    lemma_first_at_is_one(line, prefix, i, j);
}

pub fn extract_arg(text: &str, prefix: &str) -> (r: Option<String>)
    ensures
        match r {
            Some(value) => flag_value(text@, prefix@) == Some(value@),
            None => flag_value(text@, prefix@) is None,
        },
{
    let line = text::chars_of(text);
    let wanted = text::chars_of(prefix);
    let start: usize = match text::find(&line, &wanted) {
        Some(i) => {
            proof {
                lemma_first_occurrence(text@, prefix@, i as int);
            }
            assert(i + wanted@.len() <= line.len());
            i + wanted.len()
        },
        None => {
            assert forall|i: int| !text::first_at(text@, prefix@, i) by {
                if text::first_at(text@, prefix@, i) {
                    assert(text::occurs_at(text@, prefix@, i));
                }
            }
            return None;
        },
    };
    let ghost rest = line@.skip(start as int);
    let mut end: usize = start;
    proof {
        assert(rest.skip(0) =~= rest);
    }
    while end < line.len() && !(line[end].is_whitespace() || line[end] == '"')
        invariant
            start <= end <= line@.len(),
            rest == line@.skip(start as int),
            flag_length(rest) == (end - start) + flag_length(rest.skip(end - start)),
        decreases line@.len() - end,
    {
        proof {
            let here = rest.skip(end - start);
            assert(here[0] == line@[end as int]);
            assert(here.drop_first() =~= rest.skip(end + 1 - start));
        }
        end += 1;
    }
    proof {
        let here = rest.skip(end - start);
        if end < line@.len() {
            assert(here[0] == line@[end as int]);
        }
        assert(flag_length(here) == 0);
        assert(line@.subrange(start as int, end as int) =~= rest.take(end - start));
    }
    Some(text::text_of(&line, start, end))
}

/// The credentials on the client's own command line.
pub open spec fn command_line_credentials(line: Seq<char>) -> Option<(u16, Seq<char>)> {
    match flag_value(line, "--app-port="@) {
        Some(port) => match text::port_value(port) {
            Some(port) => match flag_value(line, "--remoting-auth-token="@) {
                Some(password) => Some((port, password)),
                None => None,
            },
            None => None,
        },
        None => None,
    }
}

/// Reads the port and the token straight off the running client's command line.
pub fn credentials_from_command_line(line: &str) -> (r: Option<LcuCredentials>)
    ensures
        credentials_view(r) == command_line_credentials(line@),
{
    match extract_arg(line, "--app-port=") {
        Some(port) => match text::parse_port(port.as_str()) {
            Some(port) => match extract_arg(line, "--remoting-auth-token=") {
                Some(password) => Some(LcuCredentials { port, password }),
                None => None,
            },
            None => None,
        },
        None => None,
    }
}

// ── Where a lockfile may lie ──

pub open spec fn lockfile_suffix(k: int) -> Seq<char> {
    if k == 0 {
        "Riot Games\\League of Legends\\lockfile"@
    } else if k == 1 {
        "Program Files\\Riot Games\\League of Legends\\lockfile"@
    } else {
        "Program Files (x86)\\Riot Games\\League of Legends\\lockfile"@
    }
}

pub open spec fn drive_letter(d: int) -> char {
    (('C' as u32) + d) as char
}

pub open spec fn lockfile_path(d: int, k: int) -> Seq<char> {
    seq![drive_letter(d)] + ":\\"@ + lockfile_suffix(k)
}

/// The path of one lockfile on one drive.
fn lockfile_on(letter: char, suffix: &str) -> (r: String)
    ensures
        r@ == seq![letter] + ":\\"@ + suffix@,
{
    let mut out = String::new();
    out.push(letter);
    assert(out@ =~= seq![letter]);
    out.append(":\\");
    out.append(suffix);
    out
}

/// Every place to look for a lockfile, in order: the common install roots on
/// each of the drives C to Z.
pub fn lockfile_paths() -> (r: Vec<String>)
    ensures
        r@.len() == 24 * 3,
        forall|d: int, k: int|
            0 <= d < 24 && 0 <= k < 3 ==> (#[trigger] text::texts(r@)[3 * d + k]) == #[trigger] lockfile_path(
                d,
                k,
            ),
{
    let mut out: Vec<String> = Vec::new();
    let mut d: u8 = 0;
    while d < 24
        invariant
            d <= 24,
            out@.len() == 3 * d,
            forall|e: int, k: int|
                0 <= e < d && 0 <= k < 3 ==> (#[trigger] text::texts(out@)[3 * e + k])
                    == #[trigger] lockfile_path(e, k),
        decreases 24 - d,
    {
        let ghost before = text::texts(out@);
        let letter = (('C' as u8) + d) as char;
        assert(letter == drive_letter(d as int));
        out.push(lockfile_on(letter, "Riot Games\\League of Legends\\lockfile"));
        out.push(lockfile_on(letter, "Program Files\\Riot Games\\League of Legends\\lockfile"));
        out.push(
            lockfile_on(letter, "Program Files (x86)\\Riot Games\\League of Legends\\lockfile"),
        );
        d += 1;
        proof {
            let now = text::texts(out@);
            assert forall|e: int, k: int| 0 <= e < d && 0 <= k < 3 implies (
            #[trigger] now[3 * e + k]) == #[trigger] lockfile_path(e, k) by {
                if e < d - 1 {
                    assert(now[3 * e + k] == before[3 * e + k]);
                }
            }
        }
    }
    out
}

// ── How often to look at the running processes ──

/// The longest wait between two looks at the process table, in search cycles.
pub const MAX_PROCESS_SCAN_GAP: u32 = 60;

/// Decides in which search cycles the expensive look at the process table is
/// worth its price: at the first, and then exponentially less often.
#[derive(Clone, Copy, PartialEq, Eq, Debug, Structural)]
pub struct ProcessScan {
    pub cycles_left: u32,
    pub gap: u32,
}

impl ProcessScan {
    pub open spec fn valid(self) -> bool {
        1 <= self.gap <= MAX_PROCESS_SCAN_GAP
    }

    /// Before the first search, and after a client was found: eager again.
    pub open spec fn eager_spec() -> ProcessScan {
        ProcessScan { cycles_left: 0, gap: 1 }
    }

    pub open spec fn after_cycle(self) -> ProcessScan {
        if self.cycles_left == 0 {
            ProcessScan {
                cycles_left: self.gap,
                gap: if self.gap * 2 <= MAX_PROCESS_SCAN_GAP {
                    (self.gap * 2) as u32
                } else {
                    MAX_PROCESS_SCAN_GAP
                },
            }
        } else {
            ProcessScan { cycles_left: (self.cycles_left - 1) as u32, gap: self.gap }
        }
    }

    /// The state after some more cycles that found nothing.
    pub open spec fn after_cycles(self, n: nat) -> ProcessScan
        decreases n,
    {
        if n == 0 {
            self
        } else {
            self.after_cycle().after_cycles((n - 1) as nat)
        }
    }

    pub fn eager() -> (r: Self)
        ensures
            r == ProcessScan::eager_spec(),
            r.valid(),
    {
        ProcessScan { cycles_left: 0, gap: 1 }
    }

    /// Begins a search cycle: whether it looks at the process table too.
    pub fn begin_cycle(&mut self) -> (scan: bool)
        requires
            old(self).valid(),
        ensures
            scan == (old(self).cycles_left == 0),
            *final(self) == old(self).after_cycle(),
            final(self).valid(),
    {
        if self.cycles_left == 0 {
            self.cycles_left = self.gap;
            let doubled: u32 = self.gap * 2;
            self.gap = if doubled <= MAX_PROCESS_SCAN_GAP {
                doubled
            } else {
                MAX_PROCESS_SCAN_GAP
            };
            true
        } else {
            self.cycles_left = self.cycles_left - 1;
            false
        }
    }
}

/// After a look at the process table, as many cycles pass without one as the gap
/// says, and then comes the next; the gap never outgrows its limit.
pub proof fn law_process_scans_are_spaced(scan: ProcessScan, n: nat)
    requires
        scan.valid(),
        scan.cycles_left == 0,
        1 <= n <= scan.gap + 1,
    ensures
        scan.after_cycles(n).valid(),
        scan.after_cycles(n).cycles_left == scan.gap + 1 - n,
    decreases n,
{
    lemma_countdown(scan.after_cycle(), (n - 1) as nat);
}

proof fn lemma_countdown(scan: ProcessScan, n: nat)
    requires
        scan.valid(),
        n <= scan.cycles_left,
    ensures
        scan.after_cycles(n) == (ProcessScan {
            cycles_left: (scan.cycles_left - n) as u32,
            gap: scan.gap,
        }),
    decreases n,
{
    if n > 0 {
        lemma_countdown(scan.after_cycle(), (n - 1) as nat);
    }
}

// ── Pushed events ──

/// The integers of a bare JSON array, each cut to 32 bits; anything else in it
/// is left out.
pub open spec fn ids_in(items: Seq<json::Document>) -> Seq<i32>
    decreases items.len(),
{
    if items.len() == 0 {
        Seq::empty()
    } else {
        let before = ids_in(items.drop_last());
        match items.last().int64() {
            Some(id) => before.push(id as i32),
            None => before,
        }
    }
}

pub open spec fn champion_ids_spec(data: json::Document) -> Seq<i32> {
    match data.array() {
        Some(items) => ids_in(items),
        None => Seq::empty(),
    }
}

/// The champion ids in a resource that is a bare array of ints.
pub fn champion_ids(data: &Json) -> (r: Vec<i32>)
    ensures
        r@ == champion_ids_spec(data@),
{
    let mut out: Vec<i32> = Vec::new();
    if let Some(items) = data.as_array() {
        let ghost all = json::documents(items@);
        let mut i: usize = 0;
        while i < items.len()
            invariant
                i <= items@.len(),
                all == json::documents(items@),
                out@ == ids_in(all.take(i as int)),
            decreases items@.len() - i,
        {
            proof {
                assert(all.take(i + 1).drop_last() =~= all.take(i as int));
                assert(all.take(i + 1).last() == items@[i as int]@);
            }
            if let Some(id) = items[i].as_i64() {
                out.push(id as i32);
            }
            i += 1;
        }
        assert(all.take(i as int) =~= all);
    }
    out
}

/// The event that one pushed resource means.
pub open spec fn resource_event(
    uri: Seq<char>,
    deleted: bool,
    data: json::Document,
) -> Option<EventView> {
    if uri == "/lol-matchmaking/v1/ready-check"@ {
        Some(EventView::ReadyCheck(data))
    } else if uri == "/lol-champ-select/v1/session"@ {
        if deleted {
            Some(EventView::ChampSelectEnded)
        } else {
            Some(EventView::ChampSelect(data))
        }
    } else if uri == "/lol-gameflow/v1/gameflow-phase"@ {
        match data.string() {
            Some(phase) => Some(EventView::GameflowPhase(phase)),
            None => None,
        }
    } else if uri == "/lol-lobby/v2/lobby"@ {
        if deleted {
            Some(EventView::Lobby(None))
        } else if data.member("gameConfig"@) is Some {
            Some(EventView::Lobby(Some(data)))
        } else {
            None
        }
    } else if uri == "/lol-matchmaking/v1/search"@ {
        Some(
            EventView::Search(
                if deleted {
                    None
                } else {
                    Some(data)
                },
            ),
        )
    } else if uri == "/lol-champ-select/v1/pickable-champion-ids"@ {
        Some(
            EventView::PickableChampions(
                if deleted {
                    Seq::empty()
                } else {
                    champion_ids_spec(data)
                },
            ),
        )
    } else if uri == "/lol-champ-select/v1/bannable-champion-ids"@ {
        Some(
            EventView::BannableChampions(
                if deleted {
                    Seq::empty()
                } else {
                    champion_ids_spec(data)
                },
            ),
        )
    } else if "/lol-champ-select/v1/grid-champions/"@.is_prefix_of(uri) && !deleted {
        Some(EventView::GridChampion(data))
    } else {
        None
    }
}

/// The number that opens an event message of the client's socket protocol.
pub const EVENT_OPCODE: u64 = 8;

/// The event in one message `[8, name, { uri, eventType, data }]`.
pub open spec fn message_event(message: json::Document) -> Option<EventView> {
    match message.array() {
        Some(parts) => if parts.len() < 3 || parts[0].uint64() != Some(EVENT_OPCODE) {
            None
        } else {
            match parts[2] {
                json::Document::Object(_) => resource_event(
                    parts[2].string_or("uri"@, ""@),
                    parts[2].string_or("eventType"@, ""@) == "Delete"@,
                    match parts[2].member("data"@) {
                        Some(data) => data,
                        None => json::Document::Null,
                    },
                ),
                _ => None,
            }
        },
        None => None,
    }
}

fn ids_unless(deleted: bool, data: &Json) -> (r: Vec<i32>)
    ensures
        r@ == if deleted {
            Seq::empty()
        } else {
            champion_ids_spec(data@)
        },
{
    if deleted {
        Vec::new()
    } else {
        champion_ids(data)
    }
}

/// Reads one pushed resource.
///
/// The lobby's `gameConfig` guard is load-bearing. The client also pushes
/// partial lobby payloads, and one of those would read as an empty lobby (no
/// mode, no leader, capacity 0) and overwrite a perfectly good snapshot.
pub fn event_of_resource(uri: &str, deleted: bool, data: Json) -> (r: Option<LcuEvent>)
    ensures
        optional_event(r) == resource_event(uri@, deleted, data@),
{
    if text::same(uri, "/lol-matchmaking/v1/ready-check") {
        Some(LcuEvent::ReadyCheck(data))
    } else if text::same(uri, "/lol-champ-select/v1/session") {
        if deleted {
            Some(LcuEvent::ChampSelectEnded)
        } else {
            Some(LcuEvent::ChampSelect(data))
        }
    } else if text::same(uri, "/lol-gameflow/v1/gameflow-phase") {
        match data.as_str() {
            Some(phase) => Some(LcuEvent::GameflowPhase(phase.to_owned())),
            None => None,
        }
    } else if text::same(uri, "/lol-lobby/v2/lobby") {
        if deleted {
            Some(LcuEvent::Lobby(None))
        } else if data.get("gameConfig").is_some() {
            Some(LcuEvent::Lobby(Some(data)))
        } else {
            None
        }
    } else if text::same(uri, "/lol-matchmaking/v1/search") {
        Some(
            LcuEvent::Search(
                if deleted {
                    None
                } else {
                    Some(data)
                },
            ),
        )
    } else if text::same(uri, "/lol-champ-select/v1/pickable-champion-ids") {
        Some(LcuEvent::PickableChampions(ids_unless(deleted, &data)))
    } else if text::same(uri, "/lol-champ-select/v1/bannable-champion-ids") {
        Some(LcuEvent::BannableChampions(ids_unless(deleted, &data)))
    } else if text::starts_with(uri, "/lol-champ-select/v1/grid-champions/") && !deleted {
        Some(LcuEvent::GridChampion(data))
    } else {
        None
    }
}

/// The event in one message that has been parsed.
pub fn event_of_message(message: Json) -> (r: Option<LcuEvent>)
    ensures
        optional_event(r) == message_event(message@),
{
    let ghost parts = message@.array();
    match message {
        Json::Array(items) => {
            let mut items = items;
            assert(parts->0 =~= json::documents(items@));
            if items.len() < 3 || items[0].as_u64() != Some(EVENT_OPCODE) {
                return None;
            }
            let payload = items.swap_remove(2);
            assert(payload@ == parts->0[2]);
            let is_object = match &payload {
                Json::Object(_) => true,
                _ => false,
            };
            if !is_object {
                return None;
            }
            let uri = payload.str_or("uri", "").to_owned();
            let deleted = text::same(payload.str_or("eventType", ""), "Delete");
            let data = match payload.into_member("data") {
                Some(data) => data,
                None => Json::Null,
            };
            event_of_resource(uri.as_str(), deleted, data)
        },
        _ => None,
    }
}

/// The event in one text message of the client's socket, if it holds one.
pub fn parse_lcu_message(text: &str) -> (r: Option<LcuEvent>)
    ensures
        optional_event(r) == match json::parsed(text@) {
            Some(message) => message_event(message),
            None => None,
        },
{
    match json::parse(text) {
        Some(message) => event_of_message(message),
        None => None,
    }
}

/// A lobby push without a game configuration says nothing: it neither opens nor
/// closes a lobby.
pub proof fn law_a_partial_lobby_is_ignored(data: json::Document)
    requires
        data.member("gameConfig"@) is None,
    ensures
        resource_event("/lol-lobby/v2/lobby"@, false, data) is None,
{
    reveal_strlit("/lol-matchmaking/v1/ready-check");
    reveal_strlit("/lol-champ-select/v1/session");
    reveal_strlit("/lol-gameflow/v1/gameflow-phase");
    reveal_strlit("/lol-lobby/v2/lobby");
    assert("/lol-lobby/v2/lobby"@.len() == 19);
    assert("/lol-matchmaking/v1/ready-check"@.len() == 31);
    assert("/lol-champ-select/v1/session"@.len() == 28);
    assert("/lol-gameflow/v1/gameflow-phase"@.len() == 31);
}

// ── The state at the start of a session ──

/// What only pushes on change, and so is asked for once on connecting.
#[derive(Clone, Copy, PartialEq, Eq, Debug, Structural)]
pub enum Resource {
    Lobby,
    Search,
    GameflowPhase,
    ChampSelect,
}

impl Resource {
    pub open spec fn path_spec(self) -> Seq<char> {
        match self {
            Resource::Lobby => "/lol-lobby/v2/lobby"@,
            Resource::Search => "/lol-matchmaking/v1/search"@,
            Resource::GameflowPhase => "/lol-gameflow/v1/gameflow-phase"@,
            Resource::ChampSelect => "/lol-champ-select/v1/session"@,
        }
    }

    pub fn path(self) -> (r: &'static str)
        ensures
            r@ == self.path_spec(),
    {
        match self {
            Resource::Lobby => "/lol-lobby/v2/lobby",
            Resource::Search => "/lol-matchmaking/v1/search",
            Resource::GameflowPhase => "/lol-gameflow/v1/gameflow-phase",
            Resource::ChampSelect => "/lol-champ-select/v1/session",
        }
    }
}

/// The event that the first answer for a resource means; `None` as the answer is
/// a request that failed.
pub open spec fn initial_event_spec(
    resource: Resource,
    answer: Option<json::Document>,
) -> Option<EventView> {
    match resource {
        Resource::Lobby => Some(EventView::Lobby(answer)),
        Resource::Search => match answer {
            Some(data) => Some(EventView::Search(Some(data))),
            None => None,
        },
        Resource::GameflowPhase => match answer {
            Some(data) => match data.string() {
                Some(phase) => Some(EventView::GameflowPhase(phase)),
                None => None,
            },
            None => None,
        },
        Resource::ChampSelect => match answer {
            Some(data) => if data.member("theirTeam"@) is Some {
                Some(EventView::ChampSelect(data))
            } else {
                None
            },
            None => None,
        },
    }
}

/// The event that the first answer for a resource means. A lobby that cannot be
/// had is no lobby; everything else is simply not announced.
pub fn initial_event(resource: Resource, answer: Option<Json>) -> (r: Option<LcuEvent>)
    ensures
        optional_event(r) == initial_event_spec(resource, optional_document(answer)),
{
    match resource {
        Resource::Lobby => Some(LcuEvent::Lobby(answer)),
        Resource::Search => match answer {
            Some(data) => Some(LcuEvent::Search(Some(data))),
            None => None,
        },
        Resource::GameflowPhase => match answer {
            Some(data) => match data.as_str() {
                Some(phase) => Some(LcuEvent::GameflowPhase(phase.to_owned())),
                None => None,
            },
            None => None,
        },
        Resource::ChampSelect => match answer {
            Some(data) => if data.get("theirTeam").is_some() {
                Some(LcuEvent::ChampSelect(data))
            } else {
                None
            },
            None => None,
        },
    }
}

// ── Answers ──

/// What an HTTP answer of the client comes to. `json` is what its text parses
/// to.
pub open spec fn answer_of(
    status: u16,
    text: Seq<char>,
    json: Option<json::Document>,
) -> Result<json::Document, Seq<char>> {
    if !(200 <= status < 300) {
        Err("HTTP "@ + text::decimal(status as nat) + " - "@ + text)
    } else if text.len() == 0 {
        Ok(json::Document::Null)
    } else {
        match json {
            Some(data) => Ok(data),
            None => Ok(json::Document::Null),
        }
    }
}

/// Reads an HTTP answer of the client: its JSON, `null` where it has none, and
/// the status and text of a failure.
pub fn read_answer(status: u16, text: &str) -> (r: Result<Json, String>)
    ensures
        match r {
            Ok(data) => answer_of(status, text@, json::parsed(text@)) == Ok::<
                json::Document,
                Seq<char>,
            >(data@),
            Err(message) => answer_of(status, text@, json::parsed(text@)) == Err::<
                json::Document,
                Seq<char>,
            >(message@),
        },
{
    if !(200 <= status && status < 300) {
        let mut message = text::cat("HTTP ", text::write_u64(status as u64).as_str());
        message.append(" - ");
        message.append(text);
        return Err(message);
    }
    if text.is_empty() {
        return Ok(Json::Null);
    }
    match json::parse(text) {
        Some(data) => Ok(data),
        None => Ok(Json::Null),
    }
}

// ── Laws ──

/// A lockfile's third part is the port and its fourth the password, whatever the
/// other parts say.
pub proof fn law_a_lockfile_is_read(
    name: Seq<char>,
    pid: Seq<char>,
    port: Seq<char>,
    password: Seq<char>,
    protocol: Seq<char>,
)
    requires
        !name.contains(':') && !pid.contains(':') && !port.contains(':') && !password.contains(
            ':',
        ) && !protocol.contains(':'),
    ensures
        ({
            let content = name.push(':') + pid;
            let content = content.push(':') + port;
            let content = content.push(':') + password;
            let content = content.push(':') + protocol;
            match text::port_value(port) {
                Some(number) => lockfile_credentials(content) == Some((number, password)),
                None => lockfile_credentials(content) is None,
            }
        }),
{
    let one = name.push(':') + pid;
    let two = one.push(':') + port;
    let three = two.push(':') + password;
    text::law_pieces_end_at_the_separator(name, name, ':');
    text::law_pieces_end_at_the_separator(name, pid, ':');
    text::law_pieces_end_at_the_separator(one, port, ':');
    text::law_pieces_end_at_the_separator(two, password, ':');
    text::law_pieces_end_at_the_separator(three, protocol, ':');
}

/// A flag's value is what follows it up to white space or a quote.
pub proof fn law_a_flag_is_read(line: Seq<char>, prefix: Seq<char>, at: int, end: int)
    requires
        text::first_at(line, prefix, at),
        at + prefix.len() <= end <= line.len(),
        forall|i: int|
            at + prefix.len() <= i < end ==> !(text::white_space(#[trigger] line[i]) || line[i]
                == '"'),
        end < line.len() ==> text::white_space(line[end]) || line[end] == '"',
    ensures
        flag_value(line, prefix) == Some(line.subrange(at + prefix.len(), end)),
{
    lemma_first_occurrence(line, prefix, at);
    let rest = line.skip(at + prefix.len());
    let n = end - at - prefix.len();
    lemma_flag_ends(rest, n as int);
    assert(rest.take(n as int) =~= line.subrange(at + prefix.len(), end));
}

proof fn lemma_flag_ends(s: Seq<char>, n: int)
    requires
        0 <= n <= s.len(),
        forall|i: int| 0 <= i < n ==> !(text::white_space(#[trigger] s[i]) || s[i] == '"'),
        n < s.len() ==> text::white_space(s[n]) || s[n] == '"',
    ensures
        flag_length(s) == n,
    decreases s.len(),
{
    if n > 0 {
        assert(!ends_flag(s[0]));
        let rest = s.drop_first();
        assert forall|i: int| 0 <= i < n - 1 implies !(text::white_space(#[trigger] rest[i])
            || rest[i] == '"') by {
            assert(rest[i] == s[i + 1]);
        }
        lemma_flag_ends(rest, n - 1);
    }
}

/// The command line gives the credentials where both of its flags do: the port under
/// its own flag, the password under the other.
pub proof fn law_a_command_line_is_read(line: Seq<char>)
    ensures
        command_line_credentials(line) matches Some((port, password)) ==> {
            &&& flag_value(line, "--app-port="@) is Some
            &&& text::port_value(flag_value(line, "--app-port="@)->0) == Some(port)
            &&& flag_value(line, "--remoting-auth-token="@) == Some(password)
        },
        flag_value(line, "--app-port="@) is Some && flag_value(line, "--remoting-auth-token="@)
            is Some && text::port_value(flag_value(line, "--app-port="@)->0) is Some
            ==> command_line_credentials(line) is Some,
{
}

/// Each resource has its own event, which carries what was pushed; a deleted one
/// carries nothing.
pub proof fn law_each_resource_has_its_event(data: json::Document)
    ensures
        resource_event("/lol-matchmaking/v1/ready-check"@, false, data) == Some(
            EventView::ReadyCheck(data),
        ),
        resource_event("/lol-champ-select/v1/session"@, false, data) == Some(
            EventView::ChampSelect(data),
        ),
        resource_event("/lol-champ-select/v1/session"@, true, data) == Some(
            EventView::ChampSelectEnded,
        ),
        data.string() matches Some(phase) ==> resource_event(
            "/lol-gameflow/v1/gameflow-phase"@,
            false,
            data,
        ) == Some(EventView::GameflowPhase(phase)),
        data.member("gameConfig"@) is Some ==> resource_event("/lol-lobby/v2/lobby"@, false, data)
            == Some(EventView::Lobby(Some(data))),
        resource_event("/lol-lobby/v2/lobby"@, true, data) == Some(EventView::Lobby(None)),
        resource_event("/lol-matchmaking/v1/search"@, false, data) == Some(
            EventView::Search(Some(data)),
        ),
        resource_event("/lol-matchmaking/v1/search"@, true, data) == Some(EventView::Search(None)),
        resource_event("/lol-champ-select/v1/pickable-champion-ids"@, false, data) == Some(
            EventView::PickableChampions(champion_ids_spec(data)),
        ),
        resource_event("/lol-champ-select/v1/bannable-champion-ids"@, false, data) == Some(
            EventView::BannableChampions(champion_ids_spec(data)),
        ),
{
    reveal_strlit("/lol-matchmaking/v1/ready-check");
    reveal_strlit("/lol-champ-select/v1/session");
    reveal_strlit("/lol-gameflow/v1/gameflow-phase");
    reveal_strlit("/lol-lobby/v2/lobby");
    reveal_strlit("/lol-matchmaking/v1/search");
    reveal_strlit("/lol-champ-select/v1/pickable-champion-ids");
    reveal_strlit("/lol-champ-select/v1/bannable-champion-ids");
    assert("/lol-matchmaking/v1/ready-check"@.len() == 31);
    assert("/lol-champ-select/v1/session"@.len() == 28);
    assert("/lol-gameflow/v1/gameflow-phase"@.len() == 31);
    assert("/lol-lobby/v2/lobby"@.len() == 19);
    assert("/lol-matchmaking/v1/search"@.len() == 26);
    assert("/lol-champ-select/v1/pickable-champion-ids"@.len() == 42);
    assert("/lol-champ-select/v1/bannable-champion-ids"@.len() == 42);
    assert("/lol-matchmaking/v1/ready-check"@[5] == 'm');
    assert("/lol-gameflow/v1/gameflow-phase"@[5] == 'g');
    assert("/lol-champ-select/v1/pickable-champion-ids"@[21] == 'p');
    assert("/lol-champ-select/v1/bannable-champion-ids"@[21] == 'b');
}

/// The ids of a list are its integers, in their order.
pub proof fn law_the_ids_of_a_list(items: Seq<json::Document>)
    ensures
        ids_in(items) == items.filter_map(
            |d: json::Document|
                match d.int64() {
                    Some(id) => Some(id as i32),
                    None => None,
                },
        ),
    decreases items.len(),
{
    let f = |d: json::Document|
        match d.int64() {
            Some(id) => Some(id as i32),
            None => None,
        };
    if items.len() > 0 {
        law_the_ids_of_a_list(items.drop_last());
        if let Some(id) = items.last().int64() {
            let before = items.drop_last().filter_map(f);
            assert(before + seq![id as i32] =~= before.push(id as i32));
        }
    }
}

/// A message is an event only as an array that opens with an eight and holds an object
/// in its third place; what the object says of its resource is what counts.
pub proof fn law_what_an_event_message_is(message: json::Document)
    ensures
        message_event(message) is Some ==> (message.array() matches Some(parts) && parts.len() >= 3
            && parts[0].uint64() == Some(8u64) && parts[2] is Object),
        message.array() matches Some(parts) ==> (parts.len() >= 3 && parts[0].uint64() == Some(8u64)
            && parts[2] is Object && parts[2].member("data"@) is Some ==> message_event(message)
            == resource_event(
            parts[2].string_or("uri"@, ""@),
            parts[2].string_at("eventType"@) == Some("Delete"@),
            parts[2].member("data"@)->0,
        )),
{
    reveal_strlit("");
    reveal_strlit("Delete");
    assert(""@.len() == 0 && "Delete"@.len() == 6);
}

/// A success gives what the client sent, and nothing where it sent nothing that can be
/// read; anything else is a failure that names the status and carries the text.
pub proof fn law_what_an_answer_comes_to(
    status: u16,
    text: Seq<char>,
    json: Option<json::Document>,
)
    ensures
        answer_of(status, text, json) is Ok <==> 200 <= status <= 299,
        200 <= status <= 299 && text.len() > 0 ==> (json matches Some(data) ==> answer_of(
            status,
            text,
            json,
        ) == Ok::<json::Document, Seq<char>>(data)),
        200 <= status <= 299 && (text.len() == 0 || json is None) ==> answer_of(status, text, json)
            == Ok::<json::Document, Seq<char>>(json::Document::Null),
{
}

/// On connecting, each resource is announced as its own event; a lobby that cannot be
/// had is no lobby, and a draft is one only with its other team.
pub proof fn law_what_is_announced_at_first(data: json::Document)
    ensures
        initial_event_spec(Resource::Lobby, Some(data)) == Some(EventView::Lobby(Some(data))),
        initial_event_spec(Resource::Lobby, None) == Some(EventView::Lobby(None)),
        initial_event_spec(Resource::Search, Some(data)) == Some(EventView::Search(Some(data))),
        initial_event_spec(Resource::Search, None) is None,
        initial_event_spec(Resource::GameflowPhase, None) is None,
        data.string() matches Some(phase) ==> initial_event_spec(
            Resource::GameflowPhase,
            Some(data),
        ) == Some(EventView::GameflowPhase(phase)),
        initial_event_spec(Resource::ChampSelect, None) is None,
        initial_event_spec(Resource::ChampSelect, Some(data)) == (if data.member("theirTeam"@)
            is Some {
            Some(EventView::ChampSelect(data))
        } else {
            None
        }),
{
}

} // verus!

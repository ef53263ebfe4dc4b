//! Staying connected to the relay.

use crate::json;
use crate::json::Json;
use crate::text;
use crate::time;
use vstd::prelude::*;

verus! {

/// Bounds on the wait before reconnecting, in seconds. A game lasts about half
/// an hour, so there is no point climbing past a delay that would burn a
/// meaningful slice of it.
pub const RECONNECT_MIN_SECS: u64 = 2;

pub const RECONNECT_MAX_SECS: u64 = 30;

/// Outgoing keepalive, matching the relay's own interval, in seconds. Without
/// traffic in both directions a half-open connection looks alive from here
/// while the relay has already given up on it.
pub const PING_INTERVAL_SECS: u64 = 30;

/// What the sync connection is doing, for the user's log.
#[derive(Debug)]
pub enum SyncStatus {
    Connected,
    Lost(String),
    Retrying { in_secs: u64 },
}

pub enum StatusView {
    Connected,
    Lost(Seq<char>),
    Retrying { in_secs: u64 },
}

impl View for SyncStatus {
    type V = StatusView;

    open spec fn view(&self) -> StatusView {
        match self {
            SyncStatus::Connected => StatusView::Connected,
            SyncStatus::Lost(why) => StatusView::Lost(why@),
            SyncStatus::Retrying { in_secs } => StatusView::Retrying { in_secs: *in_secs },
        }
    }
}

impl StatusView {
    pub open spec fn line(self) -> Seq<char> {
        match self {
            StatusView::Connected => "Sync connectat"@,
            StatusView::Lost(why) => "Error de sync: "@ + why,
            StatusView::Retrying { in_secs } => "Reconnectant sync en "@ + text::decimal(
                in_secs as nat,
            ) + "s..."@,
        }
    }
}

impl SyncStatus {
    /// Catalan, for the log.
    pub fn describe(&self) -> (r: String)
        ensures
            r@ == self@.line(),
    {
        match self {
            SyncStatus::Connected => "Sync connectat".to_owned(),
            SyncStatus::Lost(why) => text::cat("Error de sync: ", why.as_str()),
            SyncStatus::Retrying { in_secs } => text::cat3(
                "Reconnectant sync en ",
                text::write_u64(*in_secs).as_str(),
                "s...",
            ),
        }
    }
}

/// A text without the slashes at its end.
pub open spec fn without_end_slashes(s: Seq<char>) -> Seq<char>
    decreases s.len(),
{
    if s.len() > 0 && s.last() == '/' {
        without_end_slashes(s.drop_last())
    } else {
        s
    }
}

/// Where the relay's socket is, on a server given with or without a slash at the
/// end.
pub fn socket_url(server_url: &str) -> (r: String)
    ensures
        r@ == without_end_slashes(server_url@) + "/ws"@,
{
    let v = text::chars_of(server_url);
    let mut end: usize = v.len();
    assert(v@.take(end as int) =~= server_url@);
    while end > 0 && v[end - 1] == '/'
        invariant
            v@ == server_url@,
            end <= v@.len(),
            without_end_slashes(server_url@) == without_end_slashes(v@.take(end as int)),
        decreases end,
    {
        assert(v@.take(end as int).drop_last() =~= v@.take(end - 1));
        end -= 1;
    }
    assert(v@.subrange(0, end as int) =~= v@.take(end as int));
    let base = text::text_of(&v, 0, end);
    text::cat(base.as_str(), "/ws")
}

/// The wait before the next attempt to connect.
#[derive(Clone, Copy, PartialEq, Eq, Debug, Structural)]
pub struct Reconnect {
    pub delay_secs: u64,
}

impl Reconnect {
    pub open spec fn valid(self) -> bool {
        RECONNECT_MIN_SECS <= self.delay_secs <= RECONNECT_MAX_SECS
    }

    pub fn new() -> (r: Self)
        ensures
            r.delay_secs == RECONNECT_MIN_SECS,
            r.valid(),
    {
        Reconnect { delay_secs: RECONNECT_MIN_SECS }
    }

    /// A session has ended: what to report, and how many seconds to wait.
    ///
    /// One that ran and then ended means that the peer went away: the next
    /// attempt usually succeeds, so it is made promptly. One that never got off
    /// the ground is tried again less and less often.
    pub fn session_ended(&mut self, outcome: Result<(), String>) -> (r: (SyncStatus, u64))
        requires
            old(self).valid(),
        ensures
            r.0@ == StatusView::Lost(
                match outcome {
                    Ok(_) => "connexió tancada"@,
                    Err(why) => why@,
                },
            ),
            r.1 == (match outcome {
                Ok(_) => RECONNECT_MIN_SECS,
                Err(_) => old(self).delay_secs,
            }),
            final(self).delay_secs == time::doubled(r.1, RECONNECT_MAX_SECS),
            final(self).valid(),
    {
        let why = match outcome {
            Ok(_) => {
                self.delay_secs = RECONNECT_MIN_SECS;
                "connexió tancada".to_owned()
            },
            Err(why) => why,
        };
        let wait: u64 = self.delay_secs;
        self.delay_secs = time::next_wait(wait, RECONNECT_MAX_SECS);
        (SyncStatus::Lost(why), wait)
    }
}

/// Whether a timer can be sent to the team at all. It fails loudly rather than
/// silently while the connection is down, instead of pretending that the team
/// saw it.
pub fn check_connected(connected: bool) -> (r: Result<(), String>)
    ensures
        r is Ok == connected,
        r matches Err(why) ==> why@ == "sync desconnectat"@,
{
    if connected {
        Ok(())
    } else {
        Err("sync desconnectat".to_owned())
    }
}

/// The game that a session of the client is about.
pub open spec fn game_in(session: json::Document) -> Option<Seq<char>> {
    match session.member("gameData"@) {
        Some(data) => match data.int_at("gameId"@) {
            Some(id) => if id > 0 {
                Some(text::decimal_int(id as int))
            } else {
                None
            },
            None => None,
        },
        None => None,
    }
}

/// The relay room's key. Without one, every player of every game would share one
/// room, so nothing is synced then.
pub fn game_id_of(session: &Json) -> (r: Option<String>)
    ensures
        match r {
            Some(id) => game_in(session@) == Some(id@),
            None => game_in(session@) is None,
        },
{
    match session.get("gameData") {
        Some(data) => match data.i64_at("gameId") {
            Some(id) => if id > 0 {
                Some(text::write_i64(id))
            } else {
                None
            },
            None => None,
        },
        None => None,
    }
}

// ── Laws ──

/// Without its slashes at the end, a server is what stands before them: what is cut
/// off is slashes only, and none is left at the end.
pub proof fn law_only_end_slashes_go(s: Seq<char>)
    ensures
        without_end_slashes(s).is_prefix_of(s),
        forall|i: int| without_end_slashes(s).len() <= i < s.len() ==> #[trigger] s[i] == '/',
        without_end_slashes(s).len() > 0 ==> without_end_slashes(s).last() != '/',
    decreases s.len(),
{
    if s.len() > 0 && s.last() == '/' {
        let shorter = s.drop_last();
        law_only_end_slashes_go(shorter);
        assert forall|i: int| without_end_slashes(s).len() <= i < s.len() implies #[trigger] s[i]
            == '/' by {
            if i < shorter.len() {
                assert(shorter[i] == s[i]);
            }
        }
    }
}

/// Two games never share a room, and a session without a game has none.
pub proof fn law_each_game_has_its_own_room(a: json::Document, b: json::Document)
    ensures
        game_in(a) is Some <==> a.member("gameData"@) is Some && a.member(
            "gameData"@,
        )->0.int_at("gameId"@) is Some && a.member("gameData"@)->0.int_at("gameId"@)->0 > 0,
        game_in(a) is Some && game_in(a) == game_in(b) ==> a.member("gameData"@)->0.int_at(
            "gameId"@,
        ) == b.member("gameData"@)->0.int_at("gameId"@),
{
    if game_in(a) is Some && game_in(a) == game_in(b) {
        text::law_integers_are_written_apart(
            a.member("gameData"@)->0.int_at("gameId"@)->0 as int,
            b.member("gameData"@)->0.int_at("gameId"@)->0 as int,
        );
    }
}

} // verus!

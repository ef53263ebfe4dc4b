//! What is asked of the League client, as requests.

use crate::json::{Document, Json};
use crate::json;
use crate::settings::BRAVERY_ID;
use crate::text;
use crate::time::Seconds;
use vstd::prelude::*;

verus! {

/// Minimum separation, in milliseconds, between the hover and the lock on the
/// same action. Sending both back-to-back makes the client reject the second
/// one, so every hover and lock has to respect this floor.
pub const HOVER_LOCK_GAP_MILLIS: i64 = 300;

#[derive(Clone, Copy, PartialEq, Eq, Debug, Structural)]
pub enum Method {
    Get,
    Post,
    Put,
    Patch,
    Delete,
}

/// One request to the client.
#[derive(Debug)]
pub struct Request {
    pub method: Method,
    pub path: String,
    pub body: Option<Json>,
}

pub struct RequestView {
    pub method: Method,
    pub path: Seq<char>,
    pub body: Option<Document>,
}

impl View for Request {
    type V = RequestView;

    open spec fn view(&self) -> RequestView {
        RequestView {
            method: self.method,
            path: self.path@,
            body: match self.body {
                Some(j) => Some(j@),
                None => None,
            },
        }
    }
}

fn request(method: Method, path: &str) -> (r: Request)
    ensures
        r@ == (RequestView { method, path: path@, body: None }),
{
    Request { method, path: path.to_owned(), body: None }
}

pub fn accept_match() -> (r: Request)
    ensures
        r@ == (RequestView {
            method: Method::Post,
            path: "/lol-matchmaking/v1/ready-check/accept"@,
            body: None,
        }),
{
    request(Method::Post, "/lol-matchmaking/v1/ready-check/accept")
}

/// Starts matchmaking for the current lobby.
///
/// Deliberately the lobby's route and not the matchmaking one: the latter fails
/// for every queue that the client builds teams for itself, which is ARAM,
/// Arena, Swiftplay and more. The answer is not the source of truth: the search
/// is confirmed by its own state, or by the phase moving on.
pub fn start_matchmaking() -> (r: Request)
    ensures
        r@ == (RequestView {
            method: Method::Post,
            path: "/lol-lobby/v2/lobby/matchmaking/search"@,
            body: None,
        }),
{
    request(Method::Post, "/lol-lobby/v2/lobby/matchmaking/search")
}

pub fn cancel_matchmaking() -> (r: Request)
    ensures
        r@ == (RequestView {
            method: Method::Delete,
            path: "/lol-lobby/v2/lobby/matchmaking/search"@,
            body: None,
        }),
{
    request(Method::Delete, "/lol-lobby/v2/lobby/matchmaking/search")
}

/// A plain question.
pub fn fetch(path: &str) -> (r: Request)
    ensures
        r@ == (RequestView { method: Method::Get, path: path@, body: None }),
{
    request(Method::Get, path)
}

pub open spec fn action_path(action_id: i64) -> Seq<char> {
    "/lol-champ-select/v1/session/actions/"@ + text::decimal_int(action_id as int)
}

/// The request that shows a champion on an action without committing to it.
pub open spec fn hover_request(action_id: i64, champion_id: i32) -> RequestView {
    RequestView {
        method: Method::Patch,
        path: action_path(action_id),
        body: Some(
            Document::Object(seq![("championId"@, json::number(champion_id as i64))]),
        ),
    }
}

/// The request that commits an action to a champion.
pub open spec fn lock_request(action_id: i64, champion_id: i32) -> RequestView {
    RequestView {
        method: Method::Patch,
        path: action_path(action_id),
        body: Some(
            Document::Object(
                seq![
                    ("championId"@, json::number(champion_id as i64)),
                    ("completed"@, Document::Bool(true)),
                ],
            ),
        ),
    }
}

fn write_action_path(action_id: i64) -> (r: String)
    ensures
        r@ == action_path(action_id),
{
    text::cat("/lol-champ-select/v1/session/actions/", text::write_i64(action_id).as_str())
}

/// Shows a champion on an action. Without `completed` the same request is an
/// intent rather than a lock.
pub fn hover_champion(action_id: i64, champion_id: i32) -> (r: Request)
    ensures
        r@ == hover_request(action_id, champion_id),
{
    let mut members: Vec<(String, Json)> = Vec::new();
    members.push(("championId".to_owned(), Json::from_i64(champion_id as i64)));
    let body = Json::Object(members);
    proof {
        assert(body@->Object_0 =~= hover_request(action_id, champion_id).body->0->Object_0);
    }
    Request { method: Method::Patch, path: write_action_path(action_id), body: Some(body) }
}

pub fn lock_champion(action_id: i64, champion_id: i32) -> (r: Request)
    ensures
        r@ == lock_request(action_id, champion_id),
{
    let mut members: Vec<(String, Json)> = Vec::new();
    members.push(("championId".to_owned(), Json::from_i64(champion_id as i64)));
    let completed = Json::Bool(true);
    assert(completed@ == Document::Bool(true));
    members.push(("completed".to_owned(), completed));
    let body = Json::Object(members);
    proof {
        assert(body@->Object_0 =~= lock_request(action_id, champion_id).body->0->Object_0);
    }
    Request { method: Method::Patch, path: write_action_path(action_id), body: Some(body) }
}

/// Commits a pick outright, with no hover step.
pub fn pick_champion(action_id: i64, champion_id: i32) -> (r: Request)
    ensures
        r@ == lock_request(action_id, champion_id),
{
    lock_champion(action_id, champion_id)
}

/// Bans are committed in one request: there is nothing for a ban hover to tell
/// anyone, and the extra round trip only eats into the phase timer.
pub fn ban_champion(action_id: i64, champion_id: i32) -> (r: Request)
    ensures
        r@ == lock_request(action_id, champion_id),
{
    lock_champion(action_id, champion_id)
}

/// Arena Bravery: a single commit with the sentinel champion. The client
/// recognizes it, picks a random champion, and awards the Bravery rewards. There
/// is no hover step: committing directly is what the official client does.
pub fn pick_bravery(action_id: i64) -> (r: Request)
    ensures
        r@ == lock_request(action_id, BRAVERY_ID),
{
    lock_champion(action_id, BRAVERY_ID)
}

/// How long after a hover to commit: the configured delay, but never sooner than
/// the gap.
pub fn lock_wait(delay: Seconds) -> (r: Seconds)
    ensures
        r.millis == crate::time::larger(delay.millis as int, HOVER_LOCK_GAP_MILLIS as int),
        r.millis >= delay.millis,
        r.millis >= 300,
        r.millis == delay.millis || r.millis == 300,
{
    if delay.millis >= HOVER_LOCK_GAP_MILLIS {
        delay
    } else {
        Seconds { millis: HOVER_LOCK_GAP_MILLIS }
    }
}

/// `at` is where the one member of an object with this key stands.
proof fn lemma_member_at(members: Seq<(Seq<char>, Document)>, key: Seq<char>, at: int)
    requires
        0 <= at < members.len(),
        members[at].0 == key,
        forall|j: int| 0 <= j < members.len() && j != at ==> (#[trigger] members[j]).0 != key,
    ensures
        Document::Object(members).member(key) == Some(members[at].1),
{
    assert(json::first_member(members, key, at));
    let i = choose|i: int| json::first_member(members, key, i);
    if i != at {
        assert(members[i].0 != key);
    }
}

/// A lock names the champion and says that the action is completed; a hover names the
/// champion and says no such thing. Both go to the one action that they are about.
pub proof fn law_a_lock_commits_and_a_hover_does_not(action_id: i64, champion_id: i32)
    ensures
        ({
            let lock = lock_request(action_id, champion_id);
            let hover = hover_request(action_id, champion_id);
            &&& lock.method == Method::Patch && hover.method == Method::Patch
            &&& lock.path == hover.path
            &&& lock.path == "/lol-champ-select/v1/session/actions/"@ + text::decimal_int(
                action_id as int,
            )
            &&& lock.body is Some && hover.body is Some
            &&& lock.body->0.int_at("championId"@) == Some(champion_id as i64)
            &&& hover.body->0.int_at("championId"@) == Some(champion_id as i64)
            &&& lock.body->0.member("completed"@) == Some(Document::Bool(true))
            &&& hover.body->0.member("completed"@) is None
        }),
{
    reveal_strlit("championId");
    reveal_strlit("completed");
    assert("championId"@.len() == 10 && "completed"@.len() == 9);
    let lock = lock_request(action_id, champion_id).body->0->Object_0;
    let hover = hover_request(action_id, champion_id).body->0->Object_0;
    lemma_member_at(lock, "championId"@, 0);
    lemma_member_at(lock, "completed"@, 1);
    lemma_member_at(hover, "championId"@, 0);
    assert forall|i: int| !json::first_member(hover, "completed"@, i) by {}
}

/// Requests on two actions go to two places.
pub proof fn law_each_action_has_its_own_path(a: i64, b: i64)
    requires
        action_path(a) == action_path(b),
    ensures
        a == b,
{
    let prefix = "/lol-champ-select/v1/session/actions/"@;
    let (x, y) = (text::decimal_int(a as int), text::decimal_int(b as int));
    assert((prefix + x).skip(prefix.len() as int) =~= x);
    assert((prefix + y).skip(prefix.len() as int) =~= y);
    text::law_integers_are_written_apart(a as int, b as int);
}

} // verus!

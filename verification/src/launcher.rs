//! Starting the League client through the Riot Client.
//!
//! This is the exact command that Riot's own "League of Legends" shortcut uses.
//! Starting the game client directly is refused by Riot, and a Riot Client that
//! sits at sign-in only navigates to the League tab, as it does for the desktop
//! shortcut.

use crate::json;
use crate::json::Json;
use crate::text;
use vstd::prelude::*;

verus! {

/// Riot records every install here, and the Riot Client reads the same file, so
/// this stays correct for non-default install locations.
pub const INSTALLS_JSON: &'static str =
    "C:\\ProgramData\\Riot Games\\RiotClientInstalls.json";

/// The keys of that file in the order in which they are tried: the live
/// patchline, what a plain install writes, and the beta.
pub open spec fn install_key(k: int) -> Seq<char> {
    if k == 0 {
        "rc_live"@
    } else if k == 1 {
        "rc_default"@
    } else {
        "rc_beta"@
    }
}

/// The paths that the record of installs names.
pub open spec fn recorded(installs: json::Document, upto: nat) -> Seq<Seq<char>>
    decreases upto,
{
    if upto == 0 {
        Seq::empty()
    } else {
        let before = recorded(installs, (upto - 1) as nat);
        match installs.string_at(install_key(upto - 1)) {
            Some(path) => before.push(path),
            None => before,
        }
    }
}

/// Where the Riot Client lies on a drive by default.
pub open spec fn default_path(d: int) -> Seq<char> {
    seq![crate::lcu::drive_letter(d)] + ":\\Riot Games\\Riot Client\\RiotClientServices.exe"@
}

/// Every path to try, in order: those that the record names, then the default
/// one on each of the drives C to Z.
pub open spec fn candidates(installs: Option<json::Document>) -> Seq<Seq<char>> {
    (match installs {
        Some(installs) => recorded(installs, 3),
        None => Seq::empty(),
    }) + Seq::new(24, |d: int| default_path(d))
}

fn push_recorded(out: &mut Vec<String>, installs: &Json, key: &str)
    ensures
        text::texts(final(out)@) == match installs@.string_at(key@) {
            Some(path) => text::texts(old(out)@).push(path),
            None => text::texts(old(out)@),
        },
{
    if let Some(path) = installs.str_at(key) {
        let ghost before = text::texts(out@);
        out.push(path.to_owned());
        assert(text::texts(out@) =~= before.push(path@));
    }
}

fn write_default_path(letter: char) -> (r: String)
    ensures
        r@ == seq![letter] + ":\\Riot Games\\Riot Client\\RiotClientServices.exe"@,
{
    let mut out = String::new();
    out.push(letter);
    assert(out@ =~= seq![letter]);
    out.append(":\\Riot Games\\Riot Client\\RiotClientServices.exe");
    out
}

/// Every path to try for the Riot Client, in order. `installs` is the record of
/// installs, where there is one.
pub fn client_paths(installs: Option<&Json>) -> (r: Vec<String>)
    ensures
        text::texts(r@) == candidates(json::document_of(installs)),
{
    let mut out: Vec<String> = Vec::new();
    assert(text::texts(out@) =~= Seq::empty());
    if let Some(installs) = installs {
        proof {
            reveal_with_fuel(recorded, 4);
        }
        push_recorded(&mut out, installs, "rc_live");
        push_recorded(&mut out, installs, "rc_default");
        push_recorded(&mut out, installs, "rc_beta");
    }
    let ghost first = text::texts(out@);
    let ghost defaults = Seq::new(24, |d: int| default_path(d));
    let mut d: u8 = 0;
    assert(first + defaults.take(0) =~= first);
    while d < 24
        invariant
            d <= 24,
            defaults == Seq::new(24, |d: int| default_path(d)),
            text::texts(out@) == first + defaults.take(d as int),
        decreases 24 - d,
    {
        let ghost before = text::texts(out@);
        let letter = (('C' as u8) + d) as char;
        assert(letter == crate::lcu::drive_letter(d as int));
        out.push(write_default_path(letter));
        assert(text::texts(out@) =~= before.push(defaults[d as int]));
        d += 1;
        assert(first + defaults.take(d as int) =~= before.push(defaults[d - 1]));
    }
    assert(defaults.take(24) =~= defaults);
    out
}

/// `i` is a path that is there, and no earlier one is.
pub open spec fn first_there<F: Fn(&str) -> bool>(
    is_file: F,
    paths: Seq<Seq<char>>,
    i: int,
) -> bool {
    &&& 0 <= i < paths.len()
    &&& answers(is_file, paths[i], true)
    &&& forall|j: int| 0 <= j < i ==> answers(is_file, #[trigger] paths[j], false)
}

/// `answer` is one that is given for this path.
pub open spec fn answers<F: Fn(&str) -> bool>(is_file: F, path: Seq<char>, answer: bool) -> bool {
    exists|s: &str| s@ == path && #[trigger] call_ensures(is_file, (s,), answer)
}

/// Every path to try, where `installs` is the text of the record of installs.
pub open spec fn paths_for(installs: Option<&str>) -> Seq<Seq<char>> {
    candidates(
        match installs {
            Some(text) => json::parsed(text@),
            None => None,
        },
    )
}

/// The Riot Client: the first candidate that is there. `installs` is the text of
/// the record of installs, where it could be read; `is_file` tells whether a
/// path is a file.
pub fn riot_client_path<F: Fn(&str) -> bool>(installs: Option<&str>, is_file: F) -> (r: Option<
    String,
>)
    requires
        forall|s: &str| call_requires(is_file, (s,)),
    ensures
        match r {
            Some(path) => exists|i: int|
                #[trigger] first_there(is_file, paths_for(installs), i) && paths_for(installs)[i]
                    == path@,
            None => forall|j: int|
                0 <= j < paths_for(installs).len() ==> answers(
                    is_file,
                    #[trigger] paths_for(installs)[j],
                    false,
                ),
        },
{
    let parsed = match installs {
        Some(text) => json::parse(text),
        None => None,
    };
    let paths = client_paths(parsed.as_ref());
    let ghost all = text::texts(paths@);
    let mut i: usize = 0;
    while i < paths.len()
        invariant
            i <= paths@.len(),
            all == text::texts(paths@),
            all == paths_for(installs),
            forall|s: &str| call_requires(is_file, (s,)),
            forall|j: int| 0 <= j < i ==> answers(is_file, #[trigger] all[j], false),
        decreases paths@.len() - i,
    {
        let path = paths[i].as_str();
        assert(all[i as int] == path@);
        let there = is_file(path);
        assert(call_ensures(is_file, (path,), there));
        if there {
            assert(first_there(is_file, all, i as int));
            return Some(paths[i].clone());
        }
        i += 1;
    }
    None
}

/// What the Riot Client is started with.
pub fn launch_arguments() -> (r: Vec<String>)
    ensures
        text::texts(r@) == seq![
            "--launch-product=league_of_legends"@,
            "--launch-patchline=live"@,
        ],
{
    let mut out: Vec<String> = Vec::new();
    out.push("--launch-product=league_of_legends".to_owned());
    out.push("--launch-patchline=live".to_owned());
    assert(text::texts(out@) =~= seq![
        "--launch-product=league_of_legends"@,
        "--launch-patchline=live"@,
    ]);
    out
}

// ── Laws ──

/// What the record of installs names is tried first, the live patchline before the
/// plain install and that before the beta; behind it comes the default path on each
/// drive, from C on.
pub proof fn law_where_the_client_is_looked_for(installs: json::Document, d: int)
    requires
        0 <= d < 24,
    ensures
        ({
            let named = candidates(Some(installs));
            let unnamed = candidates(None);
            &&& installs.string_at("rc_live"@) matches Some(path) ==> named[0] == path
            &&& installs.string_at("rc_live"@) is None ==> (installs.string_at(
                "rc_default"@,
            ) matches Some(path) ==> named[0] == path)
            &&& installs.string_at("rc_live"@) is None && installs.string_at("rc_default"@) is None
                ==> (installs.string_at("rc_beta"@) matches Some(path) ==> named[0] == path)
            &&& unnamed.len() == 24
            &&& unnamed[d] == seq![(('C' as u32) + d) as char]
                + ":\\Riot Games\\Riot Client\\RiotClientServices.exe"@
            &&& named.len() >= 24
            &&& named[named.len() - 24 + d] == unnamed[d]
        }),
{
    reveal_with_fuel(recorded, 4);
}

} // verus!

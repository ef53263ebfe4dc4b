use instalock::json::Json;
use instalock::lol_state::{
    Action, Bans, ChampSelect, ChampionSelection, LobbyMember, LolState, LowPriorityData,
    PlayerSelection, Search, SearchError, Snapshot, Timer,
};
use instalock::names::NameMap;
use instalock::summoners::{riot_id, summoner_path, RiotId, SummonerNames, SummonerResponse, MAX_CACHED};
use instalock::time::{clamp_delay, next_wait, Seconds, TimeLeft, RETRY_MAX_SECS, RETRY_MIN_SECS};

fn player(cell_id: i64) -> PlayerSelection {
    PlayerSelection { cell_id, ..Default::default() }
}

fn action(id: i64, actor_cell_id: i64, action_type: &str, completed: bool) -> Action {
    Action {
        id,
        actor_cell_id,
        action_type: action_type.into(),
        completed,
        ..Default::default()
    }
}

fn secs(millis: i64) -> Seconds {
    Seconds::from_millis(millis)
}

fn left(millis: i64) -> TimeLeft {
    TimeLeft::Left(secs(millis))
}

#[test]
fn finds_my_role_and_my_open_action() {
    let session = ChampSelect {
        local_player_cell_id: 2,
        my_team: vec![
            PlayerSelection { assigned_position: "top".into(), ..player(1) },
            PlayerSelection { assigned_position: "middle".into(), ..player(2) },
        ],
        actions: vec![
            vec![action(10, 1, "ban", true)],
            vec![action(11, 2, "pick", false)],
        ],
        ..Default::default()
    };
    assert_eq!(session.assigned_position(), "middle");
    let action = session.my_open_action().unwrap();
    assert_eq!(action.id, 11);
    assert_eq!(action.action_type, "pick");
}

/// In simultaneous-ban modes `isInProgress` lies, so selection keys off
/// `completed`. An action of mine that is not flagged in progress must
/// still be found.
#[test]
fn an_open_action_is_found_without_is_in_progress() {
    let session = ChampSelect {
        local_player_cell_id: 0,
        actions: vec![vec![
            Action { is_in_progress: false, ..action(5, 0, "ban", false) },
            action(6, 1, "ban", false),
        ]],
        ..Default::default()
    };
    assert_eq!(session.my_open_action().unwrap().id, 5);
}

#[test]
fn a_fully_completed_group_is_skipped() {
    let session = ChampSelect {
        local_player_cell_id: 0,
        actions: vec![
            vec![action(1, 0, "ban", true)],
            vec![action(2, 0, "pick", false)],
        ],
        ..Default::default()
    };
    assert_eq!(session.my_open_action().unwrap().id, 2);
}

#[test]
fn the_pre_turn_hover_target_is_my_first_unresolved_pick() {
    let session = ChampSelect {
        local_player_cell_id: 4,
        actions: vec![
            vec![action(1, 4, "ban", true)],
            vec![action(2, 0, "pick", false)],
            vec![action(3, 4, "pick", false)],
        ],
        ..Default::default()
    };
    // Not the in-progress action (id 2, someone else's) - mine, id 3.
    assert_eq!(session.my_first_unfinished_pick().unwrap().id, 3);
}

#[test]
fn collects_ally_hovers_but_not_my_own() {
    let session = ChampSelect {
        local_player_cell_id: 1,
        my_team: vec![
            PlayerSelection { champion_pick_intent: 64, ..player(0) },
            PlayerSelection { champion_pick_intent: 103, ..player(1) },
            PlayerSelection { champion_pick_intent: 0, ..player(2) },
        ],
        ..Default::default()
    };
    let intents = session.ally_pick_intents();
    assert!(intents.contains(&64));
    assert!(!intents.contains(&103), "my own hover is not a conflict");
    assert_eq!(intents.len(), 1);
}

#[test]
fn a_locked_ally_is_not_hovering_any_more() {
    let session = ChampSelect {
        local_player_cell_id: 1,
        my_team: vec![
            PlayerSelection { champion_id: 64, champion_pick_intent: 64, ..player(0) },
            PlayerSelection { champion_pick_intent: 103, ..player(1) },
            PlayerSelection { champion_pick_intent: 84, ..player(2) },
        ],
        ..Default::default()
    };
    let intents = session.ally_pick_intents();
    assert!(intents.contains(&84));
    assert!(!intents.contains(&64), "that one is locked");
    assert_eq!(intents.len(), 1);
}

#[test]
fn unavailable_covers_bans_and_locks_on_both_teams() {
    let session = ChampSelect {
        local_player_cell_id: 1,
        my_team: vec![
            PlayerSelection { champion_id: 64, ..player(0) },
            PlayerSelection { champion_id: 103, ..player(1) },
        ],
        their_team: vec![PlayerSelection { champion_id: 157, ..player(5) }],
        bans: Bans {
            my_team_bans: vec![1, 0],
            their_team_bans: vec![2, -1],
            ..Default::default()
        },
        ..Default::default()
    };
    let taken = session.unavailable_champions();
    assert!(taken.contains(&64), "ally lock");
    assert!(taken.contains(&157), "enemy lock");
    assert!(taken.contains(&1) && taken.contains(&2), "bans");
    assert!(!taken.contains(&103), "my own lock is not a conflict");
    assert!(!taken.contains(&0) && !taken.contains(&-1), "empty ban slots");
}

/// The raw field is milliseconds and goes stale between pushes; callers work
/// in seconds and need the drift taken off.
#[test]
fn the_timer_is_corrected_for_drift() {
    let timer = Timer {
        adjusted_time_left_in_phase: 30_000,
        internal_now_in_epoch_ms: 1_000_000,
        phase: "BAN_PICK".into(),
        ..Default::default()
    };

    // Read at the instant the client sent it: the full 30s.
    assert_eq!(timer.seconds_left(1_000_000), left(30_000));
    // Read 5s later: 25s.
    assert_eq!(timer.seconds_left(1_005_000), left(25_000));
    // Long past expiry: clamped, never negative.
    assert_eq!(timer.seconds_left(9_000_000), left(0));
}

#[test]
fn an_infinite_timer_never_forces_an_action() {
    let timer = Timer {
        is_infinite: true,
        ..Default::default()
    };
    assert_eq!(timer.seconds_left(0), TimeLeft::Infinite);
}

#[test]
fn readiness_falls_back_to_member_data() {
    let plain = LobbyMember { ready: Some(true), ..Default::default() };
    assert!(plain.is_ready());

    let nested = LobbyMember {
        member_data: NameMap::from(vec![("ready".to_string(), Json::Bool(true))]),
        ..Default::default()
    };
    assert!(nested.is_ready(), "newer patches nest it under memberData");

    let absent = LobbyMember::default();
    assert!(!absent.is_ready());
}

#[test]
fn the_worst_penalty_wins() {
    let error = |id: i32, error_type: &str, millis: i64| SearchError {
        id,
        error_type: error_type.into(),
        penalty_time_remaining: secs(millis),
        ..Default::default()
    };
    let search = Search {
        search_state: "Error".into(),
        errors: vec![
            error(1, "QUEUE_DODGER", 120_000),
            error(2, "LEAVER_BUSTED", 300_000),
        ],
        low_priority_data: LowPriorityData {
            penalty_time_remaining: secs(60_000),
            ..Default::default()
        },
        ..Default::default()
    };
    assert_eq!(search.penalty_remaining(), secs(300_000));
    assert!(!search.is_searching());
}

/// The client leaves `isCurrentlyInQueue` true through champ select and the
/// whole game.
#[test]
fn a_match_already_found_is_not_still_searching() {
    let search = Search {
        is_currently_in_queue: true,
        estimated_queue_time: secs(46_700),
        ..Default::default()
    };

    let mut snap = Snapshot {
        search: Some(search),
        ..Default::default()
    };

    snap.phase = "Matchmaking".into();
    assert!(snap.is_searching());

    for phase in ["ChampSelect", "InProgress", "EndOfGame"] {
        snap.phase = phase.into();
        assert!(!snap.is_searching(), "{} is not the queue", phase);
    }
}

#[test]
fn a_clean_search_has_no_penalty() {
    let search = Search {
        search_state: "Searching".into(),
        is_currently_in_queue: true,
        estimated_queue_time: secs(130_900),
        ..Default::default()
    };
    assert_eq!(search.penalty_remaining(), secs(0));
    assert!(search.is_searching());
}

#[test]
fn a_new_draft_starts_with_empty_tables() {
    let mut state = LolState::new();
    state.set_pickable([1, 2].into_iter().collect());
    state.set_bannable([3].into_iter().collect());
    state.update_grid_champion(7, ChampionSelection { is_banned: true, ..Default::default() });
    state.set_champ_select(Some(ChampSelect::default()));
    state.set_phase("ChampSelect");
    assert!(state.get().has_grid());
    assert!(state.get().selection(7).unwrap().is_banned);
    assert!(state.get().selection(8).is_none());
    state.clear_champ_select();
    assert!(!state.get().has_grid() && state.get().champ_select.is_none());
    assert!(state.get().pickable.is_empty() && state.get().bannable.is_empty());
    assert_eq!(state.get().phase, "ChampSelect");
}

// ── Delays ──

#[test]
fn a_delay_that_fits_is_used_as_is() {
    assert_eq!(clamp_delay(secs(5_000), left(30_000), secs(1_500)), secs(5_000));
}

#[test]
fn a_delay_past_the_timer_is_cut_to_the_margin() {
    // 8s left, 1.5s margin: act at 6.5s however long the user asked for.
    assert_eq!(clamp_delay(secs(20_000), left(8_000), secs(1_500)), secs(6_500));
}

/// Acting immediately beats not acting: a timer already inside the margin
/// must still produce a pick, not a negative sleep.
#[test]
fn never_goes_negative() {
    assert_eq!(clamp_delay(secs(10_000), left(1_000), secs(1_500)), secs(0));
    assert_eq!(clamp_delay(secs(0), left(500), secs(1_500)), secs(0));
    assert_eq!(clamp_delay(secs(3_000), left(0), secs(1_500)), secs(0));
}

#[test]
fn zero_delay_stays_zero() {
    assert_eq!(clamp_delay(secs(0), left(30_000), secs(1_500)), secs(0));
}

#[test]
fn without_a_timer_the_delay_stands() {
    assert_eq!(clamp_delay(secs(20_000), TimeLeft::Infinite, secs(1_500)), secs(20_000));
    assert_eq!(clamp_delay(secs(-1), TimeLeft::Infinite, secs(1_500)), secs(0));
}

#[test]
fn waits_double_up_to_their_limit() {
    let mut wait = RETRY_MIN_SECS;
    let mut waits = Vec::new();
    for _ in 0..7 {
        waits.push(wait);
        wait = next_wait(wait, RETRY_MAX_SECS);
    }
    assert_eq!(waits, [2, 4, 8, 16, 32, 60, 60]);
}

// ── Names ──

#[test]
fn a_current_client_answers_with_a_riot_id() {
    let id = riot_id(&SummonerResponse {
        game_name: "Assembly Enjoyer".into(),
        tag_line: "HolyC".into(),
        display_name: "".into(),
    })
    .unwrap();
    assert_eq!(id.name, "Assembly Enjoyer");
    assert_eq!(id.full, "Assembly Enjoyer#HolyC");
}

/// Older clients filled `displayName` and left the Riot ID fields empty.
#[test]
fn an_older_client_still_resolves() {
    let id = riot_id(&SummonerResponse { display_name: "Faker".into(), ..Default::default() }).unwrap();
    assert_eq!(id.name, "Faker");
    assert_eq!(id.full, "Faker", "no tag to append");
}

/// A response with no name at all must not be cached as an empty string —
/// the caller falls back to its own placeholder instead.
#[test]
fn a_nameless_response_resolves_to_nothing() {
    assert!(riot_id(&SummonerResponse::default()).is_none());
    assert!(riot_id(&SummonerResponse { tag_line: "EUW".into(), ..Default::default() }).is_none());
}

fn named(name: &str) -> RiotId {
    RiotId { name: name.into(), full: format!("{}#EUW", name) }
}

#[test]
fn only_strangers_are_asked_for() {
    let mut names = SummonerNames::new();
    assert!(names.learn(vec![("a".to_string(), named("A"))]));
    let lobby = vec!["a".to_string(), "b".to_string(), "".to_string(), "b".to_string()];
    assert_eq!(names.missing(&lobby), ["b"]);
    assert_eq!(names.get("a").unwrap().full, "A#EUW");
    assert!(names.get("b").is_none());
    assert!(!names.learn(Vec::new()));
    assert_eq!(summoner_path("b"), "/lol-summoner/v2/summoners/puuid/b");
}

#[test]
fn the_cache_of_names_starts_over_when_it_is_full() {
    let mut names = SummonerNames::new();
    for i in 0..2000 {
        names.learn(vec![(format!("p{}", i), named("x"))]);
    }
    let known = (0..2000).filter(|i| names.get(&format!("p{}", i)).is_some()).count();
    assert!(known >= 1 && known <= MAX_CACHED + 1, "{}", known);
    assert!(names.get("p1999").is_some());
}

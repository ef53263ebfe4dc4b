use instalock::appearance::{check_background, overlay_shown, KeyWatch, MAX_BYTES};
use instalock::auto_queue::{lobby_fingerprint, start_line, AutoQueue};
use instalock::champions::{ChampionRow, Champions};
use instalock::draft::Plan;
use instalock::engine::{Engine, Refresh};
use instalock::json::Json;
use instalock::launcher::{client_paths, launch_arguments, riot_client_path};
use instalock::lcu::QueueModeInfo;
use instalock::lol_state::{
    Action, ChampSelect, ChampionSelection, GameConfig, GridChampion, Lobby, LobbyMember,
    LowPriorityData, PlayerSelection, Search, Snapshot, Timer,
};
use instalock::mode::{
    build_queue_mode_payload, has_positions, mode_context, position_wanted, refresh_queue_mode,
    resolve_queue_mode, role_changed,
};
use instalock::panel::{champion_name, position_preferences, Throttle};
use instalock::phases::{handle_gameflow_phase, spend_one_shot_entries, ReadyCheck};
use instalock::queues::{QueueTable, RawQueue};
use instalock::settings::{ChampionEntry, ModeLists, RoleLists, Settings};
use instalock::summoners::{RiotId, SummonerNames};
use instalock::sync::{check_connected, game_id_of, socket_url, Reconnect, SyncStatus};
use instalock::time::{Seconds, TimeLeft};
use std::collections::HashMap;

const NOW: i64 = 1_000_000;

fn object(members: Vec<(&str, Json)>) -> Json {
    Json::Object(members.into_iter().map(|(k, v)| (k.to_string(), v)).collect())
}

fn string(s: &str) -> Json {
    Json::Str(s.to_string())
}

fn member(summoner_id: u64) -> LobbyMember {
    LobbyMember { summoner_id, puuid: format!("p{}", summoner_id), ..Default::default() }
}

fn lobby(party: &str, ids: &[u64]) -> Lobby {
    Lobby {
        can_start_activity: true,
        party_id: party.into(),
        members: ids.iter().map(|id| member(*id)).collect(),
        local_member: LobbyMember { is_leader: true, ..Default::default() },
        game_config: GameConfig {
            queue_id: 420,
            game_mode: "CLASSIC".into(),
            max_lobby_size: ids.len() as u32,
            show_position_selector: true,
            ..Default::default()
        },
        ..Default::default()
    }
}

fn in_lobby(lobby: Lobby) -> Snapshot {
    Snapshot { phase: "Lobby".into(), lobby: Some(lobby), ..Default::default() }
}

fn auto() -> Settings {
    Settings {
        auto_queue: true,
        auto_queue_delay_secs: Seconds::from_millis(90_000),
        ..Settings::default()
    }
}

fn searching() -> Search {
    Search { is_currently_in_queue: true, search_state: "Searching".into(), ..Default::default() }
}

// ── Auto queue ──

#[test]
fn a_ready_lobby_arms_a_timer() {
    let mut queue = AutoQueue::new();
    let snap = in_lobby(lobby("p", &[1]));
    let first = queue.evaluate(&snap, &auto());
    let (generation, wait) = first.timer.unwrap();
    assert_eq!((generation, wait), (1, Seconds::from_millis(30_000)));
    assert!(queue.timer_fired(generation, &snap, &auto()));
    // Anything evaluated since retires it.
    let second = queue.evaluate(&snap, &auto());
    assert!(!queue.timer_fired(generation, &snap, &auto()));
    assert!(queue.timer_fired(second.timer.unwrap().0, &snap, &auto()));
}

#[test]
fn a_timer_asks_again_before_it_fires() {
    let mut queue = AutoQueue::new();
    let snap = in_lobby(lobby("p", &[1]));
    let (generation, _) = queue.evaluate(&snap, &auto()).timer.unwrap();
    let mut changed = lobby("p", &[1]);
    changed.can_start_activity = false;
    assert!(!queue.timer_fired(generation, &in_lobby(changed), &auto()));
}

#[test]
fn a_cancel_holds_until_the_lobby_changes() {
    let mut queue = AutoQueue::new();
    let snap = in_lobby(lobby("p", &[1, 2]));
    queue.suppress(&snap);
    assert!(queue.cancel_suppressed(&snap));
    assert!(queue.evaluate(&snap, &auto()).timer.is_none());
    // Who sits where does not matter.
    assert!(queue.evaluate(&in_lobby(lobby("p", &[2, 1])), &auto()).timer.is_none());
    assert!(queue.evaluate(&in_lobby(lobby("p", &[1, 3])), &auto()).timer.is_some());
    assert!(!queue.cancel_suppressed(&snap), "the user has moved on");
}

#[test]
fn leaving_the_queue_counts_as_a_cancel_and_a_match_does_not() {
    let mut snap = in_lobby(lobby("p", &[1]));
    snap.search = Some(searching());
    let mut queue = AutoQueue::new();
    queue.note_search_state(&snap);
    snap.search = None;
    queue.note_search_state(&snap);
    assert!(queue.cancel_suppressed(&snap));

    let mut queue = AutoQueue::new();
    snap.search = Some(searching());
    queue.note_search_state(&snap);
    snap.phase = "ChampSelect".into();
    queue.note_search_state(&snap);
    assert!(!queue.cancel_suppressed(&snap));
}

#[test]
fn the_push_that_a_cancel_produces_does_not_undo_it() {
    let mut engine = Engine::new();
    engine.on_lobby(Some(lobby("p", &[1])), &auto());
    engine.on_search(Some(searching()), &auto());
    let snapshot = in_lobby(lobby("p", &[1]));
    engine.auto_queue.suppress(&snapshot);
    assert!(engine.on_search(None, &auto()).evaluation.unwrap().timer.is_none());
    assert!(engine.on_lobby(Some(lobby("q", &[1])), &auto()).evaluation.unwrap().timer.is_some());
}

#[test]
fn a_verdict_is_reported_once() {
    let mut queue = AutoQueue::new();
    let mut theirs = lobby("p", &[1]);
    theirs.local_member.is_leader = false;
    let snap = in_lobby(theirs);
    let line = queue.evaluate(&snap, &auto()).line.unwrap();
    assert!(line.starts_with("Auto cerca: "), "{}", line);
    assert!(queue.evaluate(&snap, &auto()).line.is_none());
    queue.forget_gate();
    assert!(queue.evaluate(&snap, &auto()).line.is_some());
    queue.settings_changed();
    assert!(queue.evaluate(&snap, &auto()).line.is_some());
    queue.suppress(&snap);
    queue.started_by_hand();
    assert!(!queue.cancel_suppressed(&snap));
}

#[test]
fn a_lobby_is_known_by_party_queue_and_members() {
    assert_eq!(lobby_fingerprint(&lobby("p", &[20, 3])), "p:420:[3, 20]");
    assert_eq!(lobby_fingerprint(&lobby("", &[])), ":420:[]");
    assert_eq!(start_line(&Ok(())), "Cua iniciada");
    assert_eq!(start_line(&Err("x".into())), "Error encuant: x");
}

// ── The mode ──

fn table() -> QueueTable {
    let row = |id: i64, mode: &str, map_id: i64, name: &str| RawQueue {
        id,
        game_mode: mode.into(),
        map_id,
        name: name.into(),
        ..Default::default()
    };
    let mut table = QueueTable::new();
    table.fill(&vec![row(1750, "CHERRY", 30, "Arena 3x6"), row(2400, "KIWI", 12, "Mayhem")]);
    table
}

fn mode(game_mode: &str, queue_id: i64) -> Option<QueueModeInfo> {
    Some(QueueModeInfo { game_mode: game_mode.into(), queue_id, map_id: 0 })
}

fn drafting(queue_id: i64) -> Snapshot {
    Snapshot {
        champ_select: Some(ChampSelect { queue_id, ..Default::default() }),
        ..Default::default()
    }
}

#[test]
fn the_session_names_the_mode_once_the_lobby_is_gone() {
    let found = resolve_queue_mode(&drafting(1750), &table(), &None).unwrap();
    assert_eq!((found.game_mode.as_str(), found.queue_id, found.map_id), ("CHERRY", 1750, 30));
    let held = resolve_queue_mode(&drafting(9), &table(), &mode("URF", 9)).unwrap();
    assert_eq!(held.game_mode, "URF");
    let between = Snapshot { phase: "ChampSelect".into(), ..Default::default() };
    assert!(resolve_queue_mode(&between, &table(), &mode("URF", 9)).is_some());
    assert!(resolve_queue_mode(&Snapshot::default(), &table(), &mode("URF", 9)).is_none());
}

#[test]
fn a_mode_that_stays_is_not_shown_again() {
    let mut current = None;
    assert!(refresh_queue_mode(&mut current, &drafting(1750), &table()));
    assert!(!refresh_queue_mode(&mut current, &drafting(1750), &table()));
    let payload = build_queue_mode_payload(&current, &table()).unwrap();
    assert_eq!((payload.display_name.as_str(), payload.map_id), ("Arena 3x6", 30));
    assert!(build_queue_mode_payload(&None, &table()).is_none());
    assert!(refresh_queue_mode(&mut current, &Snapshot::default(), &table()));
    assert!(current.is_none());
}

#[test]
fn the_context_follows_the_lobby_and_the_draft() {
    let mut mine = lobby("p", &[1]);
    mine.local_member.first_position_preference = "MIDDLE".into();
    let context = mode_context(&in_lobby(mine), &mode("CLASSIC", 420), &table());
    assert!(context.has_positions && context.has_champ_select);
    assert_eq!((context.lobby_position.as_str(), context.phase.as_str()), ("middle", "Lobby"));
    let mayhem = mode_context(&Snapshot::default(), &mode("KIWI", 2400), &table());
    assert!(!mayhem.has_champ_select && mayhem.has_positions);
    assert!(!has_positions(&drafting(1750)));
    assert_eq!(position_wanted("fill"), "");
    assert_eq!(position_wanted("top"), "top");
}

#[test]
fn a_role_change_is_noticed() {
    let as_role = |role: &str| ChampSelect {
        my_team: vec![PlayerSelection { assigned_position: role.into(), ..Default::default() }],
        ..Default::default()
    };
    assert!(role_changed(&None, &as_role("")));
    assert!(role_changed(&Some(as_role("top")), &as_role("middle")));
    assert!(!role_changed(&Some(as_role("top")), &as_role("top")));
}

// ── Phases ──

#[test]
fn a_ready_check_is_accepted_once() {
    let settings = Settings {
        auto_accept: true,
        accept_delay_secs: Seconds::from_millis(60_000),
        action_margin_secs: Seconds::from_millis(1_500),
        ..Settings::default()
    };
    let open = object(vec![("state", string("InProgress")), ("playerResponse", string("None"))]);
    let mut check = ReadyCheck::new();
    assert_eq!(check.receive(&settings, &open), Some(Seconds::from_millis(10_500)));
    assert!(check.receive(&settings, &open).is_none());
    assert_eq!(
        check.answered(&Some(Err("x".into()))).as_deref(),
        Some("Error acceptant: x")
    );
    assert!(check.receive(&settings, &open).is_some(), "a failure is tried again");
    assert_eq!(check.answered(&Some(Ok(()))).as_deref(), Some("Partida acceptada!"));
    assert!(check.receive(&settings, &open).is_none());
    let over = object(vec![("state", string("Invalid"))]);
    assert!(check.receive(&settings, &over).is_none());
    assert!(check.receive(&settings, &open).is_some());
    assert!(check.answered(&None).is_none());
    check.rearm();
    let off = Settings { auto_accept: false, ..settings };
    assert!(check.receive(&off, &open).is_none());
}

#[test]
fn only_a_started_game_spends_one_shots() {
    let settings = Settings {
        overlay_enabled: true,
        sync_enabled: true,
        sync_server_url: "ws://x".into(),
        ..Settings::default()
    };
    let started = handle_gameflow_phase("InProgress", &settings);
    assert!(started.game_started && started.open_overlay && started.connect_sync);
    assert!(!started.game_over && started.forget_draft);
    let draft = handle_gameflow_phase("ChampSelect", &settings);
    assert!(!draft.game_started && !draft.forget_draft && draft.rearm_accept);
    assert!(!handle_gameflow_phase("ReadyCheck", &settings).rearm_accept);
    assert!(handle_gameflow_phase("EndOfGame", &settings).game_over);
}

fn one_shots(count: usize) -> ModeLists {
    ModeLists::from(vec![(
        "CLASSIC".to_string(),
        RoleLists {
            default: (0..count)
                .map(|i| ChampionEntry { name: format!("C{}", i), once: true, disabled: false })
                .collect(),
            ..Default::default()
        },
    )])
}

#[test]
fn spent_one_shots_are_counted_in_words() {
    let mut settings = Settings { pick_lists: one_shots(1), ..Settings::default() };
    assert_eq!(
        spend_one_shot_entries(&mut settings).as_deref(),
        Some("1 champion d'un sol ús s'ha desactivat")
    );
    assert!(spend_one_shot_entries(&mut settings).is_none());
    let mut settings = Settings {
        pick_lists: one_shots(1),
        ban_lists: one_shots(2),
        ..Settings::default()
    };
    assert_eq!(
        spend_one_shot_entries(&mut settings).as_deref(),
        Some("3 champions d'un sol ús s'han desactivat")
    );
}

// ── The panel ──

#[test]
fn the_panel_is_not_refreshed_too_often() {
    let mut throttle = Throttle::new();
    assert!(throttle.allow(1_000, false));
    assert!(!throttle.allow(1_399, false));
    assert!(throttle.allow(1_399, true));
    assert!(!throttle.allow(1_700, false));
    assert!(throttle.allow(1_799, false));
}

#[test]
fn preferences_read_as_one_text() {
    let wants = |first: &str, second: &str| LobbyMember {
        first_position_preference: first.into(),
        second_position_preference: second.into(),
        ..Default::default()
    };
    assert_eq!(position_preferences(&wants("MIDDLE", "TOP")).as_deref(), Some("MIDDLE / TOP"));
    assert_eq!(position_preferences(&wants("FILL", "UNSELECTED")).as_deref(), Some("FILL"));
    assert!(position_preferences(&wants("", "UNSELECTED")).is_none());
}

#[test]
fn a_champion_without_a_name_shows_its_id() {
    let names = HashMap::from([(103, "Ahri".to_string())]);
    assert_eq!(champion_name(&names, 103).as_deref(), Some("Ahri"));
    assert_eq!(champion_name(&names, 5).as_deref(), Some("Champion 5"));
    assert!(champion_name(&names, 0).is_none());
    assert!(champion_name(&names, -1).is_none());
}

// ── Everything together ──

fn champions() -> Champions {
    let mut champions = Champions::new();
    champions.fill(&vec![ChampionRow { id: 103, name: "Ahri".into(), alias: None }]);
    champions
}

fn their_turn() -> ChampSelect {
    ChampSelect {
        local_player_cell_id: 0,
        my_team: vec![PlayerSelection { assigned_position: "middle".into(), ..Default::default() }],
        actions: vec![vec![Action { id: 4, action_type: "pick".into(), ..Default::default() }]],
        timer: Timer {
            adjusted_time_left_in_phase: 9_000,
            internal_now_in_epoch_ms: NOW,
            phase: "BAN_PICK".into(),
            ..Default::default()
        },
        queue_id: 1750,
        ..Default::default()
    }
}

fn payload() -> Json {
    object(vec![(
        "theirTeam",
        Json::Array(vec![object(vec![("championId", Json::from_i64(103))])]),
    )])
}

#[test]
fn a_game_from_lobby_to_end() {
    let mut engine = Engine::new();
    engine.queues = table();
    let mut settings = Settings {
        auto_queue: true,
        auto_pick: true,
        pick_lists: ModeLists::from(vec![(
            "CHERRY".to_string(),
            RoleLists {
                default: vec![ChampionEntry { name: "Ahri".into(), once: true, disabled: false }],
                ..Default::default()
            },
        )]),
        ..Settings::default()
    };
    let names = champions().get_id_to_name();

    let (reaction, phase, spent) = engine.on_phase("Lobby", &mut settings);
    assert!(phase.game_over && spent.is_none());
    assert_eq!(reaction.refresh, Refresh::Now);

    let mut arena = lobby("p", &[1]);
    arena.game_config.game_mode = "CHERRY".into();
    arena.game_config.queue_id = 1750;
    let reaction = engine.on_lobby(Some(arena), &settings);
    assert!(reaction.show_mode && reaction.show_context && reaction.look_up_names);
    assert!(reaction.evaluation.unwrap().timer.is_some());
    assert_eq!(engine.strangers(&SummonerNames::new()), ["p1"]);

    let reaction = engine.on_search(Some(searching()), &settings);
    assert!(reaction.evaluation.unwrap().timer.is_none());
    assert_eq!(reaction.refresh, Refresh::Throttled);

    engine.on_phase("ChampSelect", &mut settings);
    let reaction = engine.on_lobby(None, &settings);
    assert!(!reaction.show_mode, "the mode outlives the lobby");
    let reaction = engine.on_champ_select(Some(their_turn()), &payload(), &names);
    assert!(reaction.show_context && reaction.fetch_tables && !reaction.show_mode);
    assert_eq!(engine.overlay.enemies[0].champion_name, "Ahri");
    let again = engine.on_champ_select(Some(their_turn()), &object(vec![]), &names);
    assert!(!again.show_context);
    assert_eq!(engine.overlay.enemies.len(), 1, "a payload without enemies takes none away");
    assert!(matches!(
        engine.plan(&settings, &champions(), NOW),
        Plan::Pick { champion_id: 103, .. }
    ));
    assert!(matches!(engine.plan(&settings, &champions(), NOW), Plan::Nothing));
    let id = engine.state.get().champ_select.as_ref().unwrap().my_open_action().unwrap().id;
    assert!(matches!(engine.due(&settings, &champions(), id + 1, NOW), Plan::Nothing));
    assert!(matches!(
        engine.due(&settings, &champions(), id, NOW),
        Plan::Pick { champion_id: 103, .. }
    ));

    let (_, phase, spent) = engine.on_phase("InProgress", &mut settings);
    assert!(phase.game_started);
    assert!(spent.is_some());
    assert!(settings.pick_lists.get("CHERRY").unwrap().default[0].disabled);
    let reaction = engine.on_champ_select_ended();
    assert!(!reaction.show_mode && reaction.show_context);
    engine.on_phase("EndOfGame", &mut settings);
    assert!(engine.overlay.enemies.is_empty());
    assert_eq!(engine.draft.last_action, "");
}

#[test]
fn the_champion_tables_are_loaded_where_they_came() {
    let mut engine = Engine::new();
    engine.on_pickable(&vec![1, 2, 2]);
    engine.on_bannable(&vec![3]);
    let listed = Json::Array(vec![Json::from_i64(7), string("x"), Json::from_i64(-1)]);
    let champion = |id: i32, is_banned: bool| GridChampion {
        id,
        selection_status: ChampionSelection { is_banned, ..Default::default() },
        ..Default::default()
    };
    engine.on_grid_champion(&champion(9, true));
    engine.load_tables(
        Some(&listed),
        Some(&Json::Null),
        Some(&vec![champion(5, false), champion(5, true)]),
    );
    let snap = engine.state.get();
    assert_eq!(snap.pickable, [7, -1].into_iter().collect());
    assert_eq!(snap.bannable, [3].into_iter().collect());
    assert!(snap.selection(9).is_none() && snap.selection(5).unwrap().is_banned);
}

#[test]
fn nothing_is_left_of_a_client_that_is_gone() {
    let mut engine = Engine::new();
    engine.on_lobby(Some(lobby("p", &[1])), &auto());
    engine.draft.last_action = "pick:0".into();
    engine.ready_check.in_flight = true;
    let reaction = engine.on_disconnected();
    assert!(reaction.show_mode && reaction.show_context);
    assert!(engine.mode.is_none() && engine.state.get().lobby.is_none());
    assert_eq!(engine.draft.last_action, "");
    assert!(!engine.ready_check.in_flight);
}

#[test]
fn the_panel_shows_what_is_known() {
    let mut engine = Engine::new();
    let settings = auto();
    let mut known = SummonerNames::new();
    known.learn(vec![(
        "p1".to_string(),
        RiotId { name: "Me".into(), full: "Me#EUW".into() },
    )]);
    engine.on_phase("Lobby", &mut auto());
    engine.on_lobby(Some(lobby("p", &[1])), &settings);
    engine.on_search(
        Some(Search {
            time_in_queue: Seconds::from_millis(90_000),
            low_priority_data: LowPriorityData {
                penalty_time: Seconds::from_millis(60_000),
                ..Default::default()
            },
            ..Default::default()
        }),
        &settings,
    );
    engine.on_champ_select(Some(their_turn()), &payload(), &HashMap::new());
    let names = champions().get_id_to_name();
    let panel = engine.client_state(&settings, &names, &known, true, NOW + 1_000);
    assert!(panel.connected && panel.ready && panel.auto_queue);
    let shown = panel.lobby.unwrap();
    assert!(shown.i_am_leader);
    assert_eq!(shown.members[0].summoner_id, "1");
    assert_eq!(shown.members[0].full_name.as_deref(), Some("Me#EUW"));
    assert_eq!(panel.search.unwrap().time_in_queue, Seconds::from_millis(30_000));
    let draft = panel.champ_select.unwrap();
    assert_eq!(draft.time_left, TimeLeft::Left(Seconds::from_millis(8_000)));
    assert!(draft.my_team[0].is_me);
    assert!(panel.decision.is_none());
    // After a cancel the panel no longer says ready.
    let snapshot = in_lobby(lobby("p", &[1]));
    engine.auto_queue.suppress(&snapshot);
    assert!(!engine.client_state(&settings, &names, &known, true, NOW).ready);
    assert!(engine.on_auto_queue_settings(&settings).evaluation.unwrap().timer.is_some());
}

// ── Sync, the launcher and the windows ──

#[test]
fn a_lost_relay_is_tried_less_and_less_often() {
    let mut reconnect = Reconnect::new();
    let waits: Vec<u64> =
        (0..6).map(|_| reconnect.session_ended(Err("x".into())).1).collect();
    assert_eq!(waits, [2, 4, 8, 16, 30, 30]);
    let (status, wait) = reconnect.session_ended(Ok(()));
    assert_eq!((status.describe().as_str(), wait), ("Error de sync: connexió tancada", 2));
    assert_eq!(SyncStatus::Connected.describe(), "Sync connectat");
    assert_eq!(
        SyncStatus::Retrying { in_secs: 4 }.describe(),
        "Reconnectant sync en 4s..."
    );
}

#[test]
fn the_relay_is_found_and_its_room_is_the_game() {
    assert_eq!(socket_url("ws://relay//"), "ws://relay/ws");
    assert_eq!(socket_url("ws://relay"), "ws://relay/ws");
    let session = |id: i64| object(vec![("gameData", object(vec![("gameId", Json::from_i64(id))]))]);
    assert_eq!(game_id_of(&session(77)).as_deref(), Some("77"));
    assert!(game_id_of(&session(0)).is_none());
    assert!(game_id_of(&object(vec![])).is_none());
    assert!(check_connected(true).is_ok());
    assert_eq!(check_connected(false).unwrap_err(), "sync desconnectat");
}

#[test]
fn the_riot_client_is_looked_for_where_it_was_installed() {
    let installs = r#"{"rc_default": "D:\\Riot\\RiotClientServices.exe", "rc_live": 3}"#;
    let there = |path: &str| path.starts_with("D:");
    assert_eq!(
        riot_client_path(Some(installs), there).as_deref(),
        Some("D:\\Riot\\RiotClientServices.exe")
    );
    assert_eq!(
        riot_client_path(Some("not json"), there).as_deref(),
        Some("D:\\Riot Games\\Riot Client\\RiotClientServices.exe")
    );
    assert!(riot_client_path(None, |_: &str| false).is_none());
    assert_eq!(client_paths(None).len(), 24);
    assert_eq!(
        launch_arguments(),
        ["--launch-product=league_of_legends", "--launch-patchline=live"]
    );
}

#[test]
fn a_background_is_an_image_of_limited_size() {
    assert_eq!(check_background("file:x").unwrap_err(), "Not an image data URI");
    assert!(check_background("data:image/png;base64,AAAA").is_ok());
    let mut big = "data:image/png;base64,".to_string();
    while big.len() <= MAX_BYTES {
        big.push_str(&"A".repeat(65536));
    }
    assert_eq!(check_background(&big).unwrap_err(), "Image too large (12 MB, max 12 MB)");
}

#[test]
fn the_overlay_follows_the_game_window() {
    assert!(overlay_shown("League of Legends (TM) Client", false));
    assert!(!overlay_shown("Notepad", false));
    assert!(overlay_shown("Notepad", true));
    let mut key = KeyWatch::new();
    let seen: Vec<Option<bool>> =
        [false, true, true, false].into_iter().map(|p| key.observe(p)).collect();
    assert_eq!(seen, [None, Some(true), None, Some(false)]);
}

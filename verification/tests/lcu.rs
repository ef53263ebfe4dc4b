use instalock::json::Json;
use instalock::lcu::{
    basic_authorization, champion_ids, credentials_from_command_line, event_of_message,
    extract_arg, initial_event, lockfile_paths, parse_lcu_message, parse_lockfile, read_answer,
    LcuCredentials, LcuEvent, ProcessScan, Resource,
};

#[test]
fn parses_a_real_lockfile() {
    let creds = parse_lockfile("LeagueClient:24940:54321:mySecretToken:https").unwrap();
    assert_eq!(creds.port, 54321);
    assert_eq!(creds.password, "mySecretToken");
}

#[test]
fn rejects_a_truncated_lockfile() {
    assert!(parse_lockfile("LeagueClient:24940:54321").is_none());
    assert!(parse_lockfile("").is_none());
}

/// Each flag has to stop at whitespace or the next quote, not run into its
/// neighbour.
#[test]
fn extracts_flags_from_a_command_line() {
    let cmd = r#""LeagueClientUx.exe" --app-port=54321 --remoting-auth-token=abc-DEF_123 --install-directory=C:\LoL"#;
    assert_eq!(extract_arg(cmd, "--app-port=").as_deref(), Some("54321"));
    assert_eq!(
        extract_arg(cmd, "--remoting-auth-token=").as_deref(),
        Some("abc-DEF_123")
    );
    assert_eq!(extract_arg(cmd, "--nonexistent=").as_deref(), None);
}

#[test]
fn extracts_a_flag_that_ends_at_a_quote() {
    let cmd = "--remoting-auth-token=tok3n\" --app-port=1234";
    assert_eq!(extract_arg(cmd, "--remoting-auth-token=").as_deref(), Some("tok3n"));
}

#[test]
fn a_flag_may_end_at_any_white_space() {
    assert_eq!(extract_arg("--a=x\u{2003}y", "--a=").as_deref(), Some("x"));
    assert_eq!(extract_arg("--a=x\u{a0}y", "--a=").as_deref(), Some("x"));
    assert_eq!(extract_arg("--a=x\u{200b}y", "--a=").as_deref(), Some("x\u{200b}y"));
    assert_eq!(extract_arg("--a=", "--a=").as_deref(), Some(""));
}

#[test]
fn a_lockfile_needs_a_port_that_fits() {
    assert!(parse_lockfile("a:b:65536:pw:https").is_none());
    assert!(parse_lockfile("a:b::pw:https").is_none());
    assert!(parse_lockfile("a:b:-1:pw:https").is_none());
    assert!(parse_lockfile("a:b:12x:pw:https").is_none());
    assert!(parse_lockfile("a:b:+:pw:https").is_none());
    assert_eq!(parse_lockfile("a:b:+007:pw:https").unwrap().port, 7);
    assert_eq!(parse_lockfile("a:b:65535:pw:https:more").unwrap().port, 65535);
}

#[test]
fn a_command_line_gives_credentials_or_nothing() {
    let creds = credentials_from_command_line("--app-port=54321 --remoting-auth-token=tok").unwrap();
    assert_eq!((creds.port, creds.password.as_str()), (54321, "tok"));
    assert!(credentials_from_command_line("--app-port=none --remoting-auth-token=tok").is_none());
    assert!(credentials_from_command_line("--app-port=1").is_none());
    assert!(credentials_from_command_line("").is_none());
}

#[test]
fn requests_are_addressed_and_authorized() {
    let creds = LcuCredentials { port: 54321, password: "secret".to_string() };
    assert_eq!(creds.auth_header(), "Basic cmlvdDpzZWNyZXQ=");
    assert_eq!(creds.url("/lol-lobby/v2/lobby"), "https://127.0.0.1:54321/lol-lobby/v2/lobby");
    assert_eq!(creds.socket_url(), "wss://127.0.0.1:54321/");
    assert_eq!(basic_authorization("abc"), "Basic abc");
}

#[test]
fn every_drive_is_searched() {
    let paths = lockfile_paths();
    assert_eq!(paths.len(), 72);
    assert_eq!(paths[0], "C:\\Riot Games\\League of Legends\\lockfile");
    assert_eq!(paths[4], "D:\\Program Files\\Riot Games\\League of Legends\\lockfile");
    assert_eq!(paths[71], "Z:\\Program Files (x86)\\Riot Games\\League of Legends\\lockfile");
}

#[test]
fn the_process_table_is_looked_at_less_and_less_often() {
    let mut scan = ProcessScan::eager();
    let looks: Vec<bool> = (0..11).map(|_| scan.begin_cycle()).collect();
    assert_eq!(
        looks,
        [true, false, true, false, false, true, false, false, false, false, true]
    );
    for _ in 0..1000 {
        scan.begin_cycle();
    }
    assert_eq!(scan.gap, 60);
}

// ── Pushed events ──

fn message(uri: &str, event_type: &str, data: &str) -> String {
    format!(
        r#"[8, "OnJsonApiEvent", {{"uri": "{}", "eventType": "{}", "data": {}}}]"#,
        uri, event_type, data
    )
}

fn event(uri: &str, event_type: &str, data: &str) -> Option<LcuEvent> {
    parse_lcu_message(&message(uri, event_type, data))
}

#[test]
fn a_phase_push_is_read() {
    match event("/lol-gameflow/v1/gameflow-phase", "Update", "\"Lobby\"") {
        Some(LcuEvent::GameflowPhase(phase)) => assert_eq!(phase, "Lobby"),
        other => panic!("{:?}", other),
    }
    assert!(event("/lol-gameflow/v1/gameflow-phase", "Update", "3").is_none());
}

#[test]
fn champion_sets_are_bare_arrays() {
    match event("/lol-champ-select/v1/pickable-champion-ids", "Update", "[1, \"x\", 266, -1]") {
        Some(LcuEvent::PickableChampions(ids)) => assert_eq!(ids, [1, 266, -1]),
        other => panic!("{:?}", other),
    }
    match event("/lol-champ-select/v1/bannable-champion-ids", "Delete", "[1]") {
        Some(LcuEvent::BannableChampions(ids)) => assert!(ids.is_empty()),
        other => panic!("{:?}", other),
    }
    assert!(champion_ids(&Json::Null).is_empty());
    // Cut to 32 bits.
    assert_eq!(champion_ids(&Json::Array(vec![Json::from_i64(4294967297)])), [1]);
}

#[test]
fn a_partial_lobby_is_ignored_and_a_deleted_one_is_none() {
    assert!(event("/lol-lobby/v2/lobby", "Update", "{\"members\": []}").is_none());
    match event("/lol-lobby/v2/lobby", "Update", "{\"gameConfig\": {}}") {
        Some(LcuEvent::Lobby(Some(data))) => assert!(data.get("gameConfig").is_some()),
        other => panic!("{:?}", other),
    }
    match event("/lol-lobby/v2/lobby", "Delete", "null") {
        Some(LcuEvent::Lobby(None)) => {}
        other => panic!("{:?}", other),
    }
}

#[test]
fn sessions_searches_ready_checks_and_grid_entries_are_told_apart() {
    assert!(matches!(
        event("/lol-champ-select/v1/session", "Update", "{}"),
        Some(LcuEvent::ChampSelect(_))
    ));
    assert!(matches!(
        event("/lol-champ-select/v1/session", "Delete", "null"),
        Some(LcuEvent::ChampSelectEnded)
    ));
    assert!(matches!(
        event("/lol-matchmaking/v1/search", "Delete", "null"),
        Some(LcuEvent::Search(None))
    ));
    assert!(matches!(
        event("/lol-matchmaking/v1/search", "Create", "{}"),
        Some(LcuEvent::Search(Some(_)))
    ));
    assert!(matches!(
        event("/lol-matchmaking/v1/ready-check", "Update", "{}"),
        Some(LcuEvent::ReadyCheck(_))
    ));
    assert!(matches!(
        event("/lol-champ-select/v1/grid-champions/266", "Update", "{}"),
        Some(LcuEvent::GridChampion(_))
    ));
    assert!(event("/lol-champ-select/v1/grid-champions/266", "Delete", "{}").is_none());
    assert!(event("/something/else", "Update", "{}").is_none());
}

#[test]
fn anything_but_an_event_message_is_ignored() {
    assert!(parse_lcu_message("").is_none());
    assert!(parse_lcu_message("{}").is_none());
    assert!(parse_lcu_message("[8, \"x\"]").is_none());
    assert!(parse_lcu_message("[5, \"x\", {\"uri\": \"/lol-matchmaking/v1/search\"}]").is_none());
    assert!(parse_lcu_message("[8, \"x\", []]").is_none());
    assert!(event_of_message(Json::Null).is_none());
}

#[test]
fn a_message_without_data_carries_null() {
    match parse_lcu_message("[8, \"x\", {\"uri\": \"/lol-matchmaking/v1/ready-check\"}]") {
        Some(LcuEvent::ReadyCheck(Json::Null)) => {}
        other => panic!("{:?}", other),
    }
}

#[test]
fn the_first_answers_become_events() {
    assert!(matches!(initial_event(Resource::Lobby, None), Some(LcuEvent::Lobby(None))));
    assert!(initial_event(Resource::Search, None).is_none());
    assert!(matches!(
        initial_event(Resource::GameflowPhase, Some(Json::Str("None".to_string()))),
        Some(LcuEvent::GameflowPhase(_))
    ));
    assert!(initial_event(Resource::GameflowPhase, Some(Json::Null)).is_none());
    assert!(initial_event(Resource::ChampSelect, Some(Json::Object(Vec::new()))).is_none());
    let session = Json::Object(vec![("theirTeam".to_string(), Json::Array(Vec::new()))]);
    assert!(matches!(
        initial_event(Resource::ChampSelect, Some(session)),
        Some(LcuEvent::ChampSelect(_))
    ));
    assert_eq!(Resource::Lobby.path(), "/lol-lobby/v2/lobby");
}

#[test]
fn answers_are_json_null_or_an_error() {
    match read_answer(404, "{\"message\": \"none\"}") {
        Err(e) => assert_eq!(e, "HTTP 404 - {\"message\": \"none\"}"),
        Ok(_) => panic!("a failure is an error"),
    }
    assert!(matches!(read_answer(204, ""), Ok(Json::Null)));
    assert!(matches!(read_answer(200, "not json"), Ok(Json::Null)));
    match read_answer(200, "\"Lobby\"") {
        Ok(data) => assert_eq!(data.as_str(), Some("Lobby")),
        Err(e) => panic!("{}", e),
    }
    assert!(read_answer(302, "").is_err());
}

#[test]
fn parsed_numbers_keep_their_integers_and_their_text() {
    let message = r#"[8, "x", {"uri": "/lol-matchmaking/v1/ready-check", "data": [18446744073709551615, -7, 1.5, true]}]"#;
    let data = match parse_lcu_message(message) {
        Some(LcuEvent::ReadyCheck(data)) => data,
        other => panic!("{:?}", other),
    };
    let items = data.as_array().unwrap();
    assert_eq!((items[0].as_i64(), items[0].as_u64()), (None, Some(u64::MAX)));
    assert_eq!((items[1].as_i64(), items[1].as_u64()), (Some(-7), None));
    assert_eq!((items[2].as_i64(), items[2].as_u64()), (None, None));
    match &items[2] {
        Json::Number(n) => assert_eq!(n.written, "1.5"),
        other => panic!("{:?}", other),
    }
    assert_eq!(items[3].as_bool(), Some(true));
}

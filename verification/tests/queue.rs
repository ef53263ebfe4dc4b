use instalock::json::Json;
use instalock::lol_state::{
    GameConfig, Lobby, LobbyMember, Restriction, Search, SearchError, Snapshot,
};
use instalock::names::NameMap;
use instalock::queue::{evaluate_with, format_duration, restriction, Gate, Trigger};
use instalock::queues::{display_name, fallback_label, QueueInfo, QueueTable, RawQueue};
use instalock::settings::Settings;
use instalock::time::Seconds;

/// Most of these go without the hand-cancel flag, which is the caller's state,
/// not the snapshot's.
fn evaluate(snapshot: &Snapshot, settings: &Settings) -> Gate {
    evaluate_with(snapshot, settings, false)
}

fn settings(trigger: &str) -> Settings {
    Settings {
        auto_queue: true,
        auto_queue_trigger: trigger.to_string(),
        ..Settings::default()
    }
}

fn leader() -> LobbyMember {
    LobbyMember { is_leader: true, ..Default::default() }
}

fn member(ready: Option<bool>) -> LobbyMember {
    LobbyMember { ready, ..Default::default() }
}

/// A lobby in the state the client reports just before Find Match lights up.
fn ready_snapshot() -> Snapshot {
    Snapshot {
        phase: "Lobby".into(),
        lobby: Some(Lobby {
            can_start_activity: true,
            local_member: leader(),
            members: vec![LobbyMember { is_leader: true, ready: Some(true), ..Default::default() }],
            game_config: GameConfig {
                queue_id: 420,
                max_lobby_size: 1,
                game_mode: "CLASSIC".into(),
                ..Default::default()
            },
            ..Default::default()
        }),
        ..Default::default()
    }
}

#[test]
fn a_full_leader_owned_lobby_queues() {
    assert_eq!(evaluate(&ready_snapshot(), &settings("full")), Gate::Ready);
}

/// Leaving the queue by hand outranks every reason to re-enter it.
#[test]
fn a_hand_cancel_beats_a_lobby_that_is_otherwise_ready() {
    let snap = ready_snapshot();
    let settings = settings("full");

    assert_eq!(evaluate(&snap, &settings), Gate::Ready);
    assert_eq!(evaluate_with(&snap, &settings, true), Gate::CancelledByUser);
    assert!(!evaluate_with(&snap, &settings, true).is_ready());
}

#[test]
fn off_by_default_and_silent_when_off() {
    let settings = Settings::default();
    assert!(!settings.auto_queue, "must never queue unasked");
    assert_eq!(evaluate(&ready_snapshot(), &settings), Gate::Disabled);
}

/// The client refuses a search from a non-leader, so there is no point
/// sending one - and the user gets told why rather than nothing happening.
#[test]
fn a_non_leader_never_queues() {
    let mut snap = ready_snapshot();
    snap.lobby.as_mut().unwrap().local_member.is_leader = false;
    assert_eq!(evaluate(&snap, &settings("full")), Gate::NotLeader);
}

#[test]
fn a_custom_game_has_no_queue_to_start() {
    let mut snap = ready_snapshot();
    snap.lobby.as_mut().unwrap().game_config.is_custom = true;
    assert_eq!(evaluate(&snap, &settings("full")), Gate::CustomGame);
}

#[test]
fn nothing_happens_outside_the_lobby() {
    let mut snap = ready_snapshot();
    snap.phase = "ChampSelect".into();
    assert_eq!(
        evaluate(&snap, &settings("full")),
        Gate::WrongPhase("ChampSelect".into())
    );
}

/// The single most important guard: never POST a second search while one is
/// already running.
#[test]
fn an_active_search_is_not_restarted() {
    let mut snap = ready_snapshot();
    snap.search = Some(Search {
        search_state: "Searching".into(),
        is_currently_in_queue: true,
        ..Default::default()
    });
    assert_eq!(evaluate(&snap, &settings("full")), Gate::AlreadySearching);
}

/// Queuing during a dodge timer cannot succeed, so nothing is sent.
#[test]
fn a_penalty_blocks_the_queue_and_says_how_long() {
    let mut snap = ready_snapshot();
    snap.search = Some(Search {
        errors: vec![SearchError {
            id: 1,
            error_type: "QUEUE_DODGER".into(),
            penalty_time_remaining: Seconds::from_millis(300_000),
            ..Default::default()
        }],
        ..Default::default()
    });
    match evaluate(&snap, &settings("full")) {
        Gate::Penalty { secs } => assert_eq!(secs, Seconds::from_millis(300_000)),
        other => panic!("expected a penalty, got {:?}", other),
    }
    assert!(evaluate(&snap, &settings("full")).describe().contains("5 min"));
}

#[test]
fn a_restriction_is_named_rather_than_swallowed() {
    let mut snap = ready_snapshot();
    snap.lobby.as_mut().unwrap().can_start_activity = false;
    snap.lobby.as_mut().unwrap().restrictions = vec![Restriction {
        restriction_code: "QueueDisabled".into(),
        ..Default::default()
    }];

    let gate = evaluate(&snap, &settings("full"));
    assert_eq!(gate, Gate::Restricted("QueueDisabled".into()));
    assert!(gate.describe().contains("cua desactivada"));
}

/// An unmapped code still reaches the user, untranslated, rather than
/// becoming a generic "no".
#[test]
fn an_unknown_restriction_code_is_passed_through() {
    assert!(Gate::Restricted("SomeNewRiotCode".into())
        .describe()
        .contains("SomeNewRiotCode"));
    assert_eq!(restriction("SomeNewRiotCode"), "SomeNewRiotCode");
}

// ── Triggers ──

#[test]
fn full_waits_for_every_seat() {
    let mut snap = ready_snapshot();
    snap.lobby.as_mut().unwrap().game_config.max_lobby_size = 5;
    assert_eq!(
        evaluate(&snap, &settings("full")),
        Gate::WaitingForMembers { have: 1, need: 5 }
    );
}

/// Solo queue: the lobby is "full" at one, so this must not wait forever.
#[test]
fn solo_queue_is_full_at_one() {
    assert_eq!(evaluate(&ready_snapshot(), &settings("full")), Gate::Ready);
}

#[test]
fn the_member_count_trigger_is_configurable() {
    let mut snap = ready_snapshot();
    snap.lobby.as_mut().unwrap().game_config.max_lobby_size = 5;
    let mut settings = settings("members");
    settings.auto_queue_min_members = 2;

    assert_eq!(
        evaluate(&snap, &settings),
        Gate::WaitingForMembers { have: 1, need: 2 }
    );

    snap.lobby.as_mut().unwrap().members = vec![leader(), LobbyMember::default()];
    assert_eq!(evaluate(&snap, &settings), Gate::Ready);
}

/// A count of zero would queue an empty lobby; clamp it.
#[test]
fn a_member_count_of_zero_still_needs_one_member() {
    let mut snap = ready_snapshot();
    snap.lobby.as_mut().unwrap().members = Vec::new();
    snap.lobby.as_mut().unwrap().game_config.max_lobby_size = 5;
    let mut settings = settings("members");
    settings.auto_queue_min_members = 0;
    assert_eq!(
        evaluate(&snap, &settings),
        Gate::WaitingForMembers { have: 0, need: 1 }
    );
}

#[test]
fn the_ready_trigger_waits_for_everyone() {
    let mut snap = ready_snapshot();
    snap.lobby.as_mut().unwrap().members = vec![member(Some(true)), member(Some(false))];
    assert_eq!(
        evaluate(&snap, &settings("ready")),
        Gate::NotEveryoneReady { ready: 1, total: 2 }
    );

    snap.lobby.as_mut().unwrap().members = vec![member(Some(true)), member(Some(true))];
    assert_eq!(evaluate(&snap, &settings("ready")), Gate::Ready);
}

/// Newer patches have been seen nesting readiness under memberData.
#[test]
fn the_ready_trigger_reads_nested_readiness_too() {
    let mut snap = ready_snapshot();
    snap.lobby.as_mut().unwrap().members = vec![LobbyMember {
        member_data: NameMap::from(vec![("ready".to_string(), Json::Bool(true))]),
        ..Default::default()
    }];
    assert_eq!(evaluate(&snap, &settings("ready")), Gate::Ready);
}

#[test]
fn an_empty_lobby_is_never_everyone_ready() {
    let mut snap = ready_snapshot();
    snap.lobby.as_mut().unwrap().members = Vec::new();
    assert_eq!(
        evaluate(&snap, &settings("ready")),
        Gate::NotEveryoneReady { ready: 0, total: 0 }
    );
}

/// The trigger being met is not enough: the client still has the last word,
/// because it knows about things never seen here.
#[test]
fn the_client_still_has_the_last_word() {
    let mut snap = ready_snapshot();
    snap.lobby.as_mut().unwrap().can_start_activity = false;
    assert_eq!(evaluate(&snap, &settings("full")), Gate::ClientRefuses);
}

#[test]
fn an_unknown_trigger_falls_back_to_full() {
    assert_eq!(Trigger::parse("nonsense"), Trigger::Full);
    assert_eq!(Trigger::parse(""), Trigger::Full);
}

#[test]
fn triggers_are_known_by_name() {
    assert_eq!(Trigger::parse("members"), Trigger::Members);
    assert_eq!(Trigger::parse("ready"), Trigger::Ready);
    assert_eq!(Trigger::parse("full"), Trigger::Full);
}

#[test]
fn without_a_lobby_there_is_nothing_to_queue() {
    let mut snap = ready_snapshot();
    snap.lobby = None;
    assert_eq!(evaluate(&snap, &settings("full")), Gate::NoLobby);
}

// ── Messages ──

/// Waiting for a fifth is the normal state of a lobby; a penalty is not.
/// Only the second belongs in the log.
#[test]
fn only_real_problems_are_worth_logging() {
    assert!(!Gate::WaitingForMembers { have: 3, need: 5 }.is_noteworthy());
    assert!(!Gate::Disabled.is_noteworthy());
    assert!(!Gate::AlreadySearching.is_noteworthy());
    assert!(Gate::Penalty { secs: Seconds::from_millis(60_000) }.is_noteworthy());
    assert!(Gate::NotLeader.is_noteworthy());
    assert!(Gate::Restricted("QueueDisabled".into()).is_noteworthy());
}

#[test]
fn durations_read_as_minutes_past_a_minute() {
    assert_eq!(format_duration(Seconds::from_millis(45_000)), "45 s");
    assert_eq!(format_duration(Seconds::from_millis(60_000)), "1 min 0 s");
    assert_eq!(format_duration(Seconds::from_millis(330_000)), "5 min 30 s");
    assert_eq!(format_duration(Seconds::from_millis(-5_000)), "0 s");
}

#[test]
fn durations_are_rounded_to_the_second() {
    assert_eq!(format_duration(Seconds::from_millis(59_400)), "59 s");
    assert_eq!(format_duration(Seconds::from_millis(59_500)), "1 min 0 s");
}

#[test]
fn waiting_is_described_with_the_counts() {
    let line = Gate::WaitingForMembers { have: 3, need: 5 }.describe();
    assert!(line.contains("3") && line.contains("5"), "{}", line);
    let line = Gate::NotEveryoneReady { ready: 1, total: 2 }.describe();
    assert!(line.contains("1") && line.contains("2"), "{}", line);
    assert!(Gate::WrongPhase("EndOfGame".into()).describe().contains("EndOfGame"));
}

// ── The queue table ──

fn info(game_mode: &str, map_id: i64) -> QueueInfo {
    QueueInfo {
        game_mode: game_mode.into(),
        map_id,
        name: String::new(),
    }
}

/// Every ARAM variant the client has shipped lives on map 12, whatever it
/// is called that patch. `KIWI` is ARAM: Mayhem.
#[test]
fn the_howling_abyss_never_has_a_pick_or_ban_phase() {
    assert!(!info("ARAM", 12).has_champ_select());
    assert!(!info("KIWI", 12).has_champ_select());
    assert!(!info("KIWI_JADE", 12).has_champ_select());
}

#[test]
fn the_rift_and_arena_do() {
    assert!(info("CLASSIC", 11).has_champ_select());
    assert!(info("CHERRY", 30).has_champ_select());
    // A rift variant under a new codename must not need a code change.
    assert!(info("JADE", 453).has_champ_select());
    assert!(info("BRAWL", 35).has_champ_select());
}

#[test]
fn modes_with_no_champion_select_at_all_are_excluded() {
    assert!(!info("STRAWBERRY", 33).has_champ_select());
    assert!(!info("TFT", 22).has_champ_select());
    assert!(!info("TUTORIAL_MODULE_1", 11).has_champ_select());
}

#[test]
fn a_name_falls_back_through_short_name_and_description() {
    let raw = RawQueue {
        id: 4310,
        game_mode: "JADE".into(),
        map_id: 453,
        name: "".into(),
        short_name: "Classic".into(),
        description: "Classic 5v5".into(),
    };
    assert_eq!(display_name(&raw), "Classic");
}

#[test]
fn an_unknown_mode_is_reported_as_itself_rather_than_guessed() {
    assert_eq!(fallback_label("KIWI"), "KIWI");
    assert_eq!(fallback_label(""), "Desconegut");
}

fn raw(id: i64, game_mode: &str, name: &str) -> RawQueue {
    RawQueue {
        id,
        game_mode: game_mode.into(),
        map_id: 11,
        name: name.into(),
        short_name: "".into(),
        description: "".into(),
    }
}

#[test]
fn a_queue_is_labelled_by_its_published_name() {
    let mut table = QueueTable::new();
    assert_eq!(table.label(420, "CLASSIC"), "Summoner's Rift");
    table.fill(&vec![raw(420, "CLASSIC", "Solo/Duo"), raw(1, "URF", "")]);
    assert_eq!(table.label(420, "CLASSIC"), "Solo/Duo");
    assert_eq!(table.label(1, "URF"), "URF");
    assert_eq!(table.get(420).unwrap().map_id, 11);
    assert!(table.get(7).is_none());
    assert_eq!(display_name(&raw(1, "URF", "")), "URF", "the mode, where there is no name");
    table.fill(&vec![raw(0, "CLASSIC", "x"), raw(7, "", "y")]);
    assert!(table.get(0).is_none() && table.get(7).is_none(), "neither id nor mode");
}

use instalock::actions::{
    accept_match, ban_champion, cancel_matchmaking, fetch, hover_champion, lock_champion,
    lock_wait, pick_bravery, pick_champion, start_matchmaking, Method, Request,
};
use instalock::champions::{ChampionRow, Champions};
use instalock::draft::{hover_line, Deed, DraftInput, DraftMemory, Plan};
use instalock::json::Json;
use instalock::lol_state::{
    Action, ChampSelect, ChampionSelection, PlayerSelection, Snapshot, Timer,
};
use instalock::queues::{QueueTable, RawQueue};
use instalock::selection::{Intent, Skipped};
use instalock::settings::{ChampionEntry, ModeLists, RoleLists, Settings, GLOBAL_MODE};
use instalock::time::Seconds;

const NOW: i64 = 1_000_000;

fn champions() -> Champions {
    let row = |id: i32, name: &str| ChampionRow { id, name: name.into(), alias: None };
    let mut champions = Champions::new();
    champions.fill(&vec![row(266, "Aatrox"), row(103, "Ahri"), row(84, "Akali")]);
    champions
}

fn lists(names: &[&str]) -> ModeLists {
    ModeLists::from(vec![(
        GLOBAL_MODE.to_string(),
        RoleLists {
            default: names.iter().map(|n| ChampionEntry::new(n)).collect(),
            ..Default::default()
        },
    )])
}

fn settings(picks: &[&str], bans: &[&str]) -> Settings {
    Settings {
        auto_pick: true,
        auto_ban: true,
        hover_pick: true,
        pick_lists: lists(picks),
        ban_lists: lists(bans),
        pick_delay_secs: Seconds::from_millis(2_000),
        ban_delay_secs: Seconds::from_millis(50_000),
        action_margin_secs: Seconds::from_millis(1_500),
        ..Settings::default()
    }
}

fn session(phase: &str, action_type: &str) -> ChampSelect {
    ChampSelect {
        local_player_cell_id: 3,
        my_team: vec![PlayerSelection { cell_id: 3, ..Default::default() }],
        actions: vec![vec![Action {
            id: 17,
            actor_cell_id: 3,
            action_type: action_type.into(),
            ..Default::default()
        }]],
        timer: Timer {
            adjusted_time_left_in_phase: 20_000,
            internal_now_in_epoch_ms: NOW,
            phase: phase.into(),
            ..Default::default()
        },
        queue_id: 420,
        ..Default::default()
    }
}

fn snapshot(session: ChampSelect) -> Snapshot {
    Snapshot { champ_select: Some(session), ..Default::default() }
}

fn plan_in(
    memory: &mut DraftMemory,
    settings: &Settings,
    snapshot: &Snapshot,
    mode: Option<&str>,
    queues: &QueueTable,
) -> Plan {
    memory.plan(&DraftInput {
        settings,
        snapshot,
        champions: &champions(),
        queues,
        current_mode: mode,
        now_epoch_ms: NOW,
    })
}

fn plan(memory: &mut DraftMemory, settings: &Settings, snapshot: &Snapshot) -> Plan {
    plan_in(memory, settings, snapshot, Some("CLASSIC"), &QueueTable::new())
}

#[test]
fn a_pick_is_planned_once() {
    let mut memory = DraftMemory::new();
    let settings = settings(&["Ahri"], &[]);
    let snap = snapshot(session("BAN_PICK", "pick"));
    match plan(&mut memory, &settings, &snap) {
        Plan::Pick { action_id, champion_id, name, note, hover, delay } => {
            assert_eq!((action_id, champion_id, name.as_str()), (17, 103, "Ahri"));
            assert!(note.is_none() && hover);
            assert_eq!(delay, Seconds::from_millis(2_000));
        }
        other => panic!("{:?}", other),
    }
    assert!(matches!(plan(&mut memory, &settings, &snap), Plan::Nothing));
    let decision = memory.decision.as_ref().unwrap();
    assert_eq!(decision.what, Intent::Pick);
    assert_eq!(decision.chosen.as_ref().unwrap().1, 103);
    memory.forget();
    assert!(matches!(plan(&mut memory, &settings, &snap), Plan::Pick { .. }));
}

#[test]
fn a_delay_never_runs_into_the_margin() {
    let mut memory = DraftMemory::new();
    let snap = snapshot(session("BAN_PICK", "ban"));
    match plan(&mut memory, &settings(&[], &["Akali"]), &snap) {
        Plan::Ban { champion_id, delay, .. } => {
            assert_eq!(champion_id, 84);
            assert_eq!(delay, Seconds::from_millis(18_500));
        }
        other => panic!("{:?}", other),
    }
}

#[test]
fn the_backup_is_announced() {
    let mut memory = DraftMemory::new();
    let mut snap = snapshot(session("BAN_PICK", "pick"));
    snap.grid.insert(266, ChampionSelection { is_banned: true, ..Default::default() });
    match plan(&mut memory, &settings(&["Aatrox", "Ahri"], &[]), &snap) {
        Plan::Pick { note, .. } => assert_eq!(
            note.as_deref(),
            Some("Pick alternatiu: Ahri (omesos: Aatrox (banejat))")
        ),
        other => panic!("{:?}", other),
    }
    let passed = &memory.decision.as_ref().unwrap().passed_over;
    assert_eq!((passed.len(), passed[0].reason), (1, Skipped::Banned));
}

#[test]
fn an_unusable_list_is_explained_and_tried_again() {
    let mut memory = DraftMemory::new();
    let snap = snapshot(session("BAN_PICK", "pick"));
    for _ in 0..2 {
        match plan(&mut memory, &settings(&["Nobody"], &[]), &snap) {
            Plan::Exhausted { line } => {
                assert!(line.starts_with("Llista de pick esgotada: Nobody ("), "{}", line)
            }
            other => panic!("{:?}", other),
        }
    }
    match plan(&mut memory, &settings(&[], &[]), &snap) {
        Plan::Exhausted { line } => assert_eq!(line, "Cap campió configurat per al pick"),
        other => panic!("{:?}", other),
    }
}

#[test]
fn a_ban_that_only_the_table_refuses_is_tried_anyway() {
    let mut memory = DraftMemory::new();
    let mut snap = snapshot(session("BAN_PICK", "ban"));
    snap.bannable = [103].into_iter().collect();
    assert!(matches!(
        plan(&mut memory, &settings(&[], &["Akali"]), &snap),
        Plan::Ban { champion_id: 84, note: None, .. }
    ));
}

#[test]
fn planning_only_declares() {
    let mut memory = DraftMemory::new();
    let settings = settings(&["Ahri"], &["Akali"]);
    let snap = snapshot(session("PLANNING", "pick"));
    match plan(&mut memory, &settings, &snap) {
        Plan::Declare { action_id, champion_id, .. } => {
            assert_eq!((action_id, champion_id), (17, 103))
        }
        other => panic!("{:?}", other),
    }
    assert!(matches!(plan(&mut memory, &settings, &snap), Plan::Nothing));
    // After a refusal the next event tries again.
    assert!(memory.declared("Ahri", &Err("no".into())).is_none());
    assert!(matches!(plan(&mut memory, &settings, &snap), Plan::Declare { .. }));
    assert_eq!(memory.declared("Ahri", &Ok(())).as_deref(), Some("Intenció: Ahri"));
    memory.forget_intent();
    assert!(matches!(plan(&mut memory, &settings, &snap), Plan::Declare { .. }));
}

#[test]
fn bravery_is_committed_in_arena_and_never_declared() {
    let settings = settings(&["Bravery", "Ahri"], &[]);
    let table = QueueTable::new();
    let mut memory = DraftMemory::new();
    let planning = snapshot(session("PLANNING", "pick"));
    assert!(matches!(
        plan_in(&mut memory, &settings, &planning, Some("CHERRY"), &table),
        Plan::Nothing
    ));
    let picking = snapshot(session("BAN_PICK", "pick"));
    assert!(matches!(
        plan_in(&mut memory, &settings, &picking, Some("CHERRY"), &table),
        Plan::Bravery { action_id: 17, .. }
    ));
}

#[test]
fn nothing_is_done_without_a_turn() {
    let settings = settings(&["Ahri"], &["Akali"]);
    let mut memory = DraftMemory::new();
    assert!(matches!(plan(&mut memory, &settings, &Snapshot::default()), Plan::Nothing));
    let starting = snapshot(session("GAME_STARTING", "pick"));
    assert!(matches!(plan(&mut memory, &settings, &starting), Plan::Nothing));
    let mut late = session("BAN_PICK", "pick");
    late.timer.adjusted_time_left_in_phase = 0;
    assert!(matches!(plan(&mut memory, &settings, &snapshot(late)), Plan::Nothing));
    let mut watching = session("BAN_PICK", "pick");
    watching.is_spectating = true;
    assert!(matches!(plan(&mut memory, &settings, &snapshot(watching)), Plan::Nothing));
    let switched_off = Settings { auto_pick: false, ..settings };
    let mine = snapshot(session("BAN_PICK", "pick"));
    assert!(matches!(plan(&mut memory, &switched_off, &mine), Plan::Nothing));
    assert_eq!(memory.last_action, "");
}

#[test]
fn the_howling_abyss_has_nothing_to_pick() {
    let settings = settings(&["Ahri"], &[]);
    let mut memory = DraftMemory::new();
    let snap = snapshot(session("BAN_PICK", "pick"));
    let table = QueueTable::new();
    assert!(matches!(
        plan_in(&mut memory, &settings, &snap, Some("ARAM"), &table),
        Plan::Nothing
    ));
    let mut table = QueueTable::new();
    table.fill(&vec![RawQueue { id: 420, game_mode: "KIWI".into(), map_id: 12, ..Default::default() }]);
    assert!(matches!(plan_in(&mut memory, &settings, &snap, None, &table), Plan::Nothing));
}

#[test]
fn what_was_done_is_remembered_and_what_failed_is_open_again() {
    let mut memory = DraftMemory::new();
    let mut settings = settings(&["Ahri"], &[]);
    let snap = snapshot(session("BAN_PICK", "pick"));
    plan(&mut memory, &settings, &snap);
    let line = memory.done(&mut settings, Deed::Pick, "Ahri", &Err("HTTP 500".into()));
    assert_eq!(line, "Error picking: HTTP 500");
    assert!(settings.recent_picks.is_empty());
    assert!(matches!(plan(&mut memory, &settings, &snap), Plan::Pick { .. }));
    assert_eq!(memory.done(&mut settings, Deed::Pick, "Ahri", &Ok(())), "Picked Ahri!");
    assert_eq!(memory.done(&mut settings, Deed::Ban, "Akali", &Ok(())), "Banned Akali!");
    assert_eq!(memory.done(&mut settings, Deed::Bravery, "", &Ok(())), "Bravery activada!");
    assert_eq!(settings.recent_picks, ["Ahri"]);
    assert_eq!(settings.recent_bans, ["Akali"]);
    assert!(matches!(plan(&mut memory, &settings, &snap), Plan::Nothing));
    assert_eq!(
        memory.done(&mut settings, Deed::Ban, "Akali", &Err("x".into())),
        "Error banning: x"
    );
    assert_eq!(
        memory.done(&mut settings, Deed::Bravery, "", &Err("x".into())),
        "Error Bravery: x"
    );
    assert_eq!(hover_line("Ahri", &Ok(())), "Hovering Ahri...");
    assert_eq!(hover_line("Ahri", &Err("x".into())), "Error hovering: x");
}

// ── When the wait is over ──

fn due(memory: &mut DraftMemory, settings: &Settings, snapshot: &Snapshot, id: i64) -> Plan {
    memory.due(
        &DraftInput {
            settings,
            snapshot,
            champions: &champions(),
            queues: &QueueTable::new(),
            current_mode: Some("CLASSIC"),
            now_epoch_ms: NOW + 2_000,
        },
        id,
    )
}

#[test]
fn an_undisturbed_choice_is_committed_at_once() {
    let mut memory = DraftMemory::new();
    let settings = settings(&["Ahri"], &["Akali"]);
    let picking = snapshot(session("BAN_PICK", "pick"));
    plan(&mut memory, &settings, &picking);
    match due(&mut memory, &settings, &picking, 17) {
        Plan::Pick { action_id, champion_id, name, note, hover, delay } => {
            assert_eq!((action_id, champion_id, name.as_str()), (17, 103, "Ahri"));
            assert!(note.is_none() && hover);
            assert_eq!(delay, Seconds::from_millis(0));
        }
        other => panic!("{:?}", other),
    }
    assert_eq!(memory.last_action, "pick:3");
    assert!(matches!(plan(&mut memory, &settings, &picking), Plan::Nothing));

    let banning = snapshot(session("BAN_PICK", "ban"));
    plan(&mut memory, &settings, &banning);
    match due(&mut memory, &settings, &banning, 17) {
        Plan::Ban { champion_id, delay, .. } => {
            assert_eq!((champion_id, delay), (84, Seconds::from_millis(0)));
        }
        other => panic!("{:?}", other),
    }
}

#[test]
fn a_champion_lost_during_the_wait_makes_way_for_the_next() {
    let mut memory = DraftMemory::new();
    let settings = settings(&["Aatrox", "Ahri", "Akali"], &[]);
    let mut snap = snapshot(session("BAN_PICK", "pick"));
    assert!(matches!(
        plan(&mut memory, &settings, &snap),
        Plan::Pick { champion_id: 266, note: None, .. }
    ));
    snap.grid.insert(266, ChampionSelection { is_banned: true, ..Default::default() });
    snap.grid.insert(103, ChampionSelection { pick_intented: true, ..Default::default() });
    assert!(matches!(plan(&mut memory, &settings, &snap), Plan::Nothing));
    match due(&mut memory, &settings, &snap, 17) {
        Plan::Pick { champion_id, note, delay, .. } => {
            assert_eq!((champion_id, delay), (84, Seconds::from_millis(0)));
            assert_eq!(
                note.as_deref(),
                Some(
                    "Pick alternatiu: Akali (omesos: Aatrox (banejat), \
                     Ahri (un aliat l'està hoverejant))"
                )
            );
        }
        other => panic!("{:?}", other),
    }
    assert_eq!(memory.decision.as_ref().unwrap().chosen.as_ref().unwrap().1, 84);
}

#[test]
fn a_list_that_runs_out_during_the_wait_leaves_the_action_open() {
    let mut memory = DraftMemory::new();
    let settings = settings(&["Ahri"], &[]);
    let mut snap = snapshot(session("BAN_PICK", "pick"));
    plan(&mut memory, &settings, &snap);
    snap.grid.insert(103, ChampionSelection { is_banned: true, ..Default::default() });
    match due(&mut memory, &settings, &snap, 17) {
        Plan::Exhausted { line } => {
            assert_eq!(line, "Llista de pick esgotada: Ahri (banejat)")
        }
        other => panic!("{:?}", other),
    }
    assert_eq!(memory.last_action, "");
}

#[test]
fn an_action_that_is_no_longer_open_is_left_alone() {
    let settings = settings(&["Ahri"], &[]);
    let open = snapshot(session("BAN_PICK", "pick"));
    let mut finished = session("BAN_PICK", "pick");
    finished.actions[0][0].completed = true;
    let finished = snapshot(finished);
    for (now, id) in [(&finished, 17), (&open, 18), (&Snapshot::default(), 17)] {
        let mut memory = DraftMemory::new();
        plan(&mut memory, &settings, &open);
        assert_eq!(memory.last_action, "pick:3");
        assert!(matches!(due(&mut memory, &settings, now, id), Plan::Nothing));
        assert_eq!(memory.last_action, "", "the next session decides afresh");
        assert!(matches!(plan(&mut memory, &settings, &open), Plan::Pick { .. }));
    }

    let mut memory = DraftMemory::new();
    plan(&mut memory, &settings, &open);
    let switched_off = Settings { auto_pick: false, ..settings };
    assert!(matches!(due(&mut memory, &switched_off, &open, 17), Plan::Nothing));
    assert_eq!(memory.last_action, "");
}

#[test]
fn bravery_is_due_in_arena() {
    let settings = settings(&["Bravery", "Ahri"], &[]);
    let snap = snapshot(session("BAN_PICK", "pick"));
    let mut memory = DraftMemory::new();
    let plan = memory.due(
        &DraftInput {
            settings: &settings,
            snapshot: &snap,
            champions: &champions(),
            queues: &QueueTable::new(),
            current_mode: Some("CHERRY"),
            now_epoch_ms: NOW,
        },
        17,
    );
    match plan {
        Plan::Bravery { action_id, delay, .. } => {
            assert_eq!((action_id, delay), (17, Seconds::from_millis(0)));
        }
        other => panic!("{:?}", other),
    }
}

// ── The requests ──

fn body(request: &Request) -> (Option<i64>, Option<bool>) {
    let body = request.body.as_ref().unwrap();
    (body.i64_at("championId"), body.get("completed").and_then(Json::as_bool))
}

#[test]
fn a_hover_does_not_commit() {
    let hover = hover_champion(17, 103);
    assert_eq!(hover.method, Method::Patch);
    assert_eq!(hover.path, "/lol-champ-select/v1/session/actions/17");
    assert_eq!(body(&hover), (Some(103), None));
    for commit in [lock_champion(17, 103), pick_champion(17, 103), ban_champion(17, 103)] {
        assert_eq!(commit.path, hover.path);
        assert_eq!(body(&commit), (Some(103), Some(true)));
    }
    assert_eq!(body(&pick_bravery(17)), (Some(-3), Some(true)));
}

#[test]
fn matchmaking_is_asked_of_the_lobby() {
    let path = "/lol-lobby/v2/lobby/matchmaking/search";
    assert_eq!((start_matchmaking().method, start_matchmaking().path.as_str()), (Method::Post, path));
    assert_eq!((cancel_matchmaking().method, cancel_matchmaking().path.as_str()), (Method::Delete, path));
    assert_eq!(accept_match().path, "/lol-matchmaking/v1/ready-check/accept");
    assert!(accept_match().body.is_none());
    let question = fetch("/x");
    assert_eq!((question.method, question.path.as_str()), (Method::Get, "/x"));
}

#[test]
fn a_lock_waits_for_its_hover() {
    assert_eq!(lock_wait(Seconds::from_millis(0)), Seconds::from_millis(300));
    assert_eq!(lock_wait(Seconds::from_millis(2_000)), Seconds::from_millis(2_000));
}

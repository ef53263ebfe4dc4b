use instalock::lol_state::{Bans, ChampSelect, ChampionSelection, PlayerSelection, Snapshot};
use instalock::selection::{
    choose_champion, describe, ignoring_availability, Choice, Exhausted, Intent, PassedOver,
    Skipped,
};
use instalock::settings::{ChampionEntry, BRAVERY_ID};

const AATROX: i32 = 266;
const AHRI: i32 = 103;
const AKALI: i32 = 84;

fn resolver(name: &str) -> Option<i32> {
    match name {
        "Aatrox" => Some(AATROX),
        "Ahri" => Some(AHRI),
        "Akali" => Some(AKALI),
        _ => None,
    }
}

fn list(names: &[&str]) -> Vec<ChampionEntry> {
    names.iter().map(|s| ChampionEntry::new(s)).collect()
}

/// A snapshot with the availability tables loaded and everything allowed.
fn snapshot_with_all_available() -> Snapshot {
    let mut snap = Snapshot::default();
    snap.pickable = [AATROX, AHRI, AKALI].into_iter().collect();
    snap.bannable = [AATROX, AHRI, AKALI].into_iter().collect();
    for id in [AATROX, AHRI, AKALI] {
        snap.grid.insert(id, ChampionSelection::default());
    }
    snap
}

fn pick(list: &[ChampionEntry], snap: &Snapshot) -> Result<Choice, Exhausted> {
    choose_champion(Intent::Pick, list, snap, resolver, true, false)
}

// ── Availability fallback ──

#[test]
fn an_unlisted_ban_is_attempted_anyway() {
    let exhausted = Exhausted {
        passed_over: vec![PassedOver {
            name: "K'Sante".into(),
            reason: Skipped::Unavailable,
        }],
    };
    let choice = ignoring_availability(&list(&["K'Sante"]), &exhausted, |_: &str| Some(897)).unwrap();
    assert_eq!(choice.champion_id, 897);
    assert!(choice.passed_over.is_empty());
}

/// A champion that is banned, taken or hovered was rejected on evidence, not
/// on a table that may be wrong. Retrying it would be pure noise.
#[test]
fn a_real_reason_is_never_second_guessed() {
    for reason in [Skipped::Banned, Skipped::Taken, Skipped::AllyHovering] {
        let exhausted = Exhausted {
            passed_over: vec![
                PassedOver {
                    name: "Aatrox".into(),
                    reason: Skipped::Unavailable,
                },
                PassedOver {
                    name: "Ahri".into(),
                    reason,
                },
            ],
        };
        assert!(
            ignoring_availability(&list(&["Aatrox", "Ahri"]), &exhausted, resolver).is_none(),
            "{:?} must not be retried",
            reason
        );
    }
}

#[test]
fn an_empty_list_has_nothing_to_retry() {
    let exhausted = Exhausted {
        passed_over: Vec::new(),
    };
    assert!(ignoring_availability(&list(&[]), &exhausted, resolver).is_none());
}

/// Bravery is not a champion and is never a ban, so it must not be what the
/// fallback reaches for.
#[test]
fn the_fallback_skips_a_bravery_entry() {
    let exhausted = Exhausted {
        passed_over: vec![
            PassedOver {
                name: "Bravery".into(),
                reason: Skipped::Unavailable,
            },
            PassedOver {
                name: "Aatrox".into(),
                reason: Skipped::Unavailable,
            },
        ],
    };
    let choice =
        ignoring_availability(&list(&["Bravery", "Aatrox"]), &exhausted, resolver).unwrap();
    assert_eq!(choice.name, "Aatrox");
}

// ── Bravery ──

fn arena_pick(list: &[ChampionEntry], snap: &Snapshot) -> Result<Choice, Exhausted> {
    choose_champion(Intent::Pick, list, snap, resolver, true, true)
}

#[test]
fn bravery_wins_when_it_is_first_in_an_arena_pick() {
    let snap = Snapshot::default();
    let choice = arena_pick(&list(&["Bravery", "Aatrox"]), &snap).unwrap();
    assert_eq!(choice.champion_id, BRAVERY_ID);
    assert_eq!(choice.name, "Bravery");
    assert!(choice.passed_over.is_empty());
}

/// Outside Arena the entry is simply not available, and the list carries on
/// to the next champion rather than stalling on it.
#[test]
fn bravery_is_skipped_outside_arena() {
    let snap = Snapshot::default();
    let choice = pick(&list(&["Bravery", "Aatrox"]), &snap).unwrap();
    assert_eq!(choice.name, "Aatrox");
    assert_eq!(choice.passed_over.len(), 1);
    assert_eq!(choice.passed_over[0].reason, Skipped::Unavailable);
}

/// There is no such thing as banning Bravery.
#[test]
fn bravery_is_never_a_ban() {
    let snap = Snapshot::default();
    let choice = choose_champion(
        Intent::Ban,
        &list(&["Bravery", "Aatrox"]),
        &snap,
        resolver,
        true,
        true,
    )
    .unwrap();
    assert_eq!(choice.name, "Aatrox");
}

/// A spent one-shot Bravery is skipped like any other spent entry - that is
/// the whole point of it living in the list.
#[test]
fn a_spent_one_shot_bravery_is_skipped() {
    let snap = Snapshot::default();
    let entries = vec![
        ChampionEntry {
            name: "Bravery".into(),
            once: true,
            disabled: true,
        },
        ChampionEntry::new("Aatrox"),
    ];
    let choice = arena_pick(&entries, &snap).unwrap();
    assert_eq!(choice.name, "Aatrox");
    assert_eq!(choice.passed_over[0].reason, Skipped::Disabled);
}

/// Bravery does not resolve through the champion table, so an empty roster
/// (the first seconds after launch) must not turn it into "not found".
#[test]
fn bravery_does_not_need_the_champion_table() {
    let snap = Snapshot::default();
    let choice = choose_champion(
        Intent::Pick,
        &list(&["Bravery"]),
        &snap,
        |_: &str| None,
        true,
        true,
    )
    .unwrap();
    assert_eq!(choice.champion_id, BRAVERY_ID);
}

#[test]
fn takes_the_first_available_champion() {
    let snap = snapshot_with_all_available();
    let choice = pick(&list(&["Aatrox", "Ahri"]), &snap).unwrap();
    assert_eq!(choice.champion_id, AATROX);
    assert!(choice.passed_over.is_empty());
}

#[test]
fn falls_through_to_the_backup_when_the_first_is_banned() {
    let mut snap = snapshot_with_all_available();
    snap.grid.insert(
        AATROX,
        ChampionSelection {
            is_banned: true,
            ..Default::default()
        },
    );

    let choice = pick(&list(&["Aatrox", "Ahri"]), &snap).unwrap();
    assert_eq!(choice.champion_id, AHRI);
    assert_eq!(choice.passed_over.len(), 1);
    assert_eq!(choice.passed_over[0].reason, Skipped::Banned);
    assert_eq!(choice.passed_over[0].name, "Aatrox");
}

#[test]
fn falls_through_when_an_enemy_already_locked_it() {
    let mut snap = snapshot_with_all_available();
    snap.grid.insert(
        AATROX,
        ChampionSelection {
            picked_by_other_or_banned: true,
            ..Default::default()
        },
    );

    let choice = pick(&list(&["Aatrox", "Ahri"]), &snap).unwrap();
    assert_eq!(choice.champion_id, AHRI);
    assert_eq!(choice.passed_over[0].reason, Skipped::Taken);
}

/// An ally hovering the pick: nothing has banned it, nothing has locked it,
/// and the request would just fail.
#[test]
fn skips_a_champion_an_ally_is_hovering() {
    let mut snap = snapshot_with_all_available();
    snap.grid.insert(
        AATROX,
        ChampionSelection {
            pick_intented: true,
            ..Default::default()
        },
    );

    let choice = pick(&list(&["Aatrox", "Ahri"]), &snap).unwrap();
    assert_eq!(choice.champion_id, AHRI);
    assert_eq!(choice.passed_over[0].reason, Skipped::AllyHovering);
}

#[test]
fn my_own_hover_is_not_a_conflict() {
    let mut snap = snapshot_with_all_available();
    snap.grid.insert(
        AATROX,
        ChampionSelection {
            pick_intented: true,
            pick_intented_by_me: true,
            ..Default::default()
        },
    );

    assert_eq!(pick(&list(&["Aatrox"]), &snap).unwrap().champion_id, AATROX);
}

#[test]
fn ally_hovers_can_be_allowed_by_setting() {
    let mut snap = snapshot_with_all_available();
    snap.grid.insert(
        AATROX,
        ChampionSelection {
            pick_intented: true,
            ..Default::default()
        },
    );

    let choice =
        choose_champion(Intent::Pick, &list(&["Aatrox"]), &snap, resolver, false, false).unwrap();
    assert_eq!(choice.champion_id, AATROX);
}

#[test]
fn skips_a_champion_the_client_will_not_allow() {
    let mut snap = snapshot_with_all_available();
    // Not owned, not in rotation, or restricted in this queue.
    snap.pickable.remove(&AATROX);

    let choice = pick(&list(&["Aatrox", "Ahri"]), &snap).unwrap();
    assert_eq!(choice.champion_id, AHRI);
    assert_eq!(choice.passed_over[0].reason, Skipped::Unavailable);
}

/// Empty means "not loaded yet". Filtering on it would reject the whole
/// roster and turn a slow client into a silent no-pick.
#[test]
fn an_unloaded_pickable_set_does_not_filter_anything() {
    let mut snap = snapshot_with_all_available();
    snap.pickable.clear();
    assert_eq!(pick(&list(&["Aatrox"]), &snap).unwrap().champion_id, AATROX);
}

#[test]
fn an_unresolvable_name_is_skipped_not_fatal() {
    let snap = snapshot_with_all_available();
    let choice = pick(&list(&["Notachampion", "Ahri"]), &snap).unwrap();
    assert_eq!(choice.champion_id, AHRI);
    assert_eq!(choice.passed_over[0].reason, Skipped::Unknown);
}

#[test]
fn an_exhausted_list_reports_every_reason() {
    let mut snap = snapshot_with_all_available();
    snap.grid.insert(
        AATROX,
        ChampionSelection { is_banned: true, ..Default::default() },
    );
    snap.grid.insert(
        AHRI,
        ChampionSelection { picked_by_other_or_banned: true, ..Default::default() },
    );

    let err = pick(&list(&["Aatrox", "Ahri", "Notachampion"]), &snap).unwrap_err();
    assert_eq!(err.passed_over.len(), 3);
    assert_eq!(err.passed_over[0].reason, Skipped::Banned);
    assert_eq!(err.passed_over[1].reason, Skipped::Taken);
    assert_eq!(err.passed_over[2].reason, Skipped::Unknown);
}

#[test]
fn an_empty_list_is_exhausted_immediately() {
    let snap = snapshot_with_all_available();
    assert!(pick(&[], &snap).unwrap_err().passed_over.is_empty());
}

#[test]
fn bans_use_the_bannable_set_not_the_pickable_one() {
    let mut snap = snapshot_with_all_available();
    // An unowned champion can still be banned.
    snap.pickable.remove(&AATROX);

    let choice =
        choose_champion(Intent::Ban, &list(&["Aatrox"]), &snap, resolver, true, false).unwrap();
    assert_eq!(choice.champion_id, AATROX);
}

#[test]
fn a_ban_skips_an_already_banned_champion() {
    let mut snap = snapshot_with_all_available();
    snap.grid.insert(
        AATROX,
        ChampionSelection { is_banned: true, ..Default::default() },
    );

    let choice =
        choose_champion(Intent::Ban, &list(&["Aatrox", "Ahri"]), &snap, resolver, true, false)
            .unwrap();
    assert_eq!(choice.champion_id, AHRI);
}

/// For bans, avoiding an ally's hover is the client's rule: the
/// `avoid_ally_hover` setting must not override it either way.
#[test]
fn a_ban_respects_the_clients_teammate_hover_rule() {
    let mut snap = snapshot_with_all_available();
    snap.champ_select = Some(ChampSelect {
        disallow_banning_teammate_hovered_champions: true,
        ..Default::default()
    });
    snap.grid.insert(
        AATROX,
        ChampionSelection { pick_intented: true, ..Default::default() },
    );

    // Even with the preference off, the client's rule still applies.
    let choice =
        choose_champion(Intent::Ban, &list(&["Aatrox", "Ahri"]), &snap, resolver, false, false)
            .unwrap();
    assert_eq!(choice.champion_id, AHRI);
    assert_eq!(choice.passed_over[0].reason, Skipped::AllyHovering);
}

#[test]
fn a_ban_allows_a_teammate_hover_when_the_client_does() {
    let mut snap = snapshot_with_all_available();
    snap.grid.insert(
        AATROX,
        ChampionSelection { pick_intented: true, ..Default::default() },
    );
    // disallowBanningTeammateHoveredChampions defaults false.
    let choice =
        choose_champion(Intent::Ban, &list(&["Aatrox"]), &snap, resolver, true, false).unwrap();
    assert_eq!(choice.champion_id, AATROX);
}

fn player(cell_id: i64) -> PlayerSelection {
    PlayerSelection { cell_id, ..Default::default() }
}

/// Before the grid arrives, the session's own bans and locks still have to
/// be honoured — otherwise the first pick of every draft ignores them.
#[test]
fn without_a_grid_the_session_is_the_fallback() {
    let mut snap = Snapshot::default();
    snap.champ_select = Some(ChampSelect {
        local_player_cell_id: 0,
        my_team: vec![
            player(0),
            PlayerSelection { champion_id: AHRI, champion_pick_intent: 0, ..player(1) },
        ],
        bans: Bans {
            my_team_bans: vec![AATROX],
            their_team_bans: vec![],
            ..Default::default()
        },
        ..Default::default()
    });

    let choice = pick(&list(&["Aatrox", "Ahri", "Akali"]), &snap).unwrap();
    assert_eq!(choice.champion_id, AKALI);
    assert_eq!(choice.passed_over[0].reason, Skipped::Banned);
    assert_eq!(choice.passed_over[1].reason, Skipped::Taken);
}

#[test]
fn without_a_grid_ally_hovers_still_count() {
    let mut snap = Snapshot::default();
    snap.champ_select = Some(ChampSelect {
        local_player_cell_id: 0,
        my_team: vec![
            player(0),
            PlayerSelection { champion_pick_intent: AATROX, ..player(1) },
        ],
        ..Default::default()
    });

    let choice = pick(&list(&["Aatrox", "Ahri"]), &snap).unwrap();
    assert_eq!(choice.champion_id, AHRI);
    assert_eq!(choice.passed_over[0].reason, Skipped::AllyHovering);
}

/// Where two players may run the same champion, an ally's lock is no hover.
#[test]
fn a_locked_ally_is_no_conflict_where_duplicates_are_allowed() {
    let with_ally = |champion_id: i32| Snapshot {
        champ_select: Some(ChampSelect {
            allow_duplicate_picks: true,
            local_player_cell_id: 0,
            my_team: vec![
                player(0),
                PlayerSelection { champion_id, champion_pick_intent: AATROX, ..player(1) },
            ],
            ..Default::default()
        }),
        ..Default::default()
    };
    let hovering = with_ally(0);
    assert_eq!(pick(&list(&["Aatrox", "Ahri"]), &hovering).unwrap().champion_id, AHRI);
    let locked = with_ally(AATROX);
    assert_eq!(pick(&list(&["Aatrox", "Ahri"]), &locked).unwrap().champion_id, AATROX);
}

/// ARAM and some rotating modes let both teams run the same champion.
#[test]
fn duplicate_picks_are_fine_when_the_mode_allows_them() {
    let mut snap = snapshot_with_all_available();
    snap.champ_select = Some(ChampSelect {
        allow_duplicate_picks: true,
        ..Default::default()
    });
    snap.grid.insert(
        AATROX,
        ChampionSelection { picked_by_other_or_banned: true, ..Default::default() },
    );

    assert_eq!(pick(&list(&["Aatrox"]), &snap).unwrap().champion_id, AATROX);
}

#[test]
fn the_log_line_names_every_skip_and_why() {
    let passed = vec![
        PassedOver { name: "Aatrox".into(), reason: Skipped::Banned },
        PassedOver { name: "Ahri".into(), reason: Skipped::AllyHovering },
    ];
    assert_eq!(
        describe(&passed),
        "Aatrox (banejat), Ahri (un aliat l'està hoverejant)"
    );
}

#[test]
fn what_follows_the_choice_does_not_matter() {
    let snap = snapshot_with_all_available();
    let short = pick(&list(&["Notachampion", "Ahri"]), &snap).unwrap();
    let long = pick(&list(&["Notachampion", "Ahri", "Aatrox", "Akali"]), &snap).unwrap();
    assert_eq!(short.champion_id, long.champion_id);
    assert_eq!(describe(&short.passed_over), describe(&long.passed_over));
    assert_eq!(describe(&[]), "");
}

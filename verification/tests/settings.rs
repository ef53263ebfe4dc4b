use instalock::settings::{
    effective_list, is_bravery, is_default_role, lane_of, migrate, push_recent, same_champion,
    spend_one_shots, ChampionEntry, Lane, ModeLists, RoleLists, Settings, DEFAULT_MODE,
    GLOBAL_MODE, MAX_RECENTS,
};
use instalock::update::{save_overlay_position, update_settings};

fn entries(names: &[&str]) -> Vec<ChampionEntry> {
    names.iter().map(|n| ChampionEntry::new(n)).collect()
}

fn names(list: &[ChampionEntry]) -> Vec<&str> {
    list.iter().map(|e| e.name.as_str()).collect()
}

fn once(name: &str) -> ChampionEntry {
    ChampionEntry { name: name.into(), once: true, disabled: false }
}

fn lists() -> RoleLists {
    RoleLists {
        default: entries(&["Garen", "Kai'Sa"]),
        middle: entries(&["Ahri"]),
        ..Default::default()
    }
}

/// A role's own entries first, then the Defecte list beneath them.
#[test]
fn a_role_list_is_extended_by_default_not_replaced_by_it() {
    assert_eq!(names(&lists().for_role("middle")), ["Ahri", "Garen", "Kai'Sa"]);
}

/// Adding one champion to Mid must not drop a general fallback.
#[test]
fn adding_to_a_role_does_not_drop_the_general_list() {
    let mut lists = lists();
    lists.middle.push(ChampionEntry::new("Akali"));
    assert_eq!(
        names(&lists.for_role("middle")),
        ["Ahri", "Akali", "Garen", "Kai'Sa"]
    );
}

#[test]
fn a_role_with_no_list_of_its_own_is_just_the_default_list() {
    assert_eq!(names(&lists().for_role("top")), ["Garen", "Kai'Sa"]);
}

#[test]
fn the_default_role_is_not_concatenated_with_itself() {
    assert_eq!(names(&lists().for_role("")), ["Garen", "Kai'Sa"]);
    assert_eq!(names(&lists().for_role("default")), ["Garen", "Kai'Sa"]);
}

/// A champion in both keeps the role's own copy - and its position, and its
/// once/disabled flags - rather than appearing twice.
#[test]
fn a_champion_in_both_lists_appears_once_with_the_roles_settings() {
    let lists = RoleLists {
        default: vec![ChampionEntry::new("Ahri"), ChampionEntry::new("Garen")],
        middle: vec![once("Ahri")],
        ..Default::default()
    };
    let resolved = lists.for_role("middle");
    assert_eq!(names(&resolved), ["Ahri", "Garen"]);
    assert!(resolved[0].once, "the role's own entry wins");
}

/// Two spellings of one champion don't make the second unreachable.
#[test]
fn dedup_ignores_spelling() {
    let lists = RoleLists {
        default: entries(&["kaisa"]),
        middle: entries(&["Kai'Sa"]),
        ..Default::default()
    };
    assert_eq!(names(&lists.for_role("middle")), ["Kai'Sa"]);
}

#[test]
fn lane_names_from_either_api_resolve_the_same() {
    assert_eq!(names(&lists().for_role("MIDDLE")), names(&lists().for_role("mid")));
    assert!(!is_default_role("utility"));
    assert!(!is_default_role("SUPPORT"));
    // ARAM and blind pick report no position at all.
    assert!(is_default_role(""));
    assert!(is_default_role("default"));
}

/// The full stack: global bucket + mode bucket, each with its own role and
/// default lists.
#[test]
fn the_effective_list_stacks_globals_then_mode_then_defaults() {
    let lists = ModeLists::from(vec![
        (
            GLOBAL_MODE.to_string(),
            RoleLists {
                default: entries(&["K'Sante"]),
                ..Default::default()
            },
        ),
        (
            "CLASSIC".to_string(),
            RoleLists {
                default: entries(&["Garen"]),
                middle: entries(&["Ahri"]),
                ..Default::default()
            },
        ),
    ]);

    assert_eq!(
        names(&effective_list(&lists, "CLASSIC", "middle")),
        ["K'Sante", "Ahri", "Garen"]
    );
    assert_eq!(
        names(&effective_list(&lists, "CLASSIC", "top")),
        ["K'Sante", "Garen"]
    );
}

// ── Per-mode memory ──

fn mode_lists() -> ModeLists {
    ModeLists::from(vec![
        (
            GLOBAL_MODE.to_string(),
            RoleLists {
                default: entries(&["K'Sante"]),
                ..Default::default()
            },
        ),
        (
            "CHERRY".to_string(),
            RoleLists {
                default: entries(&["Zac"]),
                ..Default::default()
            },
        ),
        (
            "CLASSIC".to_string(),
            RoleLists {
                default: entries(&["Garen"]),
                middle: entries(&["Ahri"]),
                ..Default::default()
            },
        ),
    ])
}

/// A Zac added in Arena must not turn up in SoloQ.
#[test]
fn a_champion_added_in_arena_stays_in_arena() {
    let lists = mode_lists();
    assert!(names(&effective_list(&lists, "CHERRY", "")).contains(&"Zac"));
    assert!(!names(&effective_list(&lists, "CLASSIC", "")).contains(&"Zac"));
}

/// Global entries lead, because "always ban K'Sante" is a priority, not a
/// fallback.
#[test]
fn global_entries_apply_in_every_mode_and_come_first() {
    let lists = mode_lists();
    assert_eq!(names(&effective_list(&lists, "CHERRY", "")), ["K'Sante", "Zac"]);
    assert_eq!(names(&effective_list(&lists, "CLASSIC", "")), ["K'Sante", "Garen"]);
    assert_eq!(names(&effective_list(&lists, "ARAM", "")), ["K'Sante"]);
}

#[test]
fn per_mode_lists_still_resolve_per_role() {
    let lists = mode_lists();
    assert_eq!(
        names(&effective_list(&lists, "CLASSIC", "middle")),
        ["K'Sante", "Ahri", "Garen"]
    );
}

/// Asking for the global bucket itself must not double up its own entries.
#[test]
fn the_global_bucket_is_not_concatenated_with_itself() {
    assert_eq!(names(&effective_list(&mode_lists(), GLOBAL_MODE, "")), ["K'Sante"]);
}

#[test]
fn an_unknown_mode_still_gets_the_globals() {
    // A rotating mode nobody has configured yet.
    assert_eq!(names(&effective_list(&mode_lists(), "NEXUSBLITZ", "")), ["K'Sante"]);
}

// ── The mode key ──

#[test]
fn the_current_mode_decides_the_bucket() {
    let settings = Settings::default();
    assert_eq!(settings.mode_key(Some("CHERRY")), "CHERRY");
    assert_eq!(settings.mode_key(Some("ARAM")), "ARAM");
}

/// No lobby open means the user is configuring, and Summoner's Rift is the
/// resting state of the client.
#[test]
fn no_mode_falls_back_to_summoners_rift() {
    let settings = Settings::default();
    assert_eq!(settings.mode_key(None), DEFAULT_MODE);
    assert_eq!(settings.mode_key(Some("")), DEFAULT_MODE);
}

/// Turning per-mode memory off routes everything through the global bucket.
#[test]
fn per_mode_memory_can_be_switched_off() {
    let settings = Settings {
        per_mode_lists: false,
        ..Settings::default()
    };
    assert_eq!(settings.mode_key(Some("CHERRY")), GLOBAL_MODE);
    assert_eq!(settings.mode_key(None), GLOBAL_MODE);
}

#[test]
fn with_per_mode_off_arena_sees_the_one_shared_list() {
    let settings = Settings {
        per_mode_lists: false,
        ban_lists: mode_lists(),
        ..Settings::default()
    };
    // Only the globals: the CHERRY bucket is no longer consulted.
    assert_eq!(names(&settings.ban_list_for(Some("CHERRY"), "")), ["K'Sante"]);
}

#[test]
fn picks_and_bans_have_lists_of_their_own() {
    let settings = Settings {
        pick_lists: mode_lists(),
        ..Settings::default()
    };
    assert_eq!(
        names(&settings.pick_list_for(Some("CLASSIC"), "mid")),
        ["K'Sante", "Ahri", "Garen"]
    );
    assert_eq!(names(&settings.ban_list_for(Some("CHERRY"), "")), ["K'Sante"], "the default ban");
}

// ── One-shot entries ──

#[test]
fn a_one_shot_is_disabled_by_the_game_starting_not_removed() {
    let mut lists = ModeLists::from(vec![(
        "CLASSIC".to_string(),
        RoleLists {
            default: vec![
                ChampionEntry { name: "Ahri".into(), once: true, disabled: false },
                ChampionEntry::new("Garen"),
            ],
            ..Default::default()
        },
    )]);

    assert_eq!(spend_one_shots(&mut lists), 1);

    let after = &lists.get("CLASSIC").unwrap().default;
    assert_eq!(after.len(), 2, "the entry keeps its place in the order");
    assert_eq!(after[0].name, "Ahri");
    assert!(after[0].disabled, "spent, so no longer a candidate");
    assert!(after[0].once, "still flagged one-shot, so re-arming is one click");
    assert!(!after[1].disabled, "a permanent entry is untouched");
}

#[test]
fn spending_one_shots_is_idempotent() {
    let mut lists = ModeLists::from(vec![(
        "CLASSIC".to_string(),
        RoleLists {
            default: vec![once("Ahri")],
            ..Default::default()
        },
    )]);
    assert_eq!(spend_one_shots(&mut lists), 1);
    assert_eq!(spend_one_shots(&mut lists), 0, "already spent");
}

#[test]
fn one_shots_are_spent_across_every_mode_and_role() {
    let mut lists = ModeLists::from(vec![
        (
            GLOBAL_MODE.to_string(),
            RoleLists {
                middle: vec![once("Ahri")],
                ..Default::default()
            },
        ),
        (
            "CHERRY".to_string(),
            RoleLists {
                default: vec![once("Zac")],
                ..Default::default()
            },
        ),
    ]);
    assert_eq!(spend_one_shots(&mut lists), 2);
}

#[test]
fn an_entry_with_a_blank_name_is_never_a_candidate() {
    assert!(!ChampionEntry::new("   ").is_active());
    assert!(ChampionEntry::new("Ahri").is_active());
    assert!(!ChampionEntry { name: "Ahri".into(), once: false, disabled: true }.is_active());
}

#[test]
fn blank_goes_by_unicode() {
    assert!(!ChampionEntry::new("\u{2003}\u{a0}\t").is_active());
    assert!(ChampionEntry::new("\u{200b}").is_active());
}

// ── Recently used champions ──

#[test]
fn the_newest_champion_leads() {
    let mut recents = vec!["Garen".to_string()];
    push_recent(&mut recents, "Ahri");
    assert_eq!(recents, ["Ahri", "Garen"]);
}

/// Picking the same champion twice must move it to the front, not add a
/// second chip for it.
#[test]
fn a_repeat_moves_to_the_front_rather_than_duplicating() {
    let mut recents = vec!["Ahri".to_string(), "Garen".to_string()];
    push_recent(&mut recents, "Garen");
    assert_eq!(recents, ["Garen", "Ahri"]);
}

#[test]
fn matching_ignores_case() {
    let mut recents = vec!["Ahri".to_string()];
    push_recent(&mut recents, "ahri");
    assert_eq!(recents.len(), 1);
}

#[test]
fn the_list_is_capped() {
    let mut recents = Vec::new();
    for i in 0..20 {
        push_recent(&mut recents, &format!("Champ{}", i));
    }
    assert_eq!(recents.len(), MAX_RECENTS);
    assert_eq!(recents[0], "Champ19", "newest first");
}

// ── Names ──

#[test]
fn lanes_have_several_names() {
    assert_eq!(lane_of("Support"), Some(Lane::Utility));
    assert_eq!(lane_of("adc"), Some(Lane::Bottom));
    assert_eq!(lane_of("TOP"), Some(Lane::Top));
    assert_eq!(lane_of("jungle"), Some(Lane::Jungle));
    assert_eq!(lane_of("fill"), None);
}

#[test]
fn champions_are_the_same_however_they_are_spelt() {
    assert!(same_champion("Kai'Sa", "KAI SA"));
    assert!(!same_champion("Karma", "Karthus"));
    assert!(is_bravery("bravery"));
    assert!(!is_bravery("Brave"));
}

// ── Carrying older settings over ──

#[test]
fn single_champions_become_lists() {
    let mut settings = Settings {
        pick_champion: "Ahri".into(),
        ban_champion: "Zac".into(),
        ban_lists: ModeLists::default(),
        ..Settings::default()
    };
    assert!(migrate(&mut settings));
    assert_eq!(names(&settings.pick_list_for(Some("CLASSIC"), "")), ["Ahri"]);
    assert_eq!(names(&settings.ban_list_for(Some("ARAM"), "")), ["Zac"]);
    assert!(!migrate(&mut settings), "nothing is left to carry over");
}

#[test]
fn a_list_that_is_there_is_not_seeded() {
    let mut settings = Settings { ban_champion: "Zac".into(), ..Settings::default() };
    assert!(!migrate(&mut settings));
    assert_eq!(names(&settings.ban_list_for(None, "")), ["K'Sante"]);
}

#[test]
fn without_per_mode_lists_bravery_becomes_a_global_entry() {
    let mut settings = Settings {
        bravery_enabled: true,
        per_mode_lists: false,
        ..Settings::default()
    };
    assert!(migrate(&mut settings));
    assert_eq!(names(&settings.pick_list_for(Some("CHERRY"), "")), ["Bravery"]);
}

#[test]
fn the_bravery_switch_becomes_the_first_arena_entry() {
    let mut settings = Settings {
        bravery_enabled: true,
        pick_lists: mode_lists(),
        ..Settings::default()
    };
    assert!(migrate(&mut settings));
    assert!(!settings.bravery_enabled);
    assert_eq!(
        names(&settings.pick_lists.get("CHERRY").unwrap().default),
        ["Bravery", "Zac"]
    );
    assert!(!migrate(&mut settings));
}

// ── New settings ──

#[test]
fn saving_settings_keeps_the_overlay_where_it_is() {
    let mut current = Settings::default();
    save_overlay_position(&mut current, 12, -7);
    let changes = update_settings(&mut current, Settings::default());
    assert_eq!((current.overlay_x, current.overlay_y), (Some(12), Some(-7)));
    assert!(changes.overlay.is_none() && changes.opacity.is_none());
    assert!(changes.theme.is_none() && changes.pinned.is_none() && !changes.auto_queue);
}

#[test]
fn every_visible_change_is_reported() {
    let mut current = Settings::default();
    let new = Settings {
        overlay_enabled: !current.overlay_enabled,
        theme: "other".into(),
        always_on_top: !current.always_on_top,
        overlay_opacity: current.overlay_opacity + 1,
        auto_queue_trigger: "ready".into(),
        ..Settings::default()
    };
    let shown = new.overlay_enabled;
    let opacity = new.overlay_opacity;
    let pinned = new.always_on_top;
    let changes = update_settings(&mut current, new);
    assert_eq!(changes.overlay, Some(shown));
    assert_eq!(changes.opacity, Some(opacity));
    assert_eq!(changes.theme.as_deref(), Some("other"));
    assert_eq!(changes.pinned, Some(pinned));
    assert!(changes.auto_queue);
}

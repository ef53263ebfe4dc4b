use instalock::json::Json;
use instalock::overlay::{
    extract_enemies, has_rune, icon_address, order_of_upper, role_order, update_from_live_client,
    EnemyData, OverlayState, SpellRegistry,
};
use instalock::spells::{spell_by_id, spell_cooldown, spells};
use std::collections::HashMap;

fn object(members: &[(&str, Json)]) -> Json {
    Json::Object(
        members
            .iter()
            .map(|(key, value)| (key.to_string(), copy(value)))
            .collect(),
    )
}

fn copy(json: &Json) -> Json {
    match json {
        Json::Null => Json::Null,
        Json::Bool(b) => Json::Bool(*b),
        Json::Number(n) => Json::from_i64(n.signed.unwrap()),
        Json::Str(s) => Json::Str(s.clone()),
        Json::Array(items) => Json::Array(items.iter().map(copy).collect()),
        Json::Object(members) => Json::Object(
            members
                .iter()
                .map(|(key, value)| (key.clone(), copy(value)))
                .collect(),
        ),
    }
}

fn string(s: &str) -> Json {
    Json::Str(s.to_string())
}

fn number(n: i64) -> Json {
    Json::from_i64(n)
}

fn array(items: Vec<Json>) -> Json {
    Json::Array(items)
}

/// Champ select and the Live Client Data API spell positions differently, and
/// both feed this.
#[test]
fn roles_sort_top_to_support() {
    let mut roles = ["UTILITY", "TOP", "BOTTOM", "JUNGLE", "MIDDLE"];
    roles.sort_by_key(|r| role_order(r));
    assert_eq!(roles, ["TOP", "JUNGLE", "MIDDLE", "BOTTOM", "UTILITY"]);
}

#[test]
fn the_two_apis_spellings_agree() {
    assert_eq!(role_order("MIDDLE"), role_order("MID"));
    assert_eq!(role_order("BOTTOM"), role_order("ADC"));
    assert_eq!(role_order("UTILITY"), role_order("SUPPORT"));
    // The session's positions are lowercase.
    assert_eq!(role_order("jungle"), role_order("JUNGLE"));
}

/// ARAM and blind pick report no position; those sort last.
#[test]
fn an_unknown_role_sorts_last() {
    assert!(role_order("") > role_order("UTILITY"));
    assert!(role_order("NONE") > role_order("UTILITY"));
}

fn drafted(id: i64, spell1: i64, spell2: i64, position: &str) -> Json {
    object(&[
        ("championId", number(id)),
        ("spell1Id", number(spell1)),
        ("spell2Id", number(spell2)),
        ("assignedPosition", string(position)),
    ])
}

#[test]
fn enemies_without_a_champion_are_skipped() {
    let session = object(&[(
        "theirTeam",
        array(vec![
            drafted(0, 4, 14, "top"),
            drafted(64, 4, 11, "jungle"),
            drafted(-1, 4, 3, "utility"),
        ]),
    )]);
    let mut names = HashMap::new();
    names.insert(64, "Lee Sin".to_string());

    let enemies = extract_enemies(&session, &names, &SpellRegistry::fallback());
    assert_eq!(enemies.len(), 1);
    assert_eq!(enemies[0].champion_name, "Lee Sin");
    assert_eq!(enemies[0].spell2_name, "Smite");
}

#[test]
fn enemies_come_back_in_role_order() {
    let player = |id: i64, position: &str| {
        object(&[("championId", number(id)), ("assignedPosition", string(position))])
    };
    let session = object(&[(
        "theirTeam",
        array(vec![player(1, "utility"), player(2, "top"), player(3, "middle")]),
    )]);
    let enemies = extract_enemies(&session, &HashMap::new(), &SpellRegistry::fallback());
    let ids: Vec<i32> = enemies.iter().map(|e| e.champion_id).collect();
    assert_eq!(ids, vec![2, 3, 1]);
    assert_eq!(enemies[0].champion_name, "Champion 2");
    assert_eq!(enemies[0].spell1_name, "Unknown");
}

/// A session with no enemy team at all must be empty, not a panic.
#[test]
fn a_session_without_an_enemy_team_is_empty() {
    let enemies = extract_enemies(
        &object(&[]),
        &HashMap::new(),
        &SpellRegistry::fallback(),
    );
    assert!(enemies.is_empty());
}

#[test]
fn cosmic_insight_takes_eighteen_seconds_off() {
    let spells = SpellRegistry::fallback();
    // Flash: 300s base.
    assert_eq!(spells.spell_cooldown(4, false), 300);
    assert_eq!(spells.spell_cooldown(4, true), 282);
    // An unknown spell falls back to 300 rather than 0, which would render
    // as a permanently-ready icon.
    assert_eq!(spells.spell_cooldown(9999, false), 300);
}

#[test]
fn the_built_in_spells_are_known_by_id() {
    assert_eq!(spells().len(), 10);
    let smite = spell_by_id(11).unwrap();
    assert_eq!((smite.name, smite.base_cooldown, smite.icon_key), ("Smite", 90, "summoner_smite"));
    assert!(spell_by_id(2).is_none());
    assert_eq!(spell_cooldown(12, true), 342);
    assert_eq!(spell_cooldown(9999, true), 282);
}

#[test]
fn published_spells_replace_the_fallback() {
    let rows = vec![
        object(&[
            ("id", number(21)),
            ("name", string("Barrier")),
            ("cooldown", number(170)),
            ("iconPath", string("/lol-game-data/assets/DATA/Spells/Icons2D/SummonerBarrier.png")),
        ]),
        object(&[("name", string("without an id"))]),
        object(&[("id", number(5))]),
    ];
    let registry = SpellRegistry::from_rows(&rows).unwrap();
    let barrier = registry.get(21).unwrap();
    assert_eq!(barrier.cooldown, 170);
    assert_eq!(
        barrier.icon_url,
        "https://raw.communitydragon.org/latest/plugins/rcp-be-lol-game-data/global/default/data/spells/icons2d/summonerbarrier.png"
    );
    let bare = registry.get(5).unwrap();
    assert_eq!((bare.name.as_str(), bare.icon_url.as_str(), bare.cooldown), ("Unknown", "", 300));
    assert!(registry.get(4).is_none());
    assert!(SpellRegistry::from_rows(&vec![object(&[])]).is_none());
    assert!(icon_address("a.png").ends_with("/default/a.png"));
}

#[test]
fn display_names_find_their_spell() {
    let spells = SpellRegistry::fallback();
    assert_eq!(spells.id_from_display_name("FLASH"), 4);
    assert_eq!(spells.id_from_display_name("Hexflash"), 4);
    assert_eq!(spells.id_from_display_name("Unleashed Teleport"), 12);
    assert_eq!(spells.id_from_display_name("Smite"), 11);
    assert_eq!(spells.id_from_display_name("Challenging Smite"), 11);
    assert_eq!(spells.id_from_display_name("Something"), 0);
    assert_eq!(spells.id_from_lowered("ignite"), 14);
    assert_eq!(order_of_upper("SUP"), 4);
}

#[test]
fn of_two_spells_of_one_name_the_smaller_id_is_taken() {
    let rows = vec![
        object(&[("id", number(2203)), ("name", string("Dash"))]),
        object(&[("id", number(2202)), ("name", string("Dash"))]),
    ];
    let registry = SpellRegistry::from_rows(&rows).unwrap();
    assert_eq!(registry.id_from_display_name("dash"), 2202);
    assert_eq!(registry.id_from_display_name("double dash"), 2202);
}

// ── The running game ──

fn player(name: &str, champion: &str, team: &str, position: &str, spells: (&str, &str), runes: Json) -> Json {
    object(&[
        ("riotIdGameName", string(name)),
        ("championName", string(champion)),
        ("team", string(team)),
        ("position", string(position)),
        (
            "summonerSpells",
            object(&[
                ("summonerSpellOne", object(&[("displayName", string(spells.0))])),
                ("summonerSpellTwo", object(&[("displayName", string(spells.1))])),
            ]),
        ),
        ("runes", runes),
    ])
}

fn keystone(id: i64) -> Json {
    object(&[("keystone", object(&[("id", number(id))]))])
}

fn general(id: i64) -> Json {
    object(&[("generalRunes", array(vec![object(&[]), object(&[("id", number(id))])]))])
}

fn game() -> Json {
    object(&[
        ("activePlayer", object(&[("riotIdGameName", string("me"))])),
        (
            "allPlayers",
            array(vec![
                player("them", "Thresh", "ORDER", "UTILITY", ("Flash", "Ignite"), general(8347)),
                player("me", "Ahri", "CHAOS", "MIDDLE", ("Flash", "Ignite"), Json::Null),
                player("other", "Garen", "ORDER", "TOP", ("Flash", ""), keystone(8360)),
            ]),
        ),
    ])
}

#[test]
fn a_game_without_a_draft_fills_the_overlay() {
    let mut enemies: Vec<EnemyData> = Vec::new();
    assert!(update_from_live_client(&mut enemies, &game(), &SpellRegistry::fallback()));
    let names: Vec<&str> = enemies.iter().map(|e| e.champion_name.as_str()).collect();
    assert_eq!(names, ["Garen", "Thresh"]);
    assert!(enemies[0].has_unsealed_spellbook && !enemies[0].has_cosmic_insight);
    assert_eq!((enemies[0].spell2_id, enemies[0].spell2_name.as_str()), (0, ""));
    assert!(enemies[1].has_cosmic_insight);
    assert_eq!((enemies[1].spell1_id, enemies[1].spell1_cooldown), (4, 282));
}

#[test]
fn a_drafted_enemy_is_refreshed_from_the_game() {
    let session = object(&[(
        "theirTeam",
        array(vec![drafted(412, 0, 0, ""), drafted(86, 4, 14, "")]),
    )]);
    let mut names = HashMap::new();
    names.insert(412, "Thresh".to_string());
    names.insert(86, "Garen".to_string());
    let spells = SpellRegistry::fallback();
    let mut enemies = extract_enemies(&session, &names, &spells);
    assert!(update_from_live_client(&mut enemies, &game(), &spells));
    assert_eq!(enemies[0].champion_name, "Garen");
    assert_eq!(enemies[1].champion_id, 412);
    assert_eq!((enemies[1].spell2_id, enemies[1].spell2_cooldown), (14, 162));
    // A spell shown without a name is no spell that is known.
    assert_eq!(enemies[0].spell2_id, 0);
}

#[test]
fn a_game_that_says_nothing_yet_changes_nothing() {
    let spells = SpellRegistry::fallback();
    let mut enemies: Vec<EnemyData> = Vec::new();
    assert!(!update_from_live_client(&mut enemies, &object(&[]), &spells));
    let alone = object(&[(
        "allPlayers",
        array(vec![player("me", "Ahri", "ORDER", "", ("", ""), Json::Null)]),
    )]);
    assert!(!update_from_live_client(&mut enemies, &alone, &spells));
    assert!(enemies.is_empty());
    assert!(!has_rune(&object(&[]), 8347));
}

#[test]
fn the_overlay_starts_with_the_fallback() {
    let state = OverlayState::new();
    assert!(state.enemies.is_empty() && state.game_id.is_none());
    assert_eq!(state.spells.spell_name(4), "Flash");
    assert_eq!(state.spells.spell_icon(4), "");
}

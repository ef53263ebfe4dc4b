use instalock::champions::{normalize, strip_marks, ChampionRow, Champions};

fn row(id: i32, name: &str, alias: Option<&str>) -> ChampionRow {
    ChampionRow {
        id,
        name: name.to_string(),
        alias: alias.map(|a| a.to_string()),
    }
}

fn table(entries: &[(i32, &str, Option<&str>)]) -> Champions {
    let rows: Vec<ChampionRow> = entries.iter().map(|(id, name, alias)| row(*id, name, *alias)).collect();
    let mut champs = Champions::new();
    champs.fill(&rows);
    champs
}

/// The user interface has to agree on exactly these cases.
#[test]
fn normalize_matches_the_frontend() {
    assert_eq!(normalize("Kai'Sa"), "kaisa");
    assert_eq!(normalize("Lee Sin"), "leesin");
    assert_eq!(normalize("Dr. Mundo"), "drmundo");
    assert_eq!(normalize("Nunu & Willump"), "nunuandwillump");
    assert_eq!(normalize("K'Sante"), "ksante");
    assert_eq!(normalize("Rek'Sai"), "reksai");
    assert_eq!(normalize(""), "");
}

#[test]
fn resolves_an_exact_name_however_it_is_typed() {
    let champs = table(&[(145, "Kai'Sa", Some("Kaisa"))]);
    for spelling in ["Kai'Sa", "kaisa", "KAI SA", "kai'sa"] {
        assert_eq!(champs.resolve_id(spelling), Some(145), "{}", spelling);
    }
}

#[test]
fn resolves_an_unambiguous_prefix() {
    let champs = table(&[(43, "Karma", None), (30, "Karthus", None)]);
    assert_eq!(champs.resolve_id("Kart"), Some(30));
}

/// A prefix of two champions is refused rather than guessed at.
#[test]
fn refuses_an_ambiguous_prefix_instead_of_guessing() {
    let champs = table(&[(43, "Karma", None), (30, "Karthus", None)]);
    assert_eq!(champs.resolve_id("Kar"), None);
}

/// An alias and a display name for the same champion are two keys, not two
/// candidates.
#[test]
fn an_alias_is_not_an_ambiguity() {
    let champs = table(&[(62, "Wukong", Some("MonkeyKing"))]);
    assert_eq!(champs.resolve_id("Wuk"), Some(62));
}

#[test]
fn empty_and_unknown_resolve_to_nothing() {
    let champs = table(&[(43, "Karma", None)]);
    assert_eq!(champs.resolve_id(""), None);
    assert_eq!(champs.resolve_id("   "), None);
    assert_eq!(champs.resolve_id("Zyra"), None);
}

#[test]
fn names_and_entries_come_sorted_without_the_placeholder() {
    let champs = table(&[
        (84, "Akali", None),
        (-1, "None", None),
        (103, "Ahri", None),
        (266, "Aatrox", None),
    ]);
    assert_eq!(champs.get_names(), ["Aatrox", "Ahri", "Akali"]);
    let entries = champs.get_entries();
    let ids: Vec<i32> = entries.iter().map(|e| e.id).collect();
    assert_eq!(ids, [266, 103, 84]);
    assert_eq!(entries[1].name, "Ahri");
    assert_eq!(champs.get_id_to_name().get(&84).map(|s| s.as_str()), Some("Akali"));
    assert!(champs.is_loaded());
    assert!(!Champions::new().is_loaded());
}

#[test]
fn filling_again_replaces_the_table() {
    let mut champs = table(&[(43, "Karma", None)]);
    champs.fill(&vec![row(30, "Karthus", None)]);
    assert_eq!(champs.resolve_id("Karma"), None);
    assert_eq!(champs.resolve_id("Kar"), Some(30));
    assert_eq!(champs.get_names(), ["Karthus"]);
}

#[test]
fn lowercasing_reaches_beyond_ascii() {
    assert_eq!(normalize("ÀÉ Ñ."), "àéñ");
    assert_eq!(strip_marks("a&b.c'd e"), "aandbcde");
}

#[test]
fn a_normalized_name_stays_as_it_is() {
    let once = normalize("Nunu & Willump");
    assert_eq!(normalize(&once), once);
    assert_eq!(Champions::new().resolve_normalized("x"), None);
}

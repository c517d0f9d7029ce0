use pager_theme::configmerge::{
    is_well_formed, merge_ask_user_question_section, merge_config_sections, merge_section,
    merge_toml_tables, remove_key, set_transparent_background, user_root_from_read, ConfigTable,
    ConfigValue, RootRead, RootReadError, SaveSections,
};

type V = ConfigValue<i64>;

fn table(entries: Vec<(&str, V)>) -> ConfigTable<i64> {
    ConfigTable { entries: entries.into_iter().map(|(k, v)| (k.to_string(), v)).collect() }
}

fn get<'a>(t: &'a ConfigTable<i64>, key: &str) -> Option<&'a V> {
    t.entries.iter().find(|(k, _)| k == key).map(|(_, v)| v)
}

fn as_table<'a>(v: Option<&'a V>) -> &'a ConfigTable<i64> {
    match v {
        Some(ConfigValue::Table(t)) => t,
        _ => panic!("expected a table"),
    }
}

fn as_int(v: Option<&V>) -> Option<i64> {
    match v {
        Some(ConfigValue::Other(i)) => Some(*i),
        _ => None,
    }
}

#[test]
fn deep_merge_keeps_unmodeled_fields() {
    let mut existing = table(vec![
        ("show_timestamps", ConfigValue::Boolean(true)),
        ("width", ConfigValue::Other(80)),
        ("nested", ConfigValue::Table(table(vec![("a", ConfigValue::Other(1)), ("b", ConfigValue::Other(2))]))),
    ]);
    let incoming = table(vec![
        ("width", ConfigValue::Other(100)),
        ("nested", ConfigValue::Table(table(vec![("b", ConfigValue::Other(20)), ("c", ConfigValue::Other(30))]))),
        ("theme", ConfigValue::Other(7)),
    ]);
    merge_toml_tables(&mut existing, incoming);
    assert!(matches!(get(&existing, "show_timestamps"), Some(ConfigValue::Boolean(true))));
    assert_eq!(as_int(get(&existing, "width")), Some(100));
    assert_eq!(as_int(get(&existing, "theme")), Some(7));
    let nested = as_table(get(&existing, "nested"));
    assert_eq!(as_int(get(nested, "a")), Some(1));
    assert_eq!(as_int(get(nested, "b")), Some(20));
    assert_eq!(as_int(get(nested, "c")), Some(30));
    assert_eq!(existing.entries.len(), 4);
}

#[test]
fn scalar_replaces_table_and_table_replaces_scalar() {
    let mut existing = table(vec![
        ("x", ConfigValue::Table(table(vec![("a", ConfigValue::Other(1))]))),
        ("y", ConfigValue::Other(5)),
    ]);
    let incoming = table(vec![
        ("x", ConfigValue::Other(9)),
        ("y", ConfigValue::Table(table(vec![("z", ConfigValue::Other(3))]))),
    ]);
    merge_toml_tables(&mut existing, incoming);
    assert_eq!(as_int(get(&existing, "x")), Some(9));
    assert_eq!(as_int(get(as_table(get(&existing, "y")), "z")), Some(3));
}

#[test]
fn merge_section_rules() {
    let mut root = table(vec![
        ("ui", ConfigValue::Table(table(vec![("auto_dark_theme", ConfigValue::Other(1))]))),
        ("cli", ConfigValue::Other(4)),
        ("models", ConfigValue::Table(table(vec![("m", ConfigValue::Other(2))]))),
    ]);
    // Non-empty table merges, keeping unmodeled keys.
    merge_section(&mut root, "ui", Some(ConfigValue::Table(table(vec![("theme", ConfigValue::Other(3))]))));
    let ui = as_table(get(&root, "ui"));
    assert_eq!(as_int(get(ui, "auto_dark_theme")), Some(1));
    assert_eq!(as_int(get(ui, "theme")), Some(3));
    // Empty table leaves the existing section untouched.
    merge_section(&mut root, "models", Some(ConfigValue::Table(table(vec![]))));
    assert_eq!(as_int(get(as_table(get(&root, "models")), "m")), Some(2));
    // A non-table existing section is replaced by the new table.
    merge_section(&mut root, "cli", Some(ConfigValue::Table(table(vec![("k", ConfigValue::Other(1))]))));
    assert_eq!(as_int(get(as_table(get(&root, "cli")), "k")), Some(1));
    // A missing section is created.
    merge_section(&mut root, "session", Some(ConfigValue::Table(table(vec![("s", ConfigValue::Other(6))]))));
    assert_eq!(as_int(get(as_table(get(&root, "session")), "s")), Some(6));
    // A non-table serialization or a failure removes the section.
    merge_section(&mut root, "models", Some(ConfigValue::Other(0)));
    assert!(get(&root, "models").is_none());
    merge_section(&mut root, "session", None);
    assert!(get(&root, "session").is_none());
    assert!(get(&root, "ui").is_some());
}

#[test]
fn transparency_patch_sets_only_its_field() {
    let mut root = table(vec![
        ("ui", ConfigValue::Table(table(vec![("theme", ConfigValue::Other(3))]))),
        ("cli", ConfigValue::Other(4)),
    ]);
    set_transparent_background(&mut root, false);
    let ui = as_table(get(&root, "ui"));
    assert!(matches!(get(ui, "transparent_background"), Some(ConfigValue::Boolean(false))));
    assert_eq!(as_int(get(ui, "theme")), Some(3));
    assert_eq!(as_int(get(&root, "cli")), Some(4));

    // A scalar `ui` is replaced by a table holding the field.
    let mut root = table(vec![("ui", ConfigValue::Other(1))]);
    set_transparent_background(&mut root, true);
    let ui = as_table(get(&root, "ui"));
    assert_eq!(ui.entries.len(), 1);
    assert!(matches!(get(ui, "transparent_background"), Some(ConfigValue::Boolean(true))));

    // A missing `ui` is created.
    let mut root = table(vec![]);
    set_transparent_background(&mut root, true);
    assert!(matches!(get(as_table(get(&root, "ui")), "transparent_background"), Some(ConfigValue::Boolean(true))));
}

#[test]
fn ask_user_question_section_only_when_set() {
    let mut root = table(vec![("toolset", ConfigValue::Other(1))]);
    merge_ask_user_question_section(&mut root, false, Some(ConfigValue::Table(table(vec![("t", ConfigValue::Other(1))]))));
    assert_eq!(as_int(get(&root, "toolset")), Some(1));
    merge_ask_user_question_section(&mut root, true, Some(ConfigValue::Table(table(vec![("timeout_secs", ConfigValue::Other(30))]))));
    let toolset = as_table(get(&root, "toolset"));
    assert_eq!(as_int(get(as_table(get(toolset, "ask_user_question")), "timeout_secs")), Some(30));
}

#[test]
fn save_sections_removes_default_privacy_and_skills() {
    let mut root = table(vec![
        ("privacy", ConfigValue::Table(table(vec![("p", ConfigValue::Other(1))]))),
        ("skills", ConfigValue::Table(table(vec![("s", ConfigValue::Other(1))]))),
        ("mcp_servers", ConfigValue::Other(42)),
    ]);
    let one = |k: &str, v: i64| Some(ConfigValue::Table(table(vec![(k, ConfigValue::Other(v))])));
    merge_config_sections(
        &mut root,
        SaveSections {
            cli: one("c", 1),
            models: one("m", 2),
            ui: one("u", 3),
            harness: Some(ConfigValue::Table(table(vec![]))),
            session: one("s", 5),
            ask_fields_present: false,
            ask_user_question: None,
            privacy_is_default: true,
            privacy: one("p", 9),
            skills_is_default: false,
            skills: one("t", 8),
        },
    );
    assert!(get(&root, "privacy").is_none());
    assert!(get(&root, "harness").is_none());
    assert!(get(&root, "toolset").is_none());
    assert_eq!(as_int(get(&root, "mcp_servers")), Some(42));
    let skills = as_table(get(&root, "skills"));
    assert_eq!(as_int(get(skills, "s")), Some(1));
    assert_eq!(as_int(get(skills, "t")), Some(8));
    assert_eq!(as_int(get(as_table(get(&root, "ui")), "u")), Some(3));
}

#[test]
fn read_root_rules() {
    let parsed = user_root_from_read(RootRead::Parsed(ConfigValue::Table(table(vec![("a", ConfigValue::Other(1))]))));
    assert_eq!(parsed.unwrap().entries.len(), 1);
    assert_eq!(user_root_from_read::<i64>(RootRead::Missing).unwrap().entries.len(), 0);
    assert_eq!(user_root_from_read::<i64>(RootRead::Parsed(ConfigValue::Other(3))).unwrap().entries.len(), 0);
    assert!(matches!(
        user_root_from_read::<i64>(RootRead::Unparseable("bad".to_string())),
        Err(RootReadError::Unparseable(m)) if m == "bad"
    ));
    assert!(matches!(
        user_root_from_read::<i64>(RootRead::Unreadable("denied".to_string())),
        Err(RootReadError::Unreadable(m)) if m == "denied"
    ));
}

#[test]
fn well_formedness_and_removal() {
    let dup = ConfigValue::Table(table(vec![("a", ConfigValue::Other(1)), ("a", ConfigValue::Other(2))]));
    assert!(!is_well_formed(&dup));
    let nested_dup = ConfigValue::Table(table(vec![("n", dup)]));
    assert!(!is_well_formed(&nested_dup));
    let ok = ConfigValue::Table(table(vec![("a", ConfigValue::Other(1)), ("b", ConfigValue::Other(2))]));
    assert!(is_well_formed(&ok));
    let mut t = table(vec![("a", ConfigValue::Other(1)), ("b", ConfigValue::Other(2))]);
    remove_key(&mut t, &"a".to_string());
    assert!(get(&t, "a").is_none());
    assert_eq!(as_int(get(&t, "b")), Some(2));
}

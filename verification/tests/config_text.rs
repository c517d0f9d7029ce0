use pager_theme::configfile::{render_user_root, user_root_from_text};
use pager_theme::configmerge::{set_transparent_background, ConfigTable, ConfigValue, RootReadError};

fn get<'a>(t: &'a ConfigTable<toml::Value>, key: &str) -> Option<&'a ConfigValue<toml::Value>> {
    t.entries.iter().find(|(k, _)| k == key).map(|(_, v)| v)
}

#[test]
fn config_text_table_is_read() {
    let root = user_root_from_text("[ui]\ntransparent_background = true\nother = 3\n").expect("parses");
    assert_eq!(root.entries.len(), 1);
    match get(&root, "ui") {
        Some(ConfigValue::Table(ui)) => {
            assert!(matches!(get(ui, "transparent_background"), Some(ConfigValue::Boolean(true))));
            match get(ui, "other") {
                Some(ConfigValue::Other(v)) => assert_eq!(v.as_integer(), Some(3)),
                _ => panic!("expected an integer"),
            }
        }
        _ => panic!("expected a [ui] table"),
    }
}

#[test]
fn config_text_empty_file_is_an_empty_table() {
    let root = user_root_from_text("").expect("parses");
    assert!(root.entries.is_empty());
}

#[test]
fn config_text_unparseable_is_refused() {
    match user_root_from_text("ui = = [") {
        Err(RootReadError::Unparseable(msg)) => assert!(!msg.is_empty()),
        _ => panic!("expected a refusal"),
    }
}

#[test]
fn config_text_renders_and_reads_back() {
    let mut root = user_root_from_text("[ui]\nshow_timestamps = true\n").expect("parses");
    set_transparent_background(&mut root, false);
    let text = render_user_root(&root).expect("renders");
    assert!(text.contains("[ui]"));
    assert!(text.contains("transparent_background = false"));
    assert!(text.contains("show_timestamps = true"));
    let back = user_root_from_text(&text).expect("reads back");
    match get(&back, "ui") {
        Some(ConfigValue::Table(ui)) => {
            assert!(matches!(get(ui, "transparent_background"), Some(ConfigValue::Boolean(false))));
            assert!(matches!(get(ui, "show_timestamps"), Some(ConfigValue::Boolean(true))));
        }
        _ => panic!("expected a [ui] table"),
    }
}

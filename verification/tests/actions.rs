use roam_ui::actions::{
    Action, AppMenuItem, BROWSER_CONTEXT, ConfigError, FileText, Keystroke, ShortcutSettings,
    WORKSPACE_CONTEXT, action_for, init, init_with_shortcuts, menus, rebind, shortcuts,
};

/// Reads a keystroke the way the window system does: modifiers, then a key.
fn parse(stroke: &str) -> Option<Keystroke> {
    let mut key = String::new();
    let mut modifiers: Vec<&str> = Vec::new();
    for part in stroke.split('-') {
        match part {
            "cmd" | "ctrl" | "alt" | "shift" => modifiers.push(part),
            other if key.is_empty() => key = other.to_string(),
            _ => return None,
        }
    }
    let mut text = String::new();
    for modifier in ["ctrl", "alt", "cmd", "shift"] {
        if modifiers.contains(&modifier) {
            text.push_str(modifier);
            text.push('-');
        }
    }
    text.push_str(&key);
    Some(Keystroke { key, text })
}

fn parsed(settings: &ShortcutSettings) -> Vec<Vec<Option<Keystroke>>> {
    settings
        .strokes()
        .iter()
        .map(|row| row.iter().map(|stroke| parse(stroke)).collect())
        .collect()
}

fn check(settings: &ShortcutSettings) -> Result<(), ConfigError> {
    settings.validate(&parsed(settings))
}

#[test]
fn defaults_cover_every_action_and_validate() {
    let settings = ShortcutSettings::default();
    assert_eq!(settings.len(), shortcuts().len());
    check(&settings).unwrap();
}

#[test]
fn duplicate_and_invalid_bindings_are_rejected() {
    let mut settings = ShortcutSettings::default();
    settings.set("quit_app", "cmd-w".into());
    assert!(
        check(&settings)
            .unwrap_err()
            .message()
            .contains("相同快捷键")
    );
    settings.set("quit_app", "cmd-".into());
    assert!(check(&settings).unwrap_err().message().contains("格式无效"));
}

#[test]
fn settings_round_trip() {
    let mut settings = ShortcutSettings::default();
    settings.set("new_tab", "cmd-shift-t".into());
    let text = settings.save(&parsed(&settings)).unwrap();
    let loaded = ShortcutSettings::load("shortcuts.toml", FileText::Text(text)).unwrap();
    assert_eq!(loaded.get("new_tab"), "cmd-shift-t");
    assert!(loaded == settings);
    let strokes = parsed(&loaded);
    assert_eq!(
        loaded.checked(&strokes).unwrap().get("new_tab"),
        "cmd-shift-t"
    );
}

#[test]
fn awkward_strings_survive_the_file() {
    for awkward in [
        "\"", "'", "'''", "\"\"\"", "a\nb", "\r\n", "\t", "\\", "\u{0}", "\u{7f}", "中文 ⌘", "a = b",
        "[x]", "#", " ", "",
    ] {
        let mut settings = ShortcutSettings::default();
        settings.set("something", awkward.to_string());
        settings.set("ключ \" = ]", "value".to_string());
        let text = settings.save(&parsed(&settings)).unwrap();
        let table = roam_ui::config_text::read_table(&text, "shortcuts").unwrap();
        assert_eq!(table.get("something"), Some(awkward));
        assert_eq!(table.get("ключ \" = ]"), Some("value"));
        assert_eq!(table.len(), shortcuts().len() + 2);
    }
}

#[test]
fn the_file_is_a_table_named_shortcuts() {
    let mut table = roam_ui::text_map::TextMap::new();
    table.insert("b", "two".to_string());
    table.insert("a", "one".to_string());
    assert_eq!(
        roam_ui::config_text::write_table("shortcuts", &table).unwrap(),
        "[shortcuts]\na = \"one\"\nb = \"two\"\n"
    );
}

#[test]
fn a_missing_file_leaves_the_defaults() {
    let settings = ShortcutSettings::load("x", FileText::Absent).unwrap();
    assert!(settings == ShortcutSettings::default());
    let empty = ShortcutSettings::load("x", FileText::Text(String::new())).unwrap();
    assert!(empty == ShortcutSettings::default());
}

#[test]
fn unknown_ids_in_the_file_are_passed_over() {
    let text = "other = 3\n[shortcuts]\nreload = \"f5\"\nnothing = \"f6\"\n".to_string();
    let settings = ShortcutSettings::load("x", FileText::Text(text)).unwrap();
    assert_eq!(settings.get("reload"), "f5");
    assert_eq!(settings.get("nothing"), "");
    assert_eq!(settings.len(), shortcuts().len());
}

#[test]
fn unreadable_files_say_why() {
    let error =
        ShortcutSettings::load("a/b.toml", FileText::Failed("denied".to_string())).unwrap_err();
    assert_eq!(error.message(), "读取 a/b.toml 失败: denied");

    let error =
        ShortcutSettings::load("a/b.toml", FileText::Text("[shortcuts".to_string())).unwrap_err();
    assert!(matches!(error, ConfigError::Parse { .. }));
    assert!(error.message().starts_with("解析 a/b.toml 失败: "));

    let wrong = "[shortcuts]\nreload = 5\n".to_string();
    let error = ShortcutSettings::load("p", FileText::Text(wrong)).unwrap_err();
    assert_eq!(
        error.message(),
        "解析 p 失败: TOML parse error at line 2, column 10\n  |\n2 | reload = 5\n  |          ^\n\
         invalid type: integer `5`, expected a string\n"
    );

    let wrong = "shortcuts = \"x\"\n".to_string();
    let error = ShortcutSettings::load("p", FileText::Text(wrong)).unwrap_err();
    assert!(error.message().contains("line 1, column 13"));
    assert!(error.message().contains("expected a map"));
}

#[test]
fn a_number_that_fits_nowhere_is_an_error_under_any_key() {
    let large = "other = 9223372036854775808\n".to_string();
    assert!(ShortcutSettings::load("p", FileText::Text(large)).is_ok());
    let huge = format!("9{}", "0".repeat(60));
    for text in [
        format!("other = {huge}\n"),
        format!("zzz = {huge}\n[shortcuts]\nreload = \"f5\"\n"),
    ] {
        let error = ShortcutSettings::load("p", FileText::Text(text)).unwrap_err();
        assert!(error.message().contains("integer number overflowed"));
    }
}

#[test]
fn the_first_entry_that_is_wrong_is_reported() {
    let huge = format!("9{}", "0".repeat(60));
    let load = |text: String| {
        ShortcutSettings::load("p", FileText::Text(text))
            .unwrap_err()
            .message()
    };
    assert!(load(format!("a = {huge}\nshortcuts = 1\n")).contains("overflowed"));
    assert!(load(format!("zzz = {huge}\nshortcuts = 1\n")).contains("expected a map"));
}

#[test]
fn each_error_has_its_words() {
    let mut settings = ShortcutSettings::default();
    settings.set("reload", "  ".into());
    assert_eq!(
        check(&settings).unwrap_err().message(),
        "请为「刷新」设置快捷键"
    );
    settings.set("reload", " a--b ".into());
    assert_eq!(
        check(&settings).unwrap_err().message(),
        "「刷新」的快捷键格式无效：a--b"
    );
    settings.set("reload", " cmd-] ".into());
    assert_eq!(
        check(&settings).unwrap_err().message(),
        "「前进」与「刷新」使用了相同快捷键：cmd-]"
    );
    let error = ConfigError::CreateDir {
        path: "d".to_string(),
        detail: "e".to_string(),
    };
    assert_eq!(error.message(), "创建 d 失败: e");
    let error = ConfigError::Write {
        path: "d".to_string(),
        detail: "e".to_string(),
    };
    assert_eq!(error.message(), "写入 d 失败: e");
    let error = ConfigError::Render {
        detail: "e".to_string(),
    };
    assert_eq!(error.message(), "序列化快捷键失败: e");
}

#[test]
fn chords_conflict_only_as_a_whole() {
    let mut settings = ShortcutSettings::default();
    settings.set("reload", "cmd-k cmd-s".into());
    settings.set("go_up", "cmd-k   cmd-t".into());
    check(&settings).unwrap();
    settings.set("go_up", "cmd-k \t cmd-s".into());
    assert!(check(&settings).is_err());
}

#[test]
fn case_does_not_tell_bindings_apart() {
    let mut settings = ShortcutSettings::default();
    settings.set("reload", "F5".into());
    settings.set("go_up", "f5".into());
    assert!(check(&settings).unwrap_err().message().contains("相同快捷键"));
}

#[test]
fn settings_that_do_not_validate_are_not_written() {
    let mut settings = ShortcutSettings::default();
    settings.set("reload", "".into());
    assert!(settings.save(&parsed(&settings)).is_err());
    let strokes = parsed(&settings);
    assert!(settings.checked(&strokes).is_err());
}

#[test]
fn a_binding_that_was_set_is_found() {
    let mut settings = ShortcutSettings::default();
    assert_eq!(settings.get("reload"), "cmd-r");
    settings.set("reload", "f5".into());
    assert_eq!(settings.get("reload"), "f5");
    assert_eq!(settings.get("go_up"), "backspace");
    assert_eq!(settings.get("no such"), "");
    assert!(settings.copy() == settings);
    assert!(settings != ShortcutSettings::default());
}

#[test]
fn the_settings_lie_beside_the_profiles() {
    assert_eq!(
        ShortcutSettings::path_for_profiles("/home/u/.config/roam/profiles.toml"),
        "/home/u/.config/roam/shortcuts.toml"
    );
    assert_eq!(
        ShortcutSettings::path_for_profiles("profiles.toml"),
        "shortcuts.toml"
    );
    assert_eq!(
        ShortcutSettings::path_for_profiles("/profiles.toml"),
        "/shortcuts.toml"
    );
    for (profiles, expected) in [
        ("./profiles.toml", "./shortcuts.toml"),
        ("../profiles.toml", "../shortcuts.toml"),
        ("a/../profiles.toml", "a/../shortcuts.toml"),
        ("a//profiles.toml", "a/shortcuts.toml"),
        ("a/./profiles.toml", "a/shortcuts.toml"),
        ("a./profiles.toml", "a./shortcuts.toml"),
        ("a:/profiles.toml", "a:/shortcuts.toml"),
        ("a/profiles.toml/", "a/shortcuts.toml"),
        ("my.conf", "shortcuts.toml"),
    ] {
        assert_eq!(ShortcutSettings::path_for_profiles(profiles), expected);
        assert_eq!(
            std::path::Path::new(expected).parent(),
            std::path::Path::new(profiles).parent()
        );
    }
}

#[test]
fn every_shortcut_has_its_action() {
    assert_eq!(action_for("open_selected"), Some(Action::OpenSelected));
    assert_eq!(action_for("toggle_hidden"), Some(Action::ToggleHidden));
    assert_eq!(action_for("quit_app"), Some(Action::QuitApp));
    assert_eq!(action_for("nothing"), None);
}

#[test]
fn keys_are_bound_in_their_context() {
    let steps = init();
    assert_eq!(steps.len(), 16);
    assert_eq!(steps[0].keys, "enter");
    assert_eq!(steps[0].action, Action::OpenSelected);
    assert_eq!(steps[0].context, Some(BROWSER_CONTEXT));
    assert_eq!(steps[15].keys, "cmd-q");
    assert_eq!(steps[15].context, None);
    assert!(steps.iter().all(|step| !step.unbind));
    assert_eq!(WORKSPACE_CONTEXT, "Workspace");
}

#[test]
fn rebinding_takes_the_old_keys_away_first() {
    let old = ShortcutSettings::default();
    let mut new = old.copy();
    new.set("reload", "f5".into());
    let steps = rebind(&old, &new);
    assert_eq!(steps.len(), 32);
    assert!(steps[4].unbind);
    assert_eq!(steps[4].keys, "cmd-r");
    assert_eq!(steps[4].action, Action::Reload);
    assert!(!steps[20].unbind);
    assert_eq!(steps[20].keys, "f5");
    assert_eq!(steps[20].action, Action::Reload);
    assert_eq!(init_with_shortcuts(&new)[4].keys, "f5");
}

#[test]
fn closing_and_quitting_are_in_the_menus() {
    let menus = menus();
    assert_eq!(menus.len(), 2);
    assert!(matches!(
        menus[0].items[2],
        AppMenuItem::Action {
            label: "退出 Roam",
            action: Action::QuitApp
        }
    ));
    assert!(matches!(
        menus[1].items[0],
        AppMenuItem::Action {
            action: Action::CloseTab,
            ..
        }
    ));
}

use roam_ui::dialog::{ButtonAction, ButtonStyle, Dialog, closes};
use roam_ui::name_dialog::NameDialog;
use roam_ui::placeholders;
use roam_ui::startup::local_root;
use roam_ui::text;
use roam_ui::text_map::TextMap;

#[test]
fn placeholders_are_single_line() {
    for placeholder in placeholders::all() {
        assert!(
            !placeholder.contains('\n') && !placeholder.contains('\r'),
            "placeholder {placeholder:?} spans multiple lines"
        );
    }
}

#[test]
fn placeholders_are_not_blank() {
    for placeholder in placeholders::all() {
        assert!(!placeholder.trim().is_empty());
    }
}

#[test]
fn every_placeholder_constant_is_registered() {
    let all = placeholders::all();
    assert_eq!(all.len(), 7);
    for placeholder in [
        placeholders::CONNECTION_NAME,
        placeholders::CONNECTION_URI,
        placeholders::CONNECTION_OPTIONS,
        placeholders::CONNECTION_CREDENTIALS,
        placeholders::NEW_FOLDER,
        placeholders::RENAME,
        placeholders::FILTER,
    ] {
        assert!(all.contains(&placeholder));
    }
}

#[test]
fn a_name_is_trimmed() {
    let prompt = NameDialog::new("", placeholders::NEW_FOLDER);
    assert!(prompt.initial.is_none());
    assert_eq!(prompt.placeholder, "新文件夹");
    assert_eq!(prompt.value("  a b\t"), "a b");
    let prompt = NameDialog::new("old.txt", placeholders::RENAME);
    assert_eq!(prompt.initial.as_deref(), Some("old.txt"));
}

#[test]
fn a_question_can_be_declined() {
    let dialog = Dialog::new("t".to_string(), 10)
        .must_answer()
        .danger_cancel("删除", "取消");
    assert!(!dialog.overlay_closable && !dialog.close_button);
    assert!(dialog.enter_runs);
    assert_eq!(dialog.footer.len(), 2);
    assert_eq!(dialog.footer[0].label, "取消");
    assert_eq!(dialog.footer[0].action, ButtonAction::Close);
    assert_eq!(dialog.footer[1].style, ButtonStyle::Danger);
    assert_eq!(dialog.footer[1].action, ButtonAction::Run);
    let dialog = Dialog::new("t".to_string(), 10).confirm_cancel("创建", "取消");
    assert_eq!(dialog.footer[1].style, ButtonStyle::Primary);
    let dialog = Dialog::new("t".to_string(), 10).dismiss("关闭");
    assert_eq!(dialog.footer.len(), 1);
    assert!(!dialog.enter_runs);
}

#[test]
fn a_refused_input_keeps_the_dialog_open() {
    assert!(closes(ButtonAction::Close, false));
    assert!(closes(ButtonAction::Run, true));
    assert!(!closes(ButtonAction::Run, false));
}

#[test]
fn the_argument_comes_before_the_home_directory() {
    let home = Some("/home/u".to_string());
    assert_eq!(
        local_root(Some("/data".to_string()), home.clone()).unwrap(),
        "/data"
    );
    assert_eq!(local_root(None, home).unwrap(), "/home/u");
    assert_eq!(
        local_root(None, None).unwrap_err(),
        "cannot determine the home directory"
    );
}

#[test]
fn text_helpers_agree_with_std() {
    for s in [
        "", " ", "a", " a ", "\u{a0}a b\u{3000}", "\u{2028}x\u{85}", "a\tb\n c", "\u{200b}z", "  ",
        "ÄB c",
    ] {
        assert_eq!(text::trim(s), s.trim());
        let words: Vec<String> = s.split_whitespace().map(String::from).collect();
        assert_eq!(text::words(s), words);
        assert_eq!(text::join(&words, ", "), words.join(", "));
        assert_eq!(text::ascii_lower(s), s.to_ascii_lowercase());
        assert_eq!(text::is_empty(s), s.is_empty());
    }
    for n in [0u64, 7, 10, 42, 100, 65534, u64::MAX] {
        assert_eq!(text::number(n), n.to_string());
    }
    assert_eq!(text::cat3("a", "b", "c"), "abc");
}

#[test]
fn a_text_map_keeps_one_value_per_key() {
    let mut map = TextMap::new();
    map.insert("a", "1".to_string());
    map.insert("b", "2".to_string());
    map.insert("a", "3".to_string());
    assert_eq!(map.len(), 2);
    assert_eq!(map.get("a"), Some("3"));
    assert_eq!(map.get("c"), None);
    assert!(map.equals(&map.copy()));
    let mut other = TextMap::new();
    other.insert("b", "2".to_string());
    assert!(!map.equals(&other));
    other.insert("a", "3".to_string());
    assert!(map.equals(&other));
}

use roam_ui::actions::ShortcutSettings;
use roam_ui::browser::{Browser, toggle_hidden};
use roam_ui::delegate::EntriesDelegate;
use roam_ui::dir_tree::{DirTreeView, TreeRow};
use roam_ui::entry::{Capability, DirEntry, EntryKind, Icon, Rows};
use roam_ui::shortcut_settings::ShortcutSettingsForm;
use roam_ui::workspace::{
    Banner, Connect, LoadedProfile, Profile, REMOVED_SERVICE, Removal, Save, SidebarClick, Workspace,
    capability_flags, click_row, form_dialog, sync_tree,
};

const LOCAL: Capability = Capability {
    write: true,
    create_dir: true,
    rename: true,
    copy: true,
    presign: false,
    delete_with_recursive: true,
    list_with_versions: false,
};

fn profile(id: &str, name: &str) -> Profile {
    Profile {
        id: id.to_string(),
        name: name.to_string(),
        scheme: "fs".to_string(),
        uri: "fs:///".to_string(),
        known: true,
    }
}

fn loaded(profiles: &[(&str, &str, &[&str])]) -> Result<Vec<LoadedProfile>, String> {
    Ok(profiles
        .iter()
        .map(|(id, name, orphaned)| LoadedProfile {
            profile: profile(id, name),
            orphaned: orphaned.iter().map(|s| s.to_string()).collect(),
        })
        .collect())
}

fn window() -> Workspace<&'static str> {
    Workspace::new(loaded(&[("remote", "远端", &[])]), "a")
}

fn panes(w: &Workspace<&'static str>) -> Vec<&'static str> {
    w.tabs().iter().map(|tab| tab.pane).collect()
}

fn tree_row(label: &str) -> TreeRow {
    TreeRow {
        path: format!("{label}/"),
        label: label.to_string(),
        depth: 1,
        expanded: false,
        loading: false,
        leaf: false,
    }
}

#[test]
fn a_window_opens_with_one_tab() {
    let w = window();
    assert_eq!(w.tabs().len(), 1);
    assert_eq!(w.active(), 0);
    assert_eq!(w.active_tab().pane, "a");
}

#[test]
fn opens_on_the_local_session() {
    let w = window();
    assert!(
        w.active_tab().profile.is_none(),
        "no saved profile is active on first run"
    );
    assert!(w.active_profile().is_none());
}

#[test]
fn a_missing_profiles_file_is_not_an_error() {
    let w = Workspace::new(Ok(Vec::new()), ());
    assert!(w.banner().is_none(), "first run should be quiet");
    assert!(w.profiles().is_empty());
}

#[test]
fn a_broken_profiles_file_is_shown_and_nothing_else() {
    let w = Workspace::new(Err("第 3 行".to_string()), ());
    assert!(matches!(w.banner(), Some(Banner::Failure(text)) if text == "第 3 行"));
    assert!(w.profiles().is_empty());
    assert_eq!(w.tabs().len(), 1);
}

#[test]
fn credentials_kept_elsewhere_are_named() {
    let w = Workspace::new(
        loaded(&[
            ("a", "甲", &["key", "secret"]),
            ("b", "乙", &[]),
            ("c", "丙", &["token"]),
        ]),
        (),
    );
    match w.banner() {
        Some(Banner::Config(text)) => assert_eq!(
            text,
            "以下连接的凭据原先存放在系统钥匙串中，本版本不再读取，请重新填写：甲（key、secret）；丙（token）"
        ),
        other => panic!("{other:?}"),
    }
    assert_eq!(w.profiles().len(), 3);
}

#[test]
fn tabs_hold_independent_panes() {
    let cap = LOCAL;
    let (first, _, _) = Browser::new("本机", cap);
    let mut w = Workspace::new(Ok(Vec::new()), first);
    let (beside, _, _) = w.active_tab().pane.open_beside();
    w.action_new_tab(beside);
    assert_eq!(w.tabs().len(), 2);
    assert_eq!(w.active(), 1);
}

#[test]
fn tabs_can_sit_on_different_backends() {
    let mut w = window();
    w.action_new_tab("b");
    assert!(matches!(w.connect("remote", Ok(())), Connect::Switched));
    assert_eq!(w.active_tab().profile.as_deref(), Some("remote"));

    w.action_next_tab();
    assert_eq!(w.active_tab().profile, None, "the other tab is still local");
}

#[test]
fn a_new_tab_is_on_the_same_connection() {
    let mut w = window();
    w.connect("remote", Ok(()));
    assert_eq!(w.action_new_tab("b"), 2);
    assert_eq!(w.active_tab().profile.as_deref(), Some("remote"));
    assert_eq!(w.active_tab().id, 2);
}

#[test]
fn connecting_only_changes_the_active_tab() {
    let mut w = window();
    w.action_new_tab("b");
    w.connect("remote", Ok(()));
    assert_eq!(w.tabs()[0].profile, None);
    assert_eq!(w.tabs()[1].profile.as_deref(), Some("remote"));
    w.connect_local();
    assert_eq!(w.tabs()[1].profile, None);
}

#[test]
fn a_profile_missing_a_required_field_blocks_the_switch() {
    let mut w = window();
    match w.connect("remote", Err("缺少 Access Key ID".to_string())) {
        Connect::Refused(message) => assert!(message.contains("Access Key ID")),
        other => panic!("{other:?}"),
    }
    assert_eq!(w.active_tab().profile, None, "the session must not change");
    assert!(matches!(w.banner(), Some(Banner::Failure(text)) if text.contains("Access Key ID")));
    w.connect_local();
    assert!(w.banner().is_none());
}

#[test]
fn connecting_to_nothing_does_nothing() {
    let mut w = window();
    assert!(matches!(
        w.connect("gone", Err("x".to_string())),
        Connect::Unknown
    ));
    assert!(w.banner().is_none());
}

#[test]
fn closing_a_tab_keeps_the_rest() {
    let mut w = window();
    w.action_new_tab("b");
    w.action_new_tab("c");
    assert_eq!(w.tabs().len(), 3);

    assert!(w.action_close_tab());

    assert_eq!(w.tabs().len(), 2);
    assert_eq!(w.active(), 1, "focus falls back to the neighbour");
    assert_eq!(panes(&w), ["a", "b"]);
}

#[test]
fn closing_a_background_tab_keeps_the_active_one() {
    let mut w = window();
    w.action_new_tab("b");
    w.action_new_tab("c");
    assert!(w.close_tab_by_id(1));
    assert_eq!(w.active_tab().pane, "c");
    assert_eq!(panes(&w), ["b", "c"]);
    assert!(!w.close_tab_by_id(1));
    w.select_tab(0);
    assert!(w.close_tab(1));
    assert_eq!(w.active_tab().pane, "b");
    assert!(!w.close_tab(7));
}

#[test]
fn the_last_tab_cannot_be_closed() {
    let mut w = window();
    assert!(!w.action_close_tab());
    assert_eq!(w.tabs().len(), 1);
}

#[test]
fn switching_tabs_wraps_around() {
    let mut w = window();
    w.action_new_tab("b");
    assert_eq!(w.active(), 1);

    w.action_next_tab();
    assert_eq!(w.active(), 0, "wraps to the start");

    w.action_next_tab();
    assert_eq!(w.active(), 1);

    w.action_next_tab();
    w.action_prev_tab();
    assert_eq!(w.active(), 1, "wraps to the end");
    w.action_prev_tab();
    assert_eq!(w.active(), 0);
    assert!(!w.select_tab(0));
    assert!(!w.select_tab(2));
    assert!(w.select_tab(1));
}

#[test]
fn a_single_tab_has_nowhere_to_switch_to() {
    let mut w = window();
    assert!(!w.action_next_tab());
    assert!(!w.action_prev_tab());
    assert_eq!(w.active(), 0);
}

#[test]
fn deleting_a_profile_falls_every_tab_back_to_local() {
    let mut w = window();
    w.connect("remote", Ok(()));
    w.action_new_tab("b");
    assert_eq!(w.active_tab().profile.as_deref(), Some("remote"));

    assert_eq!(w.profiles_without("remote").unwrap().len(), 0);
    match w.remove_profile("remote", Ok(())) {
        Removal::Removed { tabs, notice } => {
            assert_eq!(tabs, [0, 1]);
            assert_eq!(notice, "连接已删除");
        }
        other => panic!("{other:?}"),
    }
    assert!(w.tabs().iter().all(|tab| tab.profile.is_none()));
    assert!(w.profiles().is_empty());
}

#[test]
fn a_profile_that_cannot_be_deleted_stays() {
    let mut w = window();
    w.connect("remote", Ok(()));
    assert!(
        matches!(w.remove_profile("remote", Err("只读".to_string())), Removal::Failed(m) if m == "只读")
    );
    assert_eq!(w.profiles().len(), 1);
    assert_eq!(w.active_tab().profile.as_deref(), Some("remote"));
    assert!(w.profiles_without("gone").is_none());
    assert!(matches!(
        w.remove_profile("gone", Ok(())),
        Removal::Unknown
    ));
}

#[test]
fn deleting_one_profile_leaves_tabs_on_others() {
    let mut w = Workspace::new(loaded(&[("x", "X", &[]), ("y", "Y", &[])]), "a");
    w.connect("x", Ok(()));
    w.action_new_tab("b");
    w.connect("y", Ok(()));
    match w.remove_profile("x", Ok(())) {
        Removal::Removed { tabs, .. } => assert_eq!(tabs, [0]),
        other => panic!("{other:?}"),
    }
    assert_eq!(w.active_tab().profile.as_deref(), Some("y"));
    assert_eq!(w.taken_ids(), ["y"]);
}

#[test]
fn saving_a_form_adds_or_replaces_a_profile() {
    let mut w = window();
    assert_eq!(w.profiles_with(&profile("new", "新")).len(), 2);
    assert!(matches!(
        w.save_form(Ok(profile("new", "新")), Ok(())),
        Save::Done {
            notice: "连接已保存",
            connect,
        } if connect == "new"
    ));
    assert_eq!(w.taken_ids(), ["remote", "new"]);
    w.save_form(Ok(profile("remote", "改名")), Ok(()));
    assert_eq!(w.taken_ids(), ["remote", "new"]);
    assert_eq!(w.profile("remote").unwrap().name, "改名");
    assert_eq!(w.profile("new").unwrap().name, "新");
    assert!(w.profile("gone").is_none());
}

#[test]
fn a_missing_required_field_keeps_the_dialog_open() {
    let mut w = window();
    assert!(
        matches!(w.save_form(Err("缺少".to_string()), Ok(())), Save::KeepOpen { reason } if reason == "缺少")
    );
    assert!(
        matches!(w.save_form(Ok(profile("n", "N")), Err("磁盘满".to_string())), Save::KeepOpen { reason } if reason == "磁盘满")
    );
    assert_eq!(w.profiles().len(), 1);
}

#[test]
fn only_the_active_tab_moves_the_tree() {
    let mut w = window();
    w.action_new_tab("b");
    let mut tree = DirTreeView::new();
    assert!(w.follows(2) && !w.follows(1));
    assert!(!w.tab_directory_changed(&mut tree, 1, "beta/", vec![tree_row("beta")]));
    assert_eq!(tree.current(), "");
    assert!(tree.rows().is_empty());
    assert!(w.tab_directory_changed(&mut tree, 2, "alpha/", vec![tree_row("alpha")]));
    assert_eq!(tree.current(), "alpha/");
    assert_eq!(tree.rows()[0].label, "alpha");
    assert!(!w.tab_hidden_changed(&mut tree, 1, true, Vec::new()));
    assert!(!tree.show_hidden());
    assert!(w.tab_hidden_changed(&mut tree, 2, true, vec![tree_row(".git")]));
    assert!(tree.show_hidden());
    assert_eq!(tree.rows()[0].label, ".git");
}

#[test]
fn the_sidebar_tree_follows_the_active_tab() {
    let mut tree = DirTreeView::new();
    let row = TreeRow {
        path: String::new(),
        label: "/".to_string(),
        depth: 0,
        expanded: true,
        loading: false,
        leaf: false,
    };
    sync_tree(&mut tree, true, "alpha/", vec![row]);
    assert_eq!(tree.current(), "alpha/");
    assert!(tree.show_hidden());
    assert_eq!(tree.rows()[0].label, "/");
}

#[test]
fn the_title_names_the_session() {
    let mut w = window();
    assert_eq!(w.title("/home/u"), "本机 · /home/u");
    w.connect("remote", Ok(()));
    assert_eq!(w.title("x"), "远端 · fs:///");
}

#[test]
fn the_sidebar_lists_the_local_session_first() {
    let mut w = Workspace::new(
        Ok(vec![LoadedProfile {
            profile: Profile {
                id: "s".to_string(),
                name: "桶".to_string(),
                scheme: "s3".to_string(),
                uri: "s3://b/".to_string(),
                known: true,
            },
            orphaned: Vec::new(),
        }]),
        (),
    );
    let rows = w.sidebar();
    assert_eq!(rows.len(), 2);
    assert_eq!(rows[0].name, "本机");
    assert_eq!(rows[0].row_id, "conn-");
    assert!(rows[0].active && !rows[0].removable);
    assert_eq!(rows[0].icon, Icon::FolderClosed);
    assert_eq!(rows[1].row_id, "conn-s");
    assert_eq!(rows[1].edit_id.as_deref(), Some("edit-s"));
    assert_eq!(rows[1].remove_id.as_deref(), Some("remove-s"));
    assert!(rows[1].editable);
    assert!(!rows[0].editable && rows[0].edit_id.is_none() && rows[0].remove_id.is_none());
    assert_eq!(rows[1].icon, Icon::Globe);
    assert!(!rows[1].active && rows[1].removable);
    w.connect("s", Ok(()));
    let rows = w.sidebar();
    assert!(!rows[0].active && rows[1].active);
    assert!(matches!(click_row(""), SidebarClick::Local));
    assert!(matches!(click_row("s"), SidebarClick::Connect(id) if id == "s"));
}

#[test]
fn tabs_are_labelled_by_session_and_place() {
    let mut w = window();
    let tab = w.tab_label(0, "本机", "");
    assert_eq!(tab.label, "本机 · /");
    assert_eq!(tab.close_id, "close-tab-1");
    assert!(tab.close_disabled);
    w.action_new_tab("b");
    let tab = w.tab_label(1, "远端", "reports");
    assert_eq!(tab.label, "远端 · reports");
    assert_eq!(tab.close_id, "close-tab-2");
    assert!(!tab.close_disabled);
}

#[test]
fn capabilities_are_shown_as_flags() {
    let flags = capability_flags(LOCAL);
    let shown: Vec<(&str, bool)> = flags.iter().map(|f| (f.label, f.supported)).collect();
    assert_eq!(
        shown,
        [
            ("重命名", true),
            ("服务端复制", true),
            ("分享链接", false),
            ("递归删除", true),
            ("版本", false)
        ]
    );
}

#[test]
fn the_footer_switches_theme_and_lists_shortcuts() {
    let mut w = window();
    let settings = ShortcutSettings::default();
    let footer = w.footer(false, &settings);
    assert_eq!(footer.theme_icon, Icon::Moon);
    assert_eq!(footer.theme_tooltip, "切换到暗色");
    assert!(footer.next_dark);
    assert!(footer.hints.is_empty());
    w.toggle_shortcuts();
    let footer = w.footer(true, &settings);
    assert_eq!(footer.theme_icon, Icon::Sun);
    assert_eq!(footer.theme_tooltip, "切换到亮色");
    assert_eq!(footer.hints.len(), 16);
    assert_eq!(footer.hints[0], ("打开所选项目", "enter".to_string()));
}

#[test]
fn the_form_dialog_says_what_it_edits() {
    assert_eq!(form_dialog(None).title, "新建连接");
    let dialog = form_dialog(Some("远端"));
    assert_eq!(dialog.title, "编辑连接 · 远端");
    assert_eq!(dialog.footer[1].label, "保存");
}

#[test]
fn the_shortcut_form_trims_and_restores() {
    let mut settings = ShortcutSettings::default();
    settings.set("reload", "f5".to_string());
    let mut form = ShortcutSettingsForm::new(&settings);
    assert_eq!(form.input(4), "f5");
    form.set_input(4, "  f6 ");
    assert_eq!(form.settings().get("reload"), "f6");
    assert_eq!(form.settings().get("go_up"), "backspace");
    form.restore_defaults();
    assert_eq!(form.input(4), "cmd-r");
    assert!(form.settings() == ShortcutSettings::default());
}

#[test]
fn the_shortcut_form_groups_its_rows() {
    let form = ShortcutSettingsForm::new(&ShortcutSettings::default());
    let groups = form.groups();
    let sizes: Vec<(&str, usize)> = groups.iter().map(|g| (g.title, g.rows.len())).collect();
    assert_eq!(sizes, [("浏览", 6), ("文件", 5), ("标签页与应用", 5)]);
    assert_eq!(groups[1].rows[0].label, "新建文件夹");
    assert_eq!(groups[1].rows[0].input, 6);
    assert_eq!(groups[1].rows[0].placeholder, "cmd-shift-n");
}

fn with_scheme(scheme: &str, known: bool) -> Workspace<()> {
    Workspace::new(
        Ok(vec![LoadedProfile {
            profile: Profile {
                id: "old".to_string(),
                name: "旧".to_string(),
                scheme: scheme.to_string(),
                uri: format!("{scheme}://host/"),
                known,
            },
            orphaned: Vec::new(),
        }]),
        (),
    )
}

#[test]
fn a_connection_of_the_removed_service_can_only_be_removed() {
    for known in [false, true] {
        let mut w = with_scheme("sftp", known);
        let row = &w.sidebar()[1];
        assert_eq!((row.name.as_str(), row.scheme.as_str()), ("旧", "sftp"));
        assert!(!row.editable && row.edit_id.is_none());
        assert!(row.removable && row.remove_id.is_some());
        match w.connect("old", Ok(())) {
            Connect::Refused(message) => assert_eq!(message, REMOVED_SERVICE),
            other => panic!("{other:?}"),
        }
        assert!(w.active_tab().profile.is_none());
        assert!(matches!(w.banner(), Some(Banner::Failure(text)) if text == REMOVED_SERVICE));
        assert!(
            matches!(w.connect("old", Err("断开".to_string())), Connect::Refused(m) if m == "断开")
        );
        assert!(w.active_tab().profile.is_none());
        assert!(matches!(
            w.remove_profile("old", Ok(())),
            Removal::Removed { .. }
        ));
        assert!(w.profiles().is_empty());
    }
}

#[test]
fn a_connection_without_a_schema_connects_but_cannot_be_edited() {
    let mut w = with_scheme("hdfs", false);
    let row = &w.sidebar()[1];
    assert!(!row.editable && row.edit_id.is_none());
    assert!(row.removable);
    assert!(matches!(w.connect("old", Ok(())), Connect::Switched));
    assert_eq!(w.active_tab().profile.as_deref(), Some("old"));
    assert!(w.banner().is_none());
}

#[test]
fn the_hidden_files_toggle_reaches_the_tree() {
    let entry = |name: &str| DirEntry {
        name: name.to_string(),
        path: format!("{name}/"),
        kind: EntryKind::Dir,
        size: None,
    };
    let w = window();
    let mut table = EntriesDelegate::new();
    table.reset(
        Rows {
            entries: vec![entry("alpha"), entry(".git")],
            view: vec![1, 0],
        },
        false,
    );
    let rows = |hidden: bool| {
        let labels: &[&str] = if hidden {
            &["/", ".git", "alpha"]
        } else {
            &["/", "alpha"]
        };
        labels.iter().map(|label| tree_row(label)).collect::<Vec<_>>()
    };
    let labels = |tree: &DirTreeView| {
        tree.rows()
            .iter()
            .map(|row| row.label.clone())
            .collect::<Vec<_>>()
    };
    let mut tree = DirTreeView::new();
    tree.refresh_rows(rows(false));
    assert_eq!(table.shown(), 1);

    let show = toggle_hidden(&mut table, vec![1, 0]);
    assert!(w.tab_hidden_changed(&mut tree, 1, show, rows(show)));
    assert_eq!(table.shown(), 2);
    assert_eq!(table.entry(0).unwrap().name, ".git");
    assert!(tree.show_hidden());
    assert_eq!(labels(&tree), vec!["/", ".git", "alpha"]);

    let show = toggle_hidden(&mut table, vec![1, 0]);
    assert!(w.tab_hidden_changed(&mut tree, 1, show, rows(show)));
    assert_eq!(table.shown(), 1);
    assert!(!tree.show_hidden());
    assert_eq!(labels(&tree), vec!["/", "alpha"]);
}

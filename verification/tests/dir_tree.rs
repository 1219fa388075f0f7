use roam_ui::dir_tree::{
    DirTreeView, PANEL_HEIGHT, ROW_HEIGHT, TreeClick, TreeRow, Twisty, may_truncate, visible_height,
};
use roam_ui::entry::Icon;

fn row(path: &str, depth: usize) -> TreeRow {
    TreeRow {
        path: path.to_string(),
        label: path.trim_end_matches('/').to_string(),
        depth,
        expanded: false,
        loading: false,
        leaf: false,
    }
}

#[test]
fn a_short_tree_does_not_reserve_the_whole_panel() {
    assert_eq!(visible_height(3), ROW_HEIGHT * 3);
    assert!(visible_height(3) < PANEL_HEIGHT);
}

#[test]
fn a_long_tree_stops_at_the_cap() {
    assert_eq!(visible_height(10_000), PANEL_HEIGHT);
}

#[test]
fn an_empty_tree_still_has_a_viewport() {
    assert_eq!(visible_height(0), ROW_HEIGHT);
}

#[test]
fn the_cap_is_reached_between_eleven_and_twelve_rows() {
    assert_eq!(visible_height(11), 242);
    assert_eq!(visible_height(12), 260);
    assert_eq!(visible_height(usize::MAX), 260);
}

#[test]
fn an_ordinary_name_needs_no_tooltip() {
    assert!(!may_truncate("documents", 0));
    assert!(!may_truncate("报告", 0));
}

#[test]
fn a_long_name_gets_one() {
    assert!(may_truncate(
        "2024-年度财务报表-最终版-请勿外传.xlsx-backup",
        0
    ));
}

#[test]
fn indentation_eats_into_the_budget() {
    let name = "quarterly-reports-2024";
    assert!(!may_truncate(name, 0));
    // Same name, pushed right by six levels of nesting: now it is cut off.
    assert!(may_truncate(name, 6));
}

/// The same estimate in pixels.
fn estimate(label: &str, depth: usize) -> bool {
    let width: f32 = label
        .chars()
        .map(|c| if c.is_ascii() { 6.5 } else { 12.0 })
        .sum();
    width > 216. - 8. - 4. - 14. - 12. - 12. - depth as f32 * 12.
}

#[test]
fn half_pixels_agree_with_pixels() {
    for depth in 0..20 {
        for narrow in 0..40 {
            for wide in 0..20 {
                let label = format!("{}{}", "a".repeat(narrow), "文".repeat(wide));
                assert_eq!(
                    may_truncate(&label, depth),
                    estimate(&label, depth),
                    "{label} at {depth}"
                );
            }
        }
    }
}

#[test]
fn rows_are_drawn_with_their_depth_and_state() {
    let mut tree = DirTreeView::new();
    let mut open = row("alpha/", 2);
    open.expanded = true;
    let mut busy = row("beta/", 1);
    busy.loading = true;
    let mut leaf = row("gamma/", 1);
    leaf.leaf = true;
    tree.set_current("alpha/", vec![open, busy, leaf, row("delta/", 0)]);

    let view = tree.row(0).unwrap();
    assert_eq!(view.indent, 28);
    assert!(view.current);
    assert_eq!(view.twisty, Twisty::Triangle(Icon::ChevronDown));
    assert_eq!(view.icon, Icon::FolderOpen);
    assert!(!view.tooltip);
    assert_eq!(tree.row(1).unwrap().twisty, Twisty::Loader);
    assert_eq!(tree.row(2).unwrap().twisty, Twisty::Spacer);
    let view = tree.row(3).unwrap();
    assert_eq!(view.twisty, Twisty::Triangle(Icon::ChevronRight));
    assert_eq!(view.icon, Icon::FolderClosed);
    assert!(!view.current);
    assert!(tree.row(4).is_none());
    assert_eq!(tree.height(), 88);
    assert_eq!(tree.current(), "alpha/");
}

#[test]
fn the_disclosure_triangle_expands_without_navigating() {
    let mut tree = DirTreeView::new();
    tree.refresh_rows(vec![row("", 0), row("alpha/", 1)]);
    assert!(matches!(tree.click(1, true), TreeClick::Toggle(path) if path == "alpha/"));
}

#[test]
fn clicking_the_name_navigates() {
    let mut tree = DirTreeView::new();
    tree.refresh_rows(vec![row("", 0), row("alpha/", 1)]);
    assert!(matches!(tree.click(1, false), TreeClick::Navigate(path) if path == "alpha/"));
    assert!(matches!(tree.click(2, false), TreeClick::Nothing));
}

#[test]
fn where_there_is_no_triangle_a_click_navigates() {
    let mut tree = DirTreeView::default();
    let mut leaf = row("alpha/", 1);
    leaf.leaf = true;
    tree.refresh_rows(vec![leaf]);
    assert!(matches!(tree.click(0, true), TreeClick::Navigate(_)));
}

#[test]
fn hiding_twice_changes_nothing_the_second_time() {
    let mut tree = DirTreeView::new();
    tree.refresh_rows(vec![row("alpha/", 1)]);
    assert!(!tree.set_show_hidden(false, Vec::new()));
    assert_eq!(tree.rows().len(), 1);
    assert!(tree.set_show_hidden(true, vec![row(".git/", 1), row("alpha/", 1)]));
    assert_eq!(tree.rows()[0].path, ".git/");
    assert!(!tree.set_show_hidden(true, Vec::new()));
    assert!(tree.show_hidden());
    assert_eq!(tree.rows().len(), 2);
}

#[test]
fn another_session_starts_at_the_root() {
    let mut tree = DirTreeView::new();
    tree.set_current("alpha/", vec![row("alpha/", 0)]);
    tree.set_vfs();
    assert_eq!(tree.current(), "");
    assert!(tree.rows().is_empty(), "nothing of the old session is left");
}

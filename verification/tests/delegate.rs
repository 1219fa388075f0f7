use std::time::{Duration, Instant};

use roam_ui::delegate::{Cell, ColumnSort, EntriesDelegate, Offer, kind_label, order_by};
use roam_ui::entry::{DirEntry, EntryAction, EntryKind, Icon, Rows, SortKey};

const ROWS: usize = 100_000;

fn entries(count: usize) -> Vec<DirEntry> {
    (0..count)
        .map(|i| {
            let name = format!("row-{i:06}.txt");
            DirEntry {
                name: name.clone(),
                path: name,
                kind: EntryKind::File,
                size: Some(i as u64),
            }
        })
        .collect()
}

fn matches_filter(name: &str, filter: &str) -> bool {
    name.to_lowercase().contains(&filter.to_lowercase())
}

/// The places of the entries that pass the filter, by name.
fn view(entries: &[DirEntry], filter: &str) -> Vec<u32> {
    let mut view: Vec<u32> = (0..entries.len() as u32)
        .filter(|&i| matches_filter(&entries[i as usize].name, filter))
        .collect();
    view.sort_by(|&a, &b| entries[a as usize].name.cmp(&entries[b as usize].name));
    view
}

fn reset(delegate: &mut EntriesDelegate, entries: Vec<DirEntry>, loading: bool) {
    let view = view(&entries, delegate.filter());
    delegate.reset(Rows { entries, view }, loading);
}

fn set_filter(delegate: &mut EntriesDelegate, filter: &str) {
    let view = view(delegate.entries(), filter);
    delegate.set_filter(filter, view);
}

fn extend(delegate: &mut EntriesDelegate, batch: &[DirEntry]) {
    let matching: Vec<bool> = batch
        .iter()
        .map(|entry| matches_filter(&entry.name, delegate.filter()))
        .collect();
    delegate.extend(batch.iter().map(|entry| entry.copy()).collect(), &matching);
}

#[test]
fn the_delegate_resolves_the_last_row_of_a_hundred_thousand() {
    let mut delegate = EntriesDelegate::new();
    reset(&mut delegate, entries(ROWS), false);

    assert_eq!(delegate.shown(), ROWS);
    assert_eq!(delegate.total(), ROWS);

    let start = Instant::now();
    let last = delegate.entry(ROWS - 1).expect("the last row exists");
    let elapsed = start.elapsed();

    assert_eq!(&*last.name, "row-099999.txt");
    assert!(elapsed < Duration::from_millis(50), "took {elapsed:?}");
    assert!(
        delegate.entry(ROWS).is_none(),
        "and one past the end is None"
    );
}

#[test]
fn filtering_a_hundred_thousand_rows_keeps_the_entries_intact() {
    let mut delegate = EntriesDelegate::new();
    reset(&mut delegate, entries(ROWS), false);

    let start = Instant::now();
    set_filter(&mut delegate, "row-0999");
    let filter_time = start.elapsed();

    assert!(delegate.shown() < ROWS / 10);
    assert_eq!(
        delegate.total(),
        ROWS,
        "filtering hides rows; it must not discard them"
    );

    let start = Instant::now();
    set_filter(&mut delegate, "");
    let clear_time = start.elapsed();
    assert_eq!(delegate.shown(), ROWS, "clearing restores every row");

    assert!(filter_time < Duration::from_secs(5));
    assert!(clear_time < Duration::from_secs(5));
}

#[test]
fn streaming_batches_into_a_hundred_thousand_rows_stays_linear() {
    let mut delegate = EntriesDelegate::new();
    let all = entries(ROWS);

    let start = Instant::now();
    for chunk in all.chunks(500) {
        extend(&mut delegate, chunk);
    }
    let elapsed = start.elapsed();

    assert_eq!(delegate.shown(), ROWS);
    assert!(
        elapsed < Duration::from_secs(5),
        "streaming took {elapsed:?}, which suggests a re-sort per batch"
    );
}

#[test]
fn a_filter_applies_to_rows_that_arrive_later() {
    let mut delegate = EntriesDelegate::new();
    set_filter(&mut delegate, "row-00001");

    for chunk in entries(10_000).chunks(500) {
        extend(&mut delegate, chunk);
    }

    assert!(delegate.shown() > 0);
    assert!(
        delegate.shown() < 100,
        "only matching rows should be visible, got {}",
        delegate.shown()
    );
    for ix in 0..delegate.shown() {
        let entry = delegate.entry(ix).unwrap();
        assert!(entry.name.contains("row-00001"), "leaked {}", entry.name);
    }
}

#[test]
fn a_new_table_is_empty_and_ordered_by_name() {
    let delegate = EntriesDelegate::new();
    assert_eq!(delegate.order(), (SortKey::Name, true));
    assert_eq!(delegate.total(), 0);
    assert!(!delegate.is_loading());
    assert!(!delegate.skeleton());
    assert!(!delegate.show_hidden());
    let columns = delegate.columns();
    assert_eq!(columns.len(), 3);
    assert_eq!(columns[0].title, "名称");
    assert_eq!(columns[0].sort, ColumnSort::Ascending);
    assert_eq!(columns[1].width, 110);
    assert!(columns[1].right);
    assert_eq!(columns[2].key, "modified");
}

#[test]
fn sorting_moves_the_mark_and_keeps_the_entries() {
    let mut delegate = EntriesDelegate::default();
    reset(&mut delegate, entries(3), false);
    delegate.perform_sort(1, ColumnSort::Descending, vec![2, 1, 0]);
    assert_eq!(delegate.order(), (SortKey::Size, false));
    assert_eq!(
        order_by(1, ColumnSort::Descending),
        (SortKey::Size, false)
    );
    let marks: Vec<ColumnSort> = delegate.columns().iter().map(|c| c.sort).collect();
    assert_eq!(
        marks,
        [
            ColumnSort::Default,
            ColumnSort::Descending,
            ColumnSort::Default
        ]
    );
    assert_eq!(delegate.entry(0).unwrap().name, "row-000002.txt");
    assert_eq!(delegate.entries()[0].name, "row-000000.txt");

    delegate.perform_sort(2, ColumnSort::Default, vec![0, 1, 2]);
    assert_eq!(delegate.order(), (SortKey::Modified, true));
    delegate.perform_sort(0, ColumnSort::Ascending, vec![0, 1, 2]);
    assert_eq!(delegate.order(), (SortKey::Name, true));
}

#[test]
fn the_skeleton_shows_only_before_anything_arrives() {
    let mut delegate = EntriesDelegate::new();
    delegate.clear(true);
    assert!(delegate.skeleton());
    extend(&mut delegate, &entries(1));
    assert!(delegate.is_loading());
    assert!(!delegate.skeleton());
}

#[test]
fn cells_show_the_entry() {
    let mut delegate = EntriesDelegate::new();
    let mut rows = entries(1);
    rows.push(DirEntry {
        name: "docs".to_string(),
        path: "docs/".to_string(),
        kind: EntryKind::Dir,
        size: None,
    });
    delegate.reset(
        Rows {
            entries: rows,
            view: vec![1, 0],
        },
        false,
    );
    match delegate.cell(0, 0, "s", "m", "—") {
        Cell::Name { icon, accent, text } => {
            assert_eq!(icon, Icon::Folder);
            assert!(accent);
            assert_eq!(text, "docs");
        }
        other => panic!("{other:?}"),
    }
    assert!(matches!(delegate.cell(0, 1, "s", "m", "—"), Cell::Size { text } if text == "—"));
    assert!(matches!(delegate.cell(1, 1, "s", "m", "—"), Cell::Size { text } if text == "s"));
    assert!(matches!(delegate.cell(1, 2, "s", "m", "—"), Cell::Modified { text } if text == "m"));
    assert!(matches!(
        delegate.cell(1, 0, "s", "m", "—"),
        Cell::Name {
            icon: Icon::File,
            accent: false,
            ..
        }
    ));
    assert!(matches!(delegate.cell(1, 3, "s", "m", "—"), Cell::Blank));
    assert!(matches!(delegate.cell(2, 0, "s", "m", "—"), Cell::Blank));
}

#[test]
fn the_menu_keeps_what_cannot_be_done_but_disables_it() {
    let mut delegate = EntriesDelegate::new();
    reset(&mut delegate, entries(1), false);
    let offers = Some(vec![
        Offer {
            action: EntryAction::Rename,
            label: "重命名".to_string(),
            enabled: true,
        },
        Offer {
            action: EntryAction::ShowVersions,
            label: "版本历史（该后端不支持版本历史）".to_string(),
            enabled: false,
        },
    ]);
    let menu = delegate.context_menu(0, &offers);
    assert_eq!(menu.len(), 2);
    assert!(!menu[0].disabled);
    assert_eq!(menu[1].action, EntryAction::ShowVersions);
    assert!(menu[1].disabled);
    assert_eq!(menu[1].label, "版本历史（该后端不支持版本历史）");
    assert!(delegate.context_menu(1, &offers).is_empty());
    assert!(delegate.context_menu(0, &None).is_empty());
}

#[test]
fn a_row_that_points_nowhere_has_no_entry() {
    let mut delegate = EntriesDelegate::new();
    delegate.reset(
        Rows {
            entries: entries(1),
            view: vec![7],
        },
        false,
    );
    assert!(delegate.entry(0).is_none());
}

#[test]
fn kinds_have_labels() {
    assert_eq!(kind_label(EntryKind::Dir), "目录");
    assert_eq!(kind_label(EntryKind::File), "文件");
    assert_eq!(kind_label(EntryKind::Unknown), "未知");
}

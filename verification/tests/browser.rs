use std::collections::BTreeMap;

use roam_ui::browser::{
    Batch, Browser, EntryReaction, Expansion, Job, Listing, Mutation, ObjectVersion, TableEvent,
    TableReaction, Tool, Versions, action_open, copy_share_link, create_folder, delete_dialog, download,
    duplicate, new_folder_dialog, on_entry_action, on_table_event, plan_and_queue, rename_dialog,
    rename_entry, restore_version, selected_entry, show_versions, taken_names, toggle_hidden,
    version_columns, version_rows, versions_dialog,
};
use roam_ui::delegate::EntriesDelegate;
use roam_ui::entry::{Capability, DirEntry, EntryAction, EntryKind, Icon, Rows};

const LOCAL: Capability = Capability {
    write: true,
    create_dir: true,
    rename: true,
    copy: true,
    presign: false,
    delete_with_recursive: true,
    list_with_versions: false,
};

fn entry(path: &str) -> DirEntry {
    let dir = path.ends_with('/');
    let name = path.trim_end_matches('/').rsplit('/').next().unwrap();
    DirEntry {
        name: name.to_string(),
        path: path.to_string(),
        kind: if dir {
            EntryKind::Dir
        } else {
            EntryKind::File
        },
        size: None,
    }
}

/// Directories first, then names without regard to case.
fn view(entries: &[DirEntry], filter: &str) -> Vec<u32> {
    let mut view: Vec<u32> = (0..entries.len() as u32)
        .filter(|&i| {
            let name = &entries[i as usize].name;
            name.to_lowercase().contains(&filter.to_lowercase())
        })
        .collect();
    view.sort_by_key(|&i| {
        let e = &entries[i as usize];
        (!e.is_dir(), e.name.to_lowercase())
    });
    view
}

fn parent(dir: &str) -> Option<&str> {
    let trimmed = dir.strip_suffix('/')?;
    Some(match trimmed.rfind('/') {
        Some(i) => &trimmed[..i + 1],
        None => "",
    })
}

/// A pane over a tree in memory.
struct Harness {
    tree: BTreeMap<String, Vec<String>>,
    cache: BTreeMap<String, Vec<String>>,
    browser: Browser,
    table: EntriesDelegate,
}

impl Harness {
    fn new() -> Self {
        let mut tree = BTreeMap::new();
        let mut dir = |name: &str, paths: &[&str]| {
            tree.insert(
                name.to_string(),
                paths.iter().map(|p| p.to_string()).collect::<Vec<_>>(),
            );
        };
        dir("", &["README.md", "notes.txt", "documents/", "media/"]);
        dir("documents/", &["documents/contract.pdf", "documents/reports/"]);
        dir("documents/reports/", &["documents/reports/q1.xlsx"]);
        dir("media/", &[]);
        let (browser, table, listing) = Browser::new("本机", LOCAL);
        let mut harness = Harness {
            tree,
            cache: BTreeMap::new(),
            browser,
            table,
        };
        harness.settle(listing);
        harness
    }

    fn entries(paths: &[String]) -> Vec<DirEntry> {
        paths.iter().map(|path| entry(path)).collect()
    }

    fn rows(&self, entries: Vec<DirEntry>) -> Rows {
        let view = view(&entries, self.table.filter());
        Rows { entries, view }
    }

    fn cached(&self, dir: &str) -> Option<Rows> {
        self.cache
            .get(dir)
            .map(|paths| self.rows(Self::entries(paths)))
    }

    /// Streams the listing, one entry per batch, and completes it.
    fn settle(&mut self, mut listing: Listing) {
        let paths = self.tree[&listing.dir].clone();
        for path in &paths {
            let batch = vec![entry(path)];
            let generation = listing.generation;
            let batch = if listing.take_batch(&batch) {
                Batch::First(self.rows(batch))
            } else {
                let filter = self.table.filter().to_string();
                let matching = batch
                    .iter()
                    .map(|e| e.name.to_lowercase().contains(&filter.to_lowercase()))
                    .collect();
                Batch::Later {
                    entries: batch,
                    matching,
                }
            };
            assert!(self.browser.on_batch(&mut self.table, generation, batch));
        }
        let order = view(&listing.collected, self.table.filter());
        let dir = self
            .browser
            .on_complete(&mut self.table, listing, order)
            .unwrap();
        self.cache.insert(dir, paths);
    }

    fn names(&self) -> Vec<String> {
        (0..self.table.shown())
            .filter_map(|ix| self.table.entry(ix))
            .map(|entry| entry.name.clone())
            .collect()
    }

    fn row_of(&self, name: &str) -> usize {
        self.names().iter().position(|n| n == name).unwrap()
    }

    fn entry(&self, name: &str) -> DirEntry {
        self.table.entry(self.row_of(name)).unwrap().copy()
    }

    fn navigate(&mut self, dir: &str) {
        let cached = self.cached(dir);
        let listing = self
            .browser
            .navigate_to_dir(&mut self.table, dir, cached);
        self.settle(listing);
    }

    fn double_click(&mut self, name: &str) {
        let row = self.row_of(name);
        match on_table_event(&self.table, TableEvent::DoubleClickedRow(row)) {
            TableReaction::Navigate(dir) => self.navigate(&dir),
            TableReaction::Nothing => {}
            TableReaction::Preview(_) => panic!("a double click does not preview"),
        }
    }

    fn enter(&mut self, row: Option<usize>) {
        if let Some(dir) = action_open(&self.table, row) {
            self.navigate(&dir);
        }
    }

    fn click_back(&mut self) {
        let cached = self.browser.previous().and_then(|dir| self.cached(dir));
        if let Some(listing) = self.browser.go_back(&mut self.table, cached) {
            self.settle(listing);
        }
    }

    fn click_forward(&mut self) {
        let cached = self.browser.next().and_then(|dir| self.cached(dir));
        if let Some(listing) = self.browser.go_forward(&mut self.table, cached) {
            self.settle(listing);
        }
    }

    fn click_up(&mut self) {
        let cwd = self.browser.cwd().to_string();
        let up = parent(&cwd);
        let cached = up.and_then(|dir| self.cached(dir));
        if let Some(listing) = self.browser.go_up(&mut self.table, up, cached) {
            self.settle(listing);
        }
    }

    fn set_filter(&mut self, text: &str) {
        let order = view(self.table.entries(), text);
        self.table.set_filter(text, order);
    }

    /// Runs a job on the tree and reports how it ended.
    fn mutate(&mut self, job: Job, change: impl Fn(&mut BTreeMap<String, Vec<String>>)) -> String {
        let Job::Mutate { done, .. } = job else {
            panic!("not a mutation: {job:?}");
        };
        self.browser.begin_mutation();
        assert!(self.browser.is_busy());
        change(&mut self.tree);
        self.cache.remove(self.browser.cwd());
        let end = self
            .browser
            .finish_mutation(&mut self.table, Ok(()), done);
        self.settle(end.listing.unwrap());
        assert!(!self.browser.is_busy());
        end.message
    }
}

#[test]
fn lists_the_root_with_directories_first() {
    let h = Harness::new();
    assert_eq!(
        h.names(),
        vec!["documents", "media", "notes.txt", "README.md"]
    );
    assert_eq!(h.browser.cwd(), "");
    assert_eq!(h.browser.label(), "本机");
    assert!(!h.browser.is_busy());
}

#[test]
fn double_clicking_a_directory_navigates_into_it() {
    let mut h = Harness::new();
    h.double_click("documents");
    assert_eq!(h.browser.cwd(), "documents/");
    assert_eq!(h.names(), vec!["reports", "contract.pdf"]);
}

#[test]
fn double_clicking_a_file_stays_put() {
    let mut h = Harness::new();
    h.double_click("README.md");
    assert_eq!(h.browser.cwd(), "", "a file is not somewhere to navigate to");
}

#[test]
fn navigation_nests_two_levels_deep() {
    let mut h = Harness::new();
    h.double_click("documents");
    h.double_click("reports");
    assert_eq!(h.browser.cwd(), "documents/reports/");
    assert_eq!(h.names(), vec!["q1.xlsx"]);
}

#[test]
fn up_goes_to_the_parent_and_stops_at_the_root() {
    let mut h = Harness::new();
    h.double_click("documents");
    h.double_click("reports");

    h.click_up();
    assert_eq!(h.browser.cwd(), "documents/");

    h.click_up();
    assert_eq!(h.browser.cwd(), "");

    h.click_up();
    assert_eq!(h.browser.cwd(), "");
}

#[test]
fn back_and_forward_retrace_the_visited_path() {
    let mut h = Harness::new();
    assert!(!h.browser.can_go_back());
    h.double_click("documents");
    h.double_click("reports");
    assert_eq!(h.browser.cwd(), "documents/reports/");

    h.click_back();
    assert_eq!(h.browser.cwd(), "documents/");
    h.click_back();
    assert_eq!(h.browser.cwd(), "");
    h.click_back();
    assert_eq!(h.browser.cwd(), "");

    h.click_forward();
    assert_eq!(h.browser.cwd(), "documents/");
    h.click_forward();
    assert_eq!(h.browser.cwd(), "documents/reports/");
    assert!(!h.browser.can_go_forward());

    h.click_back();
    h.navigate("media/");
    assert!(!h.browser.can_go_forward());
}

#[test]
fn staying_in_a_directory_leaves_no_history() {
    let mut h = Harness::new();
    h.double_click("documents");
    h.navigate("documents/");
    h.click_back();
    assert_eq!(h.browser.cwd(), "");
}

#[test]
fn a_stale_batch_cannot_overwrite_a_newer_directory() {
    let mut h = Harness::new();
    let stale = h.browser.navigate_to_dir(&mut h.table, "media/", None);
    h.navigate("documents/");
    let before = h.names();

    let empty = Batch::First(Rows {
        entries: Vec::new(),
        view: Vec::new(),
    });
    assert!(!h.browser.on_batch(&mut h.table, stale.generation, empty));
    assert_eq!(h.names(), before, "stale batch was ignored");
    assert!(
        !h.browser
            .on_error(&mut h.table, stale.generation, "boom", false)
    );
    assert!(h.browser.error_message().is_none());
    assert!(
        h.browser
            .on_complete(&mut h.table, stale, Vec::new())
            .is_none()
    );
    assert_eq!(h.names(), before);
}

#[test]
fn revisiting_a_directory_serves_the_cache_before_the_refresh() {
    let mut h = Harness::new();
    h.double_click("documents");
    h.click_back();

    let cached = h.cached("documents/");
    let listing = h
        .browser
        .navigate_to_dir(&mut h.table, "documents/", cached);
    assert_eq!(
        h.names(),
        vec!["reports", "contract.pdf"],
        "cache hit should render without waiting for the backend"
    );
    assert!(h.browser.is_busy());

    h.settle(listing);
    assert_eq!(h.names(), vec!["reports", "contract.pdf"]);
}

#[test]
fn an_empty_fresh_listing_clears_cached_rows() {
    let mut h = Harness::new();
    h.double_click("documents");
    h.click_back();
    h.tree.insert("documents/".to_string(), Vec::new());
    h.navigate("documents/");
    assert!(h.names().is_empty());
}

#[test]
fn a_failed_listing_shows_its_reason_and_no_rows() {
    let mut h = Harness::new();
    let listing = h.browser.reload(&mut h.table);
    assert!(
        !h.browser
            .on_error(&mut h.table, listing.generation, "cancelled", true)
    );
    assert!(h.browser.is_busy());
    assert!(
        h.browser
            .on_error(&mut h.table, listing.generation, "没有访问权限", false)
    );
    assert_eq!(h.browser.error_message(), Some("没有访问权限"));
    assert!(!h.browser.is_busy());
    assert!(h.names().is_empty());
    h.navigate("media/");
    assert!(h.browser.error_message().is_none());
}

#[test]
fn history_is_cleared_when_the_session_changes() {
    let mut h = Harness::new();
    h.double_click("documents");
    let remote = Capability {
        rename: false,
        ..LOCAL
    };
    let listing = h.browser.set_vfs(&mut h.table, "远端", remote);
    assert!(
        !h.browser.can_go_back(),
        "history from the old session was discarded"
    );
    assert!(!h.browser.can_go_forward());
    assert_eq!(h.browser.cwd(), "");
    assert_eq!(h.browser.label(), "远端");
    assert!(!h.browser.capability().rename);
    assert!(h.names().is_empty(), "nothing of the old session shows");
    assert_eq!(listing.dir, "");
}

#[test]
fn creating_a_folder_shows_it_in_the_listing() {
    let mut h = Harness::new();
    let job = create_folder(Ok(()), "新文件夹/").expect("a valid name");
    assert!(
        matches!(&job, Job::Mutate { mutation: Mutation::CreateDir { path }, .. } if path == "新文件夹/")
    );
    let message = h.mutate(job, |tree| {
        tree.get_mut("").unwrap().push("新文件夹/".to_string());
    });
    assert_eq!(message, "新建文件夹完成");
    assert!(h.names().contains(&"新文件夹".to_string()));
}

#[test]
fn a_folder_name_with_a_slash_is_refused() {
    let reason = create_folder(Err("名称不能包含 /"), "a/b/").expect_err("should be refused");
    assert_eq!(reason, "名称不能包含 /");
}

#[test]
fn an_empty_folder_name_is_refused() {
    assert_eq!(
        create_folder(Err("名称不能为空"), "/").unwrap_err(),
        "名称不能为空"
    );
}

#[test]
fn renaming_replaces_the_row() {
    let mut h = Harness::new();
    let job = rename_entry(&h.entry("README.md"), "介绍.md", Ok(()), "介绍.md")
        .expect("a valid name")
        .unwrap();
    assert!(matches!(
        &job,
        Job::Mutate { mutation: Mutation::Rename { from, to }, .. }
            if from == "README.md" && to == "介绍.md"
    ));
    let message = h.mutate(job, |tree| {
        tree.get_mut("").unwrap()[0] = "介绍.md".to_string();
    });
    assert_eq!(message, "重命名完成");
    let names = h.names();
    assert!(names.contains(&"介绍.md".to_string()));
    assert!(!names.contains(&"README.md".to_string()));
}

#[test]
fn renaming_to_the_same_name_is_a_no_op() {
    let h = Harness::new();
    let job = rename_entry(&h.entry("README.md"), "README.md", Ok(()), "README.md");
    assert!(job.expect("not an error").is_none());
    let job = rename_entry(&h.entry("README.md"), "", Err("名称不能为空"), "");
    assert_eq!(job.unwrap_err(), "名称不能为空");
}

#[test]
fn renaming_a_directory_is_a_move() {
    let h = Harness::new();
    let job = rename_entry(&h.entry("documents"), "档案", Ok(()), "档案/").unwrap();
    assert!(matches!(
        job.unwrap(),
        Job::Queue { plan: Expansion::MoveDir { from, to }, what: "移动" }
            if from == "documents/" && to == "档案/"
    ));
}

#[test]
fn duplicating_a_file_is_one_copy_and_a_directory_is_many() {
    let h = Harness::new();
    assert_eq!(
        taken_names(&h.table),
        vec!["README.md", "notes.txt", "documents", "media"]
    );
    assert!(matches!(
        duplicate(&h.entry("README.md"), "README 副本.md"),
        Job::Mutate { mutation: Mutation::Copy { from, to }, done: "创建副本完成" }
            if from == "README.md" && to == "README 副本.md"
    ));
    assert!(matches!(
        duplicate(&h.entry("documents"), "documents 副本/"),
        Job::Queue { plan: Expansion::DuplicateDir { from, to }, what: "创建副本" }
            if from == "documents/" && to == "documents 副本/"
    ));
}

#[test]
fn deleting_a_file_removes_the_row() {
    let mut h = Harness::new();
    let job = h.browser.delete_entry(&h.entry("notes.txt"));
    assert!(
        matches!(&job, Job::Mutate { mutation: Mutation::Delete { path }, .. } if path == "notes.txt")
    );
    let message = h.mutate(job, |tree| {
        tree.get_mut("").unwrap().retain(|path| path != "notes.txt");
    });
    assert_eq!(message, "删除完成");
    assert!(!h.names().contains(&"notes.txt".to_string()));
}

#[test]
fn deleting_a_directory_where_versions_are_kept_says_so() {
    let mut h = Harness::new();
    let versioned = Capability {
        list_with_versions: true,
        ..LOCAL
    };
    let directory = entry("documents/");
    let file = entry("a.txt");
    let _ = h.browser.set_vfs(&mut h.table, "s3", versioned);
    assert!(matches!(
        h.browser.delete_entry(&directory),
        Job::Mutate {
            done: "已删除目录内容；该后端保留版本历史，空目录名可能仍会显示",
            ..
        }
    ));
    assert!(matches!(
        h.browser.delete_entry(&file),
        Job::Mutate {
            done: "删除完成",
            ..
        }
    ));
}

#[test]
fn a_failed_mutation_reports_and_lists_nothing() {
    let mut h = Harness::new();
    h.browser.begin_mutation();
    h.browser.begin_mutation();
    let before = h.names();
    let end = h
        .browser
        .finish_mutation(&mut h.table, Err("拒绝".to_string()), "完成");
    assert_eq!(end.message, "拒绝");
    assert!(end.listing.is_none());
    assert_eq!(h.names(), before);
    assert!(h.browser.is_busy(), "the other one is still running");
    let _ = h
        .browser
        .finish_mutation(&mut h.table, Err("拒绝".to_string()), "完成");
    assert!(!h.browser.is_busy());
    let _ = h
        .browser
        .finish_mutation(&mut h.table, Err("拒绝".to_string()), "完成");
    assert!(!h.browser.is_busy());
}

#[test]
fn dropping_local_files_uploads_them_into_the_current_directory() {
    let mut h = Harness::new();
    h.double_click("documents");
    match h.browser.upload_dropped(1) {
        Some(Ok(Job::Queue {
            plan: Expansion::Upload { into },
            what,
        })) => {
            assert_eq!(into, "documents/");
            assert_eq!(what, "上传");
        }
        other => panic!("{other:?}"),
    }
    assert!(h.browser.upload_dropped(0).is_none());
    let read_only = Capability {
        write: false,
        ..LOCAL
    };
    let _ = h.browser.set_vfs(&mut h.table, "归档", read_only);
    assert_eq!(
        h.browser.upload_dropped(2).unwrap().unwrap_err(),
        "归档 不支持写入"
    );
    assert!(h.browser.upload_dropped(0).is_none());
}

#[test]
fn downloads_need_a_place_to_go() {
    let file = entry("README.md");
    assert!(matches!(
        download(&file, Some("/home/u/Downloads")).unwrap(),
        Job::Queue { plan: Expansion::Download { path, dest }, what: "下载" }
            if path == "README.md" && dest == "/home/u/Downloads"
    ));
    assert_eq!(download(&file, None).unwrap_err(), "找不到下载目录");
}

#[test]
fn an_empty_plan_queues_nothing() {
    let end = plan_and_queue("下载", Ok(0));
    assert!(!end.enqueue);
    assert_eq!(end.message, "没有可下载的文件");
    let end = plan_and_queue("上传", Ok(12));
    assert!(end.enqueue);
    assert_eq!(end.message, "已加入 12 个上传任务");
    let end = plan_and_queue("移动", Err("断开".to_string()));
    assert!(!end.enqueue);
    assert_eq!(end.message, "断开");
}

#[test]
fn share_links_are_copied_where_there_are_any() {
    let link = copy_share_link(Ok(Some("https://x/y".to_string())));
    assert_eq!(link.copied.as_deref(), Some("https://x/y"));
    assert_eq!(link.message, "已复制分享链接（10 分钟内有效）");
    let link = copy_share_link(Ok(None));
    assert!(link.copied.is_none());
    assert_eq!(link.message, "该后端不支持分享链接");
    assert_eq!(copy_share_link(Err("断开".to_string())).message, "断开");
}

#[test]
fn versions_open_only_where_there_are_any() {
    assert!(matches!(show_versions(Ok(2)), Versions::Open));
    assert!(matches!(show_versions(Ok(0)), Versions::Notify(m) if m == "这个对象没有版本记录"));
    assert!(
        matches!(show_versions(Err("断开".to_string())), Versions::Notify(m) if m == "断开")
    );
}

fn version(id: Option<&str>, is_current: bool, is_delete_marker: bool) -> ObjectVersion {
    ObjectVersion {
        id: id.map(String::from),
        short_id: "abc…".to_string(),
        modified: "昨天".to_string(),
        size: "3 B".to_string(),
        is_current,
        is_delete_marker,
    }
}

#[test]
fn only_old_content_with_an_id_can_be_restored() {
    let rows = version_rows(&vec![
        version(Some("v4"), true, false),
        version(Some("v3"), false, true),
        version(Some("v2"), false, false),
        version(None, false, false),
    ]);
    assert_eq!(rows.len(), 4);
    assert_eq!(rows[0].status, "当前版本");
    assert!(rows[0].restores.is_none());
    assert_eq!(rows[1].size, "删除标记");
    assert_eq!(rows[1].status, "");
    assert!(rows[1].restores.is_none());
    assert_eq!(rows[2].status, "历史版本");
    assert_eq!(rows[2].size, "3 B");
    assert_eq!(rows[2].version, "abc…");
    assert_eq!(rows[2].restores.as_deref(), Some("v2"));
    assert!(rows[3].restores.is_none());
    assert_eq!(version_columns()[2], ("大小", Some(70)));
    assert!(matches!(
        restore_version(&entry("a.txt"), "v2"),
        Job::Mutate { mutation: Mutation::RestoreVersion { path, version }, done: "已恢复该版本（作为新版本写入）" }
            if path == "a.txt" && version == "v2"
    ));
}

#[test]
fn the_filter_narrows_the_visible_rows() {
    let mut h = Harness::new();
    assert_eq!(h.names().len(), 4);
    h.set_filter("read");
    assert_eq!(h.names(), vec!["README.md"]);
}

#[test]
fn clearing_the_filter_restores_every_row() {
    let mut h = Harness::new();
    h.set_filter("read");
    assert_eq!(h.names().len(), 1);
    h.set_filter("");
    assert_eq!(h.names().len(), 4, "the entries were never discarded");
}

#[test]
fn the_filter_survives_navigation_reset() {
    let mut h = Harness::new();
    h.set_filter("contract");
    assert!(h.names().is_empty());

    h.set_filter("");
    h.double_click("documents");
    h.set_filter("contract");
    assert_eq!(h.names(), vec!["contract.pdf"]);
    h.navigate("documents/reports/");
    assert_eq!(h.table.filter(), "contract");
    assert!(h.names().is_empty());
}

#[test]
fn enter_opens_the_selected_directory() {
    let mut h = Harness::new();
    let row = h.row_of("documents");
    h.enter(Some(row));
    assert_eq!(h.browser.cwd(), "documents/");
}

#[test]
fn enter_on_a_file_does_nothing() {
    let mut h = Harness::new();
    let row = h.row_of("README.md");
    h.enter(Some(row));
    assert_eq!(h.browser.cwd(), "", "a file is not somewhere to navigate to");
}

#[test]
fn shortcuts_do_nothing_when_no_row_is_selected() {
    let mut h = Harness::new();
    h.enter(None);
    assert_eq!(h.browser.cwd(), "");
    assert!(selected_entry(&h.table, None).is_none());
    assert!(selected_entry(&h.table, Some(99)).is_none());
}

#[test]
fn space_toggles_the_preview_panel() {
    let mut h = Harness::new();
    assert!(!h.browser.preview_open());

    let row = h.row_of("notes.txt");
    let shown = h.browser.action_toggle_preview(&h.table, Some(row));
    assert!(h.browser.preview_open());
    assert_eq!(shown.unwrap().unwrap().name, "notes.txt");

    assert!(h.browser.action_toggle_preview(&h.table, Some(row)).is_none());
    assert!(!h.browser.preview_open());
}

#[test]
fn selecting_a_row_previews_it() {
    let h = Harness::new();
    let row = h.row_of("notes.txt");
    assert!(matches!(
        on_table_event(&h.table, TableEvent::SelectRow(row)),
        TableReaction::Preview(Some(entry)) if entry.path == "notes.txt"
    ));
    assert!(matches!(
        on_table_event(&h.table, TableEvent::SelectRow(99)),
        TableReaction::Preview(None)
    ));
    assert!(matches!(
        on_table_event(&h.table, TableEvent::Other),
        TableReaction::Nothing
    ));
}

#[test]
fn dotfiles_are_hidden_without_listing_again() {
    let mut h = Harness::new();
    h.tree.get_mut("").unwrap().push(".git/".to_string());
    let listing = h.browser.reload(&mut h.table);
    h.settle(listing);
    assert!(!h.names().contains(&".git".to_string()));
    let order = view(h.table.entries(), "");
    assert!(toggle_hidden(&mut h.table, order));
    assert_eq!(h.names()[0], ".git");
    let order = view(h.table.entries(), "");
    assert!(!toggle_hidden(&mut h.table, order));
    assert_eq!(
        h.names(),
        vec!["documents", "media", "notes.txt", "README.md"]
    );
    assert_eq!(h.table.total(), 5);
}

#[test]
fn menu_choices_lead_to_their_reactions() {
    let file = entry("a/b.txt");
    assert!(matches!(
        on_entry_action(EntryAction::CopyPath, &file),
        EntryReaction::CopyText { text, notice: "已复制路径" } if text == "a/b.txt"
    ));
    assert!(matches!(
        on_entry_action(EntryAction::CopyShareLink, &file),
        EntryReaction::SignLink { path, seconds: 600 } if path == "a/b.txt"
    ));
    assert!(matches!(
        on_entry_action(EntryAction::Delete, &file),
        EntryReaction::ConfirmDelete
    ));
    assert!(matches!(
        on_entry_action(EntryAction::Reload, &file),
        EntryReaction::Reload
    ));
}

#[test]
fn deleting_asks_first() {
    let (dialog, body) = delete_dialog(&entry("documents/"));
    assert_eq!(dialog.title, "删除 documents？");
    assert_eq!(body, "「documents」及其全部内容将被删除，此操作无法撤销。");
    assert!(!dialog.overlay_closable && !dialog.close_button);
    assert_eq!(dialog.footer.len(), 2);
    let (_, body) = delete_dialog(&entry("a.txt"));
    assert_eq!(body, "「a.txt」将被删除，此操作无法撤销。");
}

#[test]
fn prompts_have_titles_and_buttons() {
    assert_eq!(new_folder_dialog().title, "新建文件夹");
    assert_eq!(new_folder_dialog().footer[1].label, "创建");
    assert_eq!(rename_dialog(&entry("a.txt")).title, "重命名 · a.txt");
    let versions = versions_dialog(&entry("a.txt"));
    assert_eq!(versions.title, "版本历史 · a.txt");
    assert_eq!(versions.footer[0].label, "关闭");
    assert!(!versions.enter_runs);
}

#[test]
fn the_toolbar_follows_the_pane() {
    let mut h = Harness::new();
    let bar = h.browser.toolbar(&h.table, false);
    assert_eq!(bar[0].tool, Tool::Back);
    assert_eq!(bar[6].tool, Tool::NewFolder);
    let ids: Vec<&str> = bar.iter().map(|b| b.id).collect();
    assert_eq!(
        ids,
        [
            "back",
            "forward",
            "up",
            "reload",
            "toggle-hidden",
            "toggle-preview",
            "new-folder"
        ]
    );
    assert!(bar[0].disabled && bar[1].disabled && bar[2].disabled);
    assert!(!bar[3].loading);
    assert_eq!(bar[4].icon, Icon::EyeOff);
    assert_eq!(bar[4].tooltip, "显示点文件（⌘⇧.）");
    assert_eq!(bar[6].tooltip, "新建文件夹");
    assert!(!bar[6].disabled);
    h.double_click("documents");
    let bar = h.browser.toolbar(&h.table, true);
    assert!(!bar[0].disabled && bar[1].disabled && !bar[2].disabled);
    assert!(h.browser.action_new_folder());

    let flat = Capability {
        create_dir: false,
        ..LOCAL
    };
    let _ = h.browser.set_vfs(&mut h.table, "桶", flat);
    let bar = h.browser.toolbar(&h.table, false);
    assert!(bar[3].loading);
    assert!(bar[6].disabled);
    assert_eq!(bar[6].tooltip, "桶 不支持新建目录");
    assert!(!h.browser.action_new_folder());
}

#[test]
fn the_status_bar_says_both_numbers_while_filtering() {
    let mut h = Harness::new();
    let bar = h.browser.status_bar(&h.table);
    assert_eq!(bar.count, "4 项");
    assert!(bar.note.is_none());
    assert_eq!(bar.session, "fs · 本机");
    h.set_filter("read");
    assert_eq!(h.browser.status_bar(&h.table).count, "1 / 4 项");
    let _ = h.browser.reload(&mut h.table);
    assert_eq!(h.browser.status_bar(&h.table).note, Some("正在载入…"));
}

#[test]
fn a_new_pane_opens_where_the_other_is() {
    let mut h = Harness::new();
    h.double_click("documents");
    let (beside, table, listing) = h.browser.open_beside();
    assert_eq!(beside.cwd(), "documents/");
    assert_eq!(beside.label(), "本机");
    assert_eq!(table.total(), 0);
    assert_eq!(listing.dir, "documents/");
    assert!(beside.can_go_back());
}

/// Every dialog gets its buttons from one place: each has something to click, and a way out.
#[test]
fn no_view_builds_its_own_dialog_buttons() {
    let file = entry("a.txt");
    for dialog in [
        new_folder_dialog(),
        rename_dialog(&file),
        versions_dialog(&file),
        delete_dialog(&file).0,
        roam_ui::workspace::form_dialog(None),
        roam_ui::workspace::form_dialog(Some("远端")),
    ] {
        assert!(!dialog.footer.is_empty(), "{}", dialog.title);
        assert!(
            dialog
                .footer
                .iter()
                .any(|button| button.action == roam_ui::dialog::ButtonAction::Close),
            "{}",
            dialog.title
        );
    }
}

#[test]
fn a_mutation_refreshes_the_listing_rather_than_serving_the_cache() {
    let mut h = Harness::new();
    h.double_click("documents");
    h.click_back();
    assert!(h.names().contains(&"notes.txt".to_string()));

    h.browser.begin_mutation();
    let end = h
        .browser
        .finish_mutation(&mut h.table, Ok(()), "删除完成");
    assert!(h.names().is_empty(), "nothing known from before is shown");
    h.tree.get_mut("").unwrap().retain(|path| path != "notes.txt");
    h.settle(end.listing.unwrap());
    assert!(!h.names().contains(&"notes.txt".to_string()));

    let listing = h.browser.reload(&mut h.table);
    assert!(h.names().is_empty());
    h.settle(listing);
    assert_eq!(h.names(), vec!["documents", "media", "README.md"]);
}

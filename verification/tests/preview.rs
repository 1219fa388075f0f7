use roam_ui::entry::{DirEntry, EntryKind};
use roam_ui::preview::{ImageKind, PreviewKind, PreviewPanel, ReadRequest, meta, truncation_note};

const TEXT_LIMIT: u64 = 256 * 1024;

fn entry(path: &str, kind: EntryKind) -> DirEntry {
    DirEntry {
        name: path.trim_end_matches('/').to_string(),
        path: path.to_string(),
        kind,
        size: Some(4),
    }
}

fn select(panel: &mut PreviewPanel, path: &str, kind: PreviewKind) -> ReadRequest {
    panel
        .set_entry(Some(entry(path, EntryKind::File)), kind, TEXT_LIMIT)
        .expect("a read")
}

fn load(panel: &mut PreviewPanel, path: &str, kind: PreviewKind, bytes: &[u8]) {
    let read = select(panel, path, kind);
    assert_eq!(panel.state_label(), "loading");
    let binary = bytes.contains(&0);
    assert!(panel.finish_read(&read, Ok(bytes.to_vec()), binary));
}

#[test]
fn the_panel_starts_empty() {
    let panel = PreviewPanel::new();
    assert_eq!(panel.state_label(), "idle");
    assert_eq!(panel.note(), Some("选中一个文件查看预览"));
    assert!(panel.entry().is_none());
}

#[test]
fn selecting_a_text_file_shows_its_contents() {
    let mut panel = PreviewPanel::new();
    load(&mut panel, "notes.txt", PreviewKind::Text, b"note");
    assert_eq!(panel.state_label(), "text");
    assert_eq!(panel.body_text().unwrap(), "note");
    assert!(panel.note().is_none());
}

#[test]
fn a_markdown_file_is_rendered_as_markdown() {
    let mut panel = PreviewPanel::new();
    load(&mut panel, "README.md", PreviewKind::Markdown, b"# readme");
    assert_eq!(panel.state_label(), "markdown");
    assert_eq!(panel.body_text().unwrap(), "# readme");
}

#[test]
fn a_directory_says_it_has_no_preview() {
    let mut panel = PreviewPanel::new();
    let read = panel.set_entry(
        Some(entry("documents/", EntryKind::Dir)),
        PreviewKind::Text,
        TEXT_LIMIT,
    );
    assert!(read.is_none());
    assert_eq!(panel.state_label(), "unavailable");
    assert_eq!(panel.body_text().unwrap(), "目录没有预览");
}

#[test]
fn a_binary_file_is_refused_by_extension() {
    let mut panel = PreviewPanel::new();
    let read = panel.set_entry(
        Some(entry("archive.zip", EntryKind::File)),
        PreviewKind::Unavailable("二进制文件，暂不预览"),
        0,
    );
    assert!(read.is_none());
    assert_eq!(panel.state_label(), "unavailable");
    assert_eq!(panel.body_text().unwrap(), "二进制文件，暂不预览");
}

#[test]
fn an_unlabelled_binary_is_caught_by_its_bytes() {
    let mut panel = PreviewPanel::new();
    load(
        &mut panel,
        "mystery.dat",
        PreviewKind::Text,
        b"header\x00\x01\x02binary",
    );
    assert_eq!(panel.state_label(), "unavailable");
    assert_eq!(panel.body_text().unwrap(), "二进制文件，暂不预览");
}

#[test]
fn a_large_text_file_is_truncated_and_says_so() {
    let mut panel = PreviewPanel::new();
    let big = vec![b'a'; TEXT_LIMIT as usize];
    load(&mut panel, "big.txt", PreviewKind::Text, &big);
    assert_eq!(panel.state_label(), "text");
    assert_eq!(
        panel.body_text().unwrap().len(),
        TEXT_LIMIT as usize,
        "read stops at the limit"
    );
    assert!(panel.is_truncated(), "and the panel says it was cut off");
    assert_eq!(truncation_note("256 KB"), "只显示前 256 KB");
}

#[test]
fn a_small_file_is_not_marked_truncated() {
    let mut panel = PreviewPanel::new();
    load(&mut panel, "notes.txt", PreviewKind::Text, b"note");
    assert!(!panel.is_truncated());
}

#[test]
fn moving_the_selection_replaces_the_preview() {
    let mut panel = PreviewPanel::new();
    load(&mut panel, "notes.txt", PreviewKind::Text, b"note");
    assert_eq!(panel.body_text().unwrap(), "note");
    load(&mut panel, "README.md", PreviewKind::Markdown, b"# readme");
    assert_eq!(panel.body_text().unwrap(), "# readme");
}

#[test]
fn selecting_the_same_entry_again_reads_nothing() {
    let mut panel = PreviewPanel::default();
    load(&mut panel, "notes.txt", PreviewKind::Text, b"note");
    let again = panel.set_entry(
        Some(entry("notes.txt", EntryKind::File)),
        PreviewKind::Text,
        TEXT_LIMIT,
    );
    assert!(again.is_none());
    assert_eq!(panel.body_text(), Some("note"));
}

#[test]
fn a_read_that_comes_too_late_is_discarded() {
    let mut panel = PreviewPanel::new();
    let late = select(&mut panel, "slow.txt", PreviewKind::Text);
    load(&mut panel, "notes.txt", PreviewKind::Text, b"note");
    assert!(!panel.finish_read(&late, Ok(b"slow".to_vec()), false));
    assert!(!panel.show_bytes(&late, b"slow".to_vec(), false, "slow".to_string()));
    assert_eq!(panel.body_text(), Some("note"));
    panel.set_vfs();
    assert_eq!(panel.state_label(), "idle");
}

#[test]
fn a_failed_read_says_why() {
    let mut panel = PreviewPanel::new();
    let read = select(&mut panel, "a.txt", PreviewKind::Text);
    assert!(panel.finish_read(&read, Err("断开".to_string()), false));
    assert_eq!(panel.note(), Some("断开"));
}

#[test]
fn images_keep_their_bytes() {
    let mut panel = PreviewPanel::new();
    load(
        &mut panel,
        "a.png",
        PreviewKind::Image(ImageKind::Png),
        b"\x89PNG\x00",
    );
    assert_eq!(panel.state_label(), "image");
    let (kind, bytes) = panel.image().unwrap();
    assert_eq!(kind, ImageKind::Png);
    assert_eq!(bytes, b"\x89PNG\x00");
    assert!(panel.body_text().is_none());
}

#[test]
fn bytes_that_are_no_text_are_replaced() {
    let mut panel = PreviewPanel::new();
    load(&mut panel, "a.txt", PreviewKind::Text, b"a\xffb");
    assert_eq!(panel.body_text(), Some("a\u{fffd}b"));
    load(
        &mut panel,
        "b.txt",
        PreviewKind::Text,
        "报告 é 😀".as_bytes(),
    );
    assert_eq!(panel.body_text(), Some("报告 é 😀"));
}

#[test]
fn the_head_names_the_entry() {
    let head = meta(&entry("a.txt", EntryKind::File), "4 B", "昨天");
    assert_eq!(
        (head.name, head.size, head.modified, head.path),
        (
            "a.txt".to_string(),
            "4 B".to_string(),
            "昨天".to_string(),
            "a.txt".to_string()
        )
    );
    assert_eq!(meta(&entry("d/", EntryKind::Dir), "4 B", "昨天").size, "目录");
}

use roam_ui::entry::Icon;
use roam_ui::transfer_panel::{Operation, TaskSnapshot, TransferPanel};

fn task(id: u64) -> TaskSnapshot {
    TaskSnapshot {
        id,
        label: format!("task-{id}"),
        operation: Operation::Download,
        status: "传输中".to_string(),
        finished: false,
        failed: None,
        done: "3.2 MB".to_string(),
        total: Some("40 MB".to_string()),
        rate: Some("1 MB".to_string()),
        has_fraction: true,
        retryable: false,
    }
}

fn failed(id: u64) -> TaskSnapshot {
    TaskSnapshot {
        finished: true,
        failed: Some("断开".to_string()),
        retryable: true,
        rate: None,
        ..task(id)
    }
}

#[test]
fn polling_starts_once_and_stops_when_all_is_done() {
    let mut panel = TransferPanel::new();
    assert!(panel.is_empty());
    assert!(!panel.refresh(vec![failed(1)], false));
    assert!(panel.refresh(vec![task(1)], true));
    assert!(!panel.refresh(vec![task(1), task(2)], true));
    assert!(panel.tick(vec![task(1)], true));
    assert!(!panel.tick(vec![failed(1)], false));
    panel.settle(vec![failed(1)]);
    assert!(panel.refresh(vec![task(3)], true));
    assert!(!panel.is_empty());
}

#[test]
fn the_header_counts() {
    let mut panel = TransferPanel::default();
    panel.refresh(vec![task(1), failed(2), task(3)], true);
    assert_eq!(panel.active_count(), 2);
    assert_eq!(panel.failed_count(), 1);
    let header = panel.header();
    assert_eq!(header.title, "传输 · 3 项");
    assert_eq!(header.active.as_deref(), Some("2 进行中"));
    assert_eq!(header.failed.as_deref(), Some("1 失败"));
    assert!(!header.cancel_all_disabled);
    assert!(header.retry_failed);
    assert!(!header.clear_finished_disabled);
    assert_eq!(header.toggle, Icon::ChevronDown);

    panel.toggle();
    assert!(!panel.is_expanded());
    panel.refresh(vec![task(1)], true);
    let header = panel.header();
    assert_eq!(header.toggle, Icon::ChevronUp);
    assert!(header.failed.is_none());
    assert!(!header.retry_failed);
    assert!(header.clear_finished_disabled);
    panel.refresh(vec![failed(1)], false);
    assert!(panel.header().cancel_all_disabled);
    assert!(panel.header().active.is_none());
}

#[test]
fn rows_say_how_far_a_task_is() {
    let mut panel = TransferPanel::new();
    let unknown = TaskSnapshot {
        operation: Operation::Upload,
        total: None,
        has_fraction: false,
        ..task(2)
    };
    panel.refresh(vec![task(1), unknown, failed(3)], true);
    let rows = panel.rows();
    assert_eq!(rows[0].id, 3);
    assert_eq!(rows[0].detail, "断开");
    assert!(rows[0].danger);
    assert!(rows[0].retry);
    assert!(rows[0].cancel_disabled);
    assert!(rows[0].speed.is_none());
    assert_eq!(rows[1].detail, "3.2 MB");
    assert_eq!(rows[1].icon, Icon::ArrowUp);
    assert!(!rows[1].progress);
    assert_eq!(rows[1].note, Some("大小未知"));
    assert_eq!(rows[2].detail, "3.2 MB / 40 MB");
    assert_eq!(rows[2].speed.as_deref(), Some("1 MB/s"));
    assert_eq!(rows[2].status, "传输中");
    assert_eq!(rows[2].icon, Icon::ArrowDown);
    assert!(rows[2].progress && rows[2].note.is_none());
}

#[test]
fn every_task_has_a_row() {
    let mut panel = TransferPanel::new();
    assert!(panel.panel().is_none());
    panel.refresh((0..60).map(task).collect(), true);
    let rows = panel.rows();
    assert_eq!(rows.len(), 60);
    assert_eq!(rows[0].id, 59);
    assert_eq!(rows[59].id, 0);
    assert!(rows.iter().all(|row| !row.cancel_disabled));
    assert_eq!(panel.panel().unwrap().rows.len(), 60);
    panel.toggle();
    let view = panel.panel().unwrap();
    assert!(view.rows.is_empty());
    assert_eq!(view.header.title, "传输 · 60 项");
}

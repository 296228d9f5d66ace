use heimdall::log::{RsContext, RsLog};
use heimdall::logs_panel::{LogsPanel, CHUNK_SIZE};
use heimdall::storage::{Storage, StorageError};
use heimdall::timestamp::Timestamp;

fn record(msg: &str) -> RsLog {
    RsLog::new(
        Timestamp::new(0, 0, 0),
        msg.to_string(),
        RsContext { app: String::new(), pid: 0, os: String::new(), version: String::new() },
        Vec::new(),
    )
}

fn filled(n: usize) -> Storage {
    let mut storage = Storage::new_memory();
    for i in 0..n {
        storage.add_log(record(&format!("m{i}"))).unwrap();
    }
    storage
}

fn panel(height: usize) -> LogsPanel {
    let mut panel = LogsPanel::new();
    panel.area_height = height;
    panel
}

fn shown_ids(panel: &LogsPanel) -> Vec<usize> {
    panel.get_visible_logs().iter().map(|(id, _)| *id).collect()
}

#[test]
fn new_panel_shows_nothing() {
    let panel = LogsPanel::new();
    assert_eq!(panel.selected, None);
    assert_eq!(panel.logs_scroll, 0);
    assert_eq!(panel.area_height, 0);
    assert!(panel.get_visible_logs().is_empty());
    assert_eq!(panel.selected_row(), 0);
    assert_eq!(panel.request, None);
    assert_eq!(CHUNK_SIZE, 64);
}

#[test]
fn empty_store_gives_an_empty_window_and_no_selection() {
    let mut panel = panel(10);
    panel.selected = Some(3);
    assert_eq!(panel.plan(0), None);
    assert_eq!(panel.selected, None);
    assert!(panel.get_visible_logs().is_empty());
    panel.update(&Storage::new_memory());
    assert_eq!(panel.selected, None);
    assert!(panel.get_visible_logs().is_empty());
}

#[test]
fn store_that_empties_drops_the_chunk() {
    let mut panel = panel(5);
    panel.update(&filled(20));
    assert_eq!(panel.get_visible_logs().len(), 5);
    panel.update(&Storage::new_memory());
    assert!(panel.visible_logs.is_empty());
    assert!(!panel.chunk_valid);
}

#[test]
fn first_update_selects_the_newest_and_fetches_the_first_chunk() {
    let mut panel = panel(10);
    assert_eq!(panel.plan(1000), Some((0, 74)));
    assert_eq!(panel.selected, Some(0));
    assert_eq!(panel.logs_scroll, 0);
    assert_eq!(panel.logs_amount, 1000);
    assert_eq!(panel.request, Some((0, 74, 1000)));
}

#[test]
fn scroll_keeps_the_selection_centred() {
    let mut panel = panel(10);
    for (selected, scroll) in [(0, 0), (4, 0), (5, 0), (6, 1), (100, 95), (994, 989), (995, 990), (999, 990)] {
        panel.selected = Some(selected);
        panel.plan(1000);
        assert_eq!(panel.logs_scroll, scroll, "selected {selected}");
    }
}

#[test]
fn scroll_with_odd_height() {
    let mut panel = panel(7);
    panel.selected = Some(10);
    panel.plan(100);
    assert_eq!(panel.logs_scroll, 7);
    panel.selected = Some(99);
    panel.plan(100);
    assert_eq!(panel.logs_scroll, 93);
}

#[test]
fn selection_is_clamped_to_the_oldest_record() {
    let mut panel = panel(10);
    panel.selected = Some(usize::MAX);
    panel.plan(1000);
    assert_eq!(panel.selected, Some(999));
    assert_eq!(panel.logs_scroll, 990);
    panel.selected = Some(1000);
    panel.plan(1000);
    assert_eq!(panel.selected, Some(999));
}

#[test]
fn viewport_taller_than_the_store_starts_at_rank_zero() {
    let mut panel = panel(50);
    panel.selected = Some(29);
    panel.update(&filled(30));
    assert_eq!(panel.logs_scroll, 0);
    assert_eq!(shown_ids(&panel), (0..30usize).rev().collect::<Vec<_>>());
    assert_eq!(panel.selected_row(), 29);
}

#[test]
fn chunk_origin_is_a_multiple_of_the_chunk_size() {
    let mut panel = panel(10);
    for (selected, start) in [(5, 0), (68, 0), (69, 64), (132, 64), (133, 128), (500, 448)] {
        let mut fresh = LogsPanel::new();
        fresh.area_height = 10;
        fresh.selected = Some(selected);
        assert_eq!(fresh.plan(1000), Some((start, 74)), "selected {selected}");
    }
    panel.area_height = 0;
    panel.selected = Some(200);
    assert_eq!(panel.plan(1000), Some((192, 64)));
}

#[test]
fn amount_saturates_for_a_huge_viewport() {
    let mut panel = panel(usize::MAX);
    assert_eq!(panel.plan(10), Some((0, usize::MAX)));
    let mut other = LogsPanel::new();
    other.area_height = usize::MAX - 64;
    assert_eq!(other.plan(10), Some((0, usize::MAX)));
    other.area_height = usize::MAX - 63;
    assert_eq!(other.plan(10), Some((0, usize::MAX)));
}

#[test]
fn update_shows_the_window_at_the_viewport() {
    let storage = filled(1000);
    let mut panel = panel(10);
    for selected in [0usize, 3, 64, 65, 200, 500, 993, 999] {
        panel.selected = Some(selected);
        panel.update(&storage);
        let want = storage.get_visible_logs(panel.logs_scroll, 10).unwrap();
        assert_eq!(panel.get_visible_logs(), &want[..], "selected {selected}");
        assert_eq!(panel.logs_scroll + panel.selected_row(), selected);
    }
}

#[test]
fn scrolling_five_hundred_steps_fetches_a_handful_of_chunks() {
    let storage = filled(1000);
    let mut panel = panel(10);
    let mut fetches = 0;
    let mut starts = Vec::new();
    for selected in 0..=500usize {
        panel.selected = Some(selected);
        if let Some((start, amount)) = panel.plan(storage.logs_amount()) {
            fetches += 1;
            starts.push(start);
            assert_eq!(amount, 74);
            panel.accept(storage.get_visible_logs(start, amount));
        }
        let want = storage.get_visible_logs(panel.logs_scroll, 10).unwrap();
        assert_eq!(panel.get_visible_logs(), &want[..]);
    }
    assert!(fetches <= 500usize.div_ceil(64) + 1, "{fetches} fetches");
    assert_eq!(starts, vec![0, 64, 128, 192, 256, 320, 384, 448]);
}

#[test]
fn no_fetch_while_the_chunk_serves() {
    let storage = filled(1000);
    let mut panel = panel(10);
    panel.update(&storage);
    for selected in 0..=69usize {
        panel.selected = Some(selected);
        assert_eq!(panel.plan(1000), None, "selected {selected}");
    }
    panel.selected = Some(70);
    assert_eq!(panel.plan(1000), Some((64, 74)));
}

#[test]
fn append_makes_the_chunk_stale() {
    let mut storage = filled(100);
    let mut panel = panel(10);
    panel.update(&storage);
    assert_eq!(shown_ids(&panel), (90..100usize).rev().collect::<Vec<_>>());
    assert_eq!(panel.plan(100), None);
    storage.add_log(record("new")).unwrap();
    assert_eq!(panel.plan(101), Some((0, 74)));
    panel.accept(storage.get_visible_logs(0, 74));
    assert_eq!(shown_ids(&panel), (91..101usize).rev().collect::<Vec<_>>());
}

#[test]
fn taller_viewport_fetches_again() {
    let storage = filled(1000);
    let mut panel = panel(10);
    panel.selected = Some(60);
    panel.update(&storage);
    assert_eq!(panel.logs_scroll, 55);
    panel.area_height = 40;
    assert_eq!(panel.plan(1000), Some((0, 104)));
}

#[test]
fn failed_fetch_keeps_the_chunk_at_hand() {
    let storage = filled(1000);
    let mut panel = panel(10);
    panel.update(&storage);
    let before = panel.visible_logs.clone();
    panel.selected = Some(300);
    let asked = panel.plan(1000);
    assert_eq!(asked, Some((256, 74)));
    panel.accept(Err(StorageError { message: "database is locked".to_string() }));
    assert_eq!(panel.visible_logs, before);
    assert_eq!(panel.chunk_start, 0);
    assert_eq!(panel.request, None);
    // the next tick asks again
    assert_eq!(panel.plan(1000), Some((256, 74)));
    panel.accept(storage.get_visible_logs(256, 74));
    assert_eq!(panel.chunk_start, 256);
    assert_eq!(shown_ids(&panel)[0], 999 - 295);
}

#[test]
fn answer_to_nothing_asked_is_dropped() {
    let storage = filled(10);
    let mut panel = panel(5);
    panel.update(&storage);
    let before = panel.visible_logs.clone();
    panel.accept(Ok(Vec::new()));
    assert_eq!(panel.visible_logs, before);
}

#[test]
fn selection_moves() {
    let mut panel = LogsPanel::new();
    panel.select_next();
    assert_eq!(panel.selected, Some(0));
    panel.select_next();
    assert_eq!(panel.selected, Some(1));
    panel.select_previous();
    panel.select_previous();
    assert_eq!(panel.selected, Some(0));
    panel.selected = None;
    panel.select_previous();
    assert_eq!(panel.selected, Some(usize::MAX));
    panel.select_next();
    assert_eq!(panel.selected, Some(usize::MAX));
    panel.select_first();
    assert_eq!(panel.selected, Some(0));
    panel.select_last();
    assert_eq!(panel.selected, Some(0));
    panel.logs_amount = 42;
    panel.select_last();
    assert_eq!(panel.selected, Some(41));
}

#[test]
fn selected_row_is_counted_from_the_top() {
    let mut panel = panel(10);
    panel.selected = Some(100);
    panel.plan(1000);
    assert_eq!(panel.selected_row(), 5);
    panel.selected = Some(2);
    panel.logs_scroll = 7;
    assert_eq!(panel.selected_row(), 0);
}

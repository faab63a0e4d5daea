use chamon::app::App;
use chamon::app::BaselineItem;
use chamon::app::PopupType;
use chamon::app::ViewMode;
use chamon::progress::ProgressUpdate;

fn item(version: &str, is_initial: bool) -> BaselineItem {
    BaselineItem { version: version.to_string(), file_count: 0, is_initial, is_active: false }
}

#[test]
fn new_app_starts_on_baselines_view() {
    let a = App::new();
    assert_eq!(a.current_view, ViewMode::Baselines);
    assert!(!a.should_quit);
    assert!(a.baselines.is_empty());
    assert!(a.popup.is_none());
    assert!(!a.creating_baseline);
    assert_eq!(a.baseline_phase, "scanning");
}

#[test]
fn tabs_cycle_in_both_directions() {
    let mut a = App::new();
    a.set_view(ViewMode::Dashboard);
    a.switch_to_next_tab();
    assert_eq!(a.current_view, ViewMode::Changes);
    a.switch_to_next_tab();
    assert_eq!(a.current_view, ViewMode::Baselines);
    a.switch_to_next_tab();
    assert_eq!(a.current_view, ViewMode::Dashboard);
    a.switch_to_previous_tab();
    assert_eq!(a.current_view, ViewMode::Baselines);
}

#[test]
fn tab_items_label_the_three_views() {
    let a = App::new();
    let tabs = a.get_tab_items();
    assert_eq!(tabs.len(), 3);
    assert_eq!(tabs[0].0, "DASHBOARD");
    assert_eq!(tabs[0].1, ViewMode::Dashboard);
    assert_eq!(tabs[2].0, "BASELINES");
    assert_eq!(tabs[2].1, ViewMode::Baselines);
}

#[test]
fn set_baselines_sorts_deltas_newest_first_and_initial_last() {
    let mut a = App::new();
    a.set_baselines(vec![
        item("Initial Baseline", true),
        item("20240101-100000", false),
        item("20240301-100000", false),
        item("20240201-100000", false),
    ]);
    let versions: Vec<&str> = a.baselines.iter().map(|b| b.version.as_str()).collect();
    assert_eq!(
        versions,
        vec!["20240301-100000", "20240201-100000", "20240101-100000", "Initial Baseline"]
    );
    // The newest delta is active.
    assert_eq!(a.active_baseline, 0);
    assert!(a.baselines[0].is_active);
    assert!(!a.baselines[1].is_active);
    assert!(!a.baselines[3].is_active);
    assert_eq!(a.selected_baseline, 0);
}

#[test]
fn set_baselines_with_only_initial_marks_it_active() {
    let mut a = App::new();
    a.set_baselines(vec![item("Initial Baseline", true)]);
    assert_eq!(a.active_baseline, 0);
    assert!(a.baselines[0].is_active);
}

#[test]
fn selection_moves_stay_in_range() {
    let mut a = App::new();
    a.set_baselines(vec![item("v1", false), item("v2", false)]);
    assert_eq!(a.selected_baseline, 0);
    a.move_baseline_up();
    assert_eq!(a.selected_baseline, 0);
    a.move_baseline_down();
    assert_eq!(a.selected_baseline, 1);
    a.move_baseline_down();
    assert_eq!(a.selected_baseline, 1);
    a.move_baseline_up();
    assert_eq!(a.selected_baseline, 0);
}

#[test]
fn delete_confirmation_flow_deletes_on_yes() {
    let mut a = App::new();
    a.set_baselines(vec![item("v1", false), item("v2", false)]);
    // Selection starts on the newest delta, v2.
    a.show_delete_confirmation();
    match &a.popup {
        Some(p) => {
            assert_eq!(p.title, "Delete Baseline");
            match &p.popup_type {
                PopupType::Confirm { message, selected, .. } => {
                    assert_eq!(message, "Delete baseline: v2?");
                    assert_eq!(*selected, 0);
                }
                _ => panic!("expected a confirmation popup"),
            }
        }
        None => panic!("expected a popup"),
    }
    a.popup_confirm();
    assert!(a.popup.is_none());
    assert_eq!(a.baselines.len(), 1);
    assert_eq!(a.baselines[0].version, "v1");
}

#[test]
fn delete_confirmation_flow_keeps_on_no() {
    let mut a = App::new();
    a.set_baselines(vec![item("v1", false), item("v2", false)]);
    a.show_delete_confirmation();
    a.popup_move_right();
    match &a.popup {
        Some(p) => match &p.popup_type {
            PopupType::Confirm { selected, .. } => assert_eq!(*selected, 1),
            _ => panic!("expected a confirmation popup"),
        },
        None => panic!("expected a popup"),
    }
    a.popup_confirm();
    assert!(a.popup.is_none());
    assert_eq!(a.baselines.len(), 2);
}

#[test]
fn popup_selection_is_bounded() {
    let mut a = App::new();
    a.set_baselines(vec![item("v1", false)]);
    a.show_delete_confirmation();
    a.popup_move_left();
    a.popup_move_right();
    a.popup_move_right();
    a.popup_move_right();
    match &a.popup {
        Some(p) => match &p.popup_type {
            PopupType::Confirm { selected, .. } => assert_eq!(*selected, 1),
            _ => panic!("expected a confirmation popup"),
        },
        None => panic!("expected a popup"),
    }
    a.popup_cancel();
    assert!(a.popup.is_none());
}

#[test]
fn creating_initial_baseline_twice_is_refused() {
    let mut a = App::new();
    a.set_baselines(vec![item("Initial Baseline", true)]);
    a.create_initial_baseline();
    assert!(!a.creating_baseline);
    match &a.popup {
        Some(p) => {
            assert_eq!(p.title, "Initial Baseline Exists");
            assert!(matches!(p.popup_type, PopupType::Error { .. }));
        }
        None => panic!("expected an error popup"),
    }
}

#[test]
fn creating_initial_baseline_resets_progress_state() {
    let mut a = App::new();
    a.baseline_files_processed = 42;
    a.create_initial_baseline();
    assert!(a.creating_baseline);
    assert!(a.creating_initial);
    assert_eq!(a.baseline_files_processed, 0);
    assert!(a.baseline_progress.is_empty());
    assert!(a.baseline_completed.is_empty());
    assert!(a.baseline_start_time.is_some());
    assert_eq!(a.baseline_phase, "scanning");
}

#[test]
fn progress_updates_drive_worker_rows() {
    let mut a = App::new();
    a.create_initial_baseline();
    a.process_progress_updates(vec![
        ProgressUpdate::WorkerStarted { name: "/a".to_string() },
        ProgressUpdate::WorkerProgress {
            name: "/a".to_string(),
            file_count: 10,
            current_path: "/a/f".to_string(),
        },
        ProgressUpdate::WorkerProgress {
            name: "/b".to_string(),
            file_count: 3,
            current_path: "/b/g".to_string(),
        },
        ProgressUpdate::FilesProcessed { count: 13 },
    ]);
    assert_eq!(a.baseline_progress.len(), 2);
    assert_eq!(a.baseline_progress[0], ("/a".to_string(), 10, "/a/f".to_string()));
    assert_eq!(a.baseline_progress[1], ("/b".to_string(), 3, "/b/g".to_string()));
    assert_eq!(a.baseline_files_processed, 13);
    a.process_progress_updates(vec![ProgressUpdate::WorkerCompleted {
        name: "/a".to_string(),
        file_count: 12,
    }]);
    assert_eq!(a.baseline_progress.len(), 1);
    assert_eq!(a.baseline_progress[0].0, "/b");
    assert_eq!(a.baseline_completed, vec![("/a".to_string(), 12)]);
}

#[test]
fn completion_update_ends_creation_with_a_popup() {
    let mut a = App::new();
    a.create_initial_baseline();
    a.process_progress_updates(vec![
        ProgressUpdate::PhaseChanged { phase: "packaging".to_string() },
        ProgressUpdate::BaselineCompleted {
            success: true,
            message: "Initial baseline created with 3 files".to_string(),
        },
    ]);
    assert!(!a.creating_baseline);
    assert!(!a.creating_initial);
    assert_eq!(a.baseline_phase, "packaging");
    match &a.popup {
        Some(p) => {
            assert_eq!(p.title, "Baseline Created");
            assert!(matches!(p.popup_type, PopupType::Info { .. }));
        }
        None => panic!("expected a popup"),
    }
    let mut b = App::new();
    b.create_initial_baseline();
    b.process_progress_updates(vec![ProgressUpdate::BaselineCompleted {
        success: false,
        message: "Failed to create baseline: disk".to_string(),
    }]);
    match &b.popup {
        Some(p) => {
            assert_eq!(p.title, "Baseline Creation Failed");
            assert!(matches!(p.popup_type, PopupType::Error { .. }));
        }
        None => panic!("expected a popup"),
    }
}

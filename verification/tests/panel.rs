use eaststar::panel::panel_saver_candidates;
use eaststar::panel::{
    adjust_saver_delay, countdown_text, format_duration, idle_label, PanelSaver,
    PanelSaverTracker, ProcessCheck, SaverLaunchMode,
};

#[test]
fn format_duration_words() {
    assert_eq!(format_duration(0), "0 s");
    assert_eq!(format_duration(59), "59 s");
    assert_eq!(format_duration(60), "1 min 00 s");
    assert_eq!(format_duration(65), "1 min 05 s");
    assert_eq!(format_duration(3599), "59 min 59 s");
    assert_eq!(format_duration(7325), "122 min 05 s");
}

#[test]
fn countdown_lines() {
    assert_eq!(countdown_text(None, 180), "Waiting for GNOME idle monitor");
    assert_eq!(countdown_text(Some(180), 180), "Launching now");
    assert_eq!(countdown_text(Some(500), 180), "Launching now");
    assert_eq!(countdown_text(Some(100), 180), "In 1 min 20 s");
    assert_eq!(countdown_text(Some(175), 180), "In 5 s");
}

#[test]
fn idle_labels() {
    assert_eq!(idle_label(None), "Unavailable");
    assert_eq!(idle_label(Some(61)), "1 min 01 s");
}

#[test]
fn delay_buttons_clamp_and_saturate() {
    assert_eq!(adjust_saver_delay(180, 15), 195);
    assert_eq!(adjust_saver_delay(180, -60), 120);
    assert_eq!(adjust_saver_delay(40, -15), 30);
    assert_eq!(adjust_saver_delay(3590, 60), 3600);
    assert_eq!(adjust_saver_delay(10, i64::MIN), 30);
    assert_eq!(adjust_saver_delay(u64::MAX, i64::MAX), 3600);
}

#[test]
fn preview_refused_while_running() {
    let mut tracker = PanelSaverTracker::new();
    assert!(tracker.preview_request().is_ok());
    tracker.preview_started();
    assert_eq!(tracker.preview_request(), Err("saver is already running".to_owned()));
}

#[test]
fn idle_panel_launches_when_delay_reached() {
    let mut tracker = PanelSaverTracker::new();
    let r = tracker.refresh(None, Some(10), 180, 0);
    assert!(!r.launch_automatic);
    assert_eq!(r.saver_state_text.as_deref(), Some("Screen saver is idle."));
    assert_eq!(r.status_text, None);
    let r = tracker.refresh(None, Some(180), 180, 0);
    assert!(r.launch_automatic);
    assert_eq!(r.saver_state_text, None);
    let r = tracker.automatic_launch_finished(Ok(()));
    assert_eq!(r.status_text.as_deref(), Some("Idle time reached the activation delay."));
    assert_eq!(r.saver_state_text.as_deref(), Some("Automatic mode is currently running."));
    assert_eq!(
        tracker.running,
        Some(PanelSaver { mode: SaverLaunchMode::Automatic, lock_requested: false })
    );
}

#[test]
fn failed_automatic_launch_is_reported() {
    let mut tracker = PanelSaverTracker::new();
    let r = tracker.automatic_launch_finished(Err("no binary".to_owned()));
    assert_eq!(
        r.status_text.as_deref(),
        Some("Could not start the screen saver automatically: no binary")
    );
    assert_eq!(tracker.running, None);
}

#[test]
fn automatic_run_requests_lock_once() {
    let mut tracker = PanelSaverTracker::new();
    tracker.automatic_launch_finished(Ok(()));
    let r = tracker.refresh(Some(ProcessCheck::Running { elapsed_secs: 10 }), None, 180, 30);
    assert!(!r.request_lock);
    assert_eq!(r.saver_state_text.as_deref(), Some("Automatic mode is currently running."));
    let r = tracker.refresh(Some(ProcessCheck::Running { elapsed_secs: 30 }), None, 180, 30);
    assert!(r.request_lock);
    assert_eq!(r.status_text.as_deref(), Some("Lock request sent after the saver delay."));
    let r = tracker.refresh(Some(ProcessCheck::Running { elapsed_secs: 90 }), None, 180, 30);
    assert!(!r.request_lock);
    assert_eq!(r.status_text, None);
}

#[test]
fn preview_never_requests_lock() {
    let mut tracker = PanelSaverTracker::new();
    tracker.preview_started();
    let r = tracker.refresh(Some(ProcessCheck::Running { elapsed_secs: 1000 }), Some(999), 180, 30);
    assert!(!r.request_lock);
    assert!(!r.launch_automatic);
    assert_eq!(r.saver_state_text.as_deref(), Some("Preview mode is currently running."));
}

#[test]
fn finished_saver_is_reported_and_may_relaunch() {
    let mut tracker = PanelSaverTracker::new();
    tracker.preview_started();
    let r = tracker.refresh(
        Some(ProcessCheck::Exited { success: true, lifetime_secs: 75 }),
        Some(5),
        180,
        0,
    );
    assert_eq!(r.status_text.as_deref(), Some("The preview session finished after 1 min 15 s."));
    assert_eq!(r.saver_state_text.as_deref(), Some("Screen saver is idle."));
    assert_eq!(tracker.running, None);

    tracker.automatic_launch_finished(Ok(()));
    let r = tracker.refresh(
        Some(ProcessCheck::Exited { success: false, lifetime_secs: 3 }),
        Some(200),
        180,
        0,
    );
    assert_eq!(r.status_text.as_deref(), Some("The automatic session failed after 3 s."));
    assert!(r.launch_automatic);
}

#[test]
fn unreadable_saver_is_forgotten() {
    let mut tracker = PanelSaverTracker::new();
    tracker.preview_started();
    let r = tracker.refresh(Some(ProcessCheck::Failed { error: "boom".to_owned() }), None, 180, 0);
    assert_eq!(r.status_text.as_deref(), Some("Could not monitor saver process: boom"));
    assert_eq!(tracker.running, None);
}

#[test]
fn panel_candidate_paths() {
    assert_eq!(
        panel_saver_candidates("/home/u/.local/bin", Some("/s")),
        vec!["/home/u/.local/bin/eaststar-saver".to_owned(), "/s".to_owned()]
    );
    assert_eq!(panel_saver_candidates("/b/", None), vec!["/b/eaststar-saver".to_owned()]);
}

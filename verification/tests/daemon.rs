use eaststar::daemon::saver_candidates;
use eaststar::daemon::{DaemonState, SaverCheck, SaverDecision, SaverRun, SessionDecision};
use eaststar::settings::{AppSettings, VisualEffect};

fn settings(delay: u64, lock_after: u64) -> AppSettings {
    AppSettings { saver_delay_seconds: delay, lock_after_seconds: lock_after, visual_effect: VisualEffect::Pipes }
}

#[test]
fn reload_reports_changes() {
    let mut d = DaemonState::new(settings(180, 0), false);
    assert!(!d.reload_settings(settings(180, 0)));
    assert!(d.reload_settings(settings(240, 0)));
    assert_eq!(d.settings.saver_delay_seconds, 240);
    let mut changed_effect = settings(240, 0);
    changed_effect.visual_effect = VisualEffect::Plasma;
    assert!(d.reload_settings(changed_effect));
}

#[test]
fn no_saver_means_poll_idle() {
    let mut d = DaemonState::new(settings(180, 0), true);
    assert_eq!(d.on_session_state(false), SessionDecision::PollIdle);
    // The remembered lock state only follows the session while a saver runs.
    assert!(d.was_locked);
}

#[test]
fn launch_only_when_idle_long_enough_and_unlocked() {
    let d = DaemonState::new(settings(180, 0), false);
    assert!(!d.launch_due(179, false));
    assert!(d.launch_due(180, false));
    assert!(!d.launch_due(500, true));
}

#[test]
fn unlock_transition_dismisses_saver() {
    let mut d = DaemonState::new(settings(180, 0), false);
    d.saver_launched();
    assert!(d.saver_running());
    assert_eq!(d.on_session_state(true), SessionDecision::CheckSaver);
    assert_eq!(d.on_session_state(false), SessionDecision::DismissSaver);
    assert!(!d.saver_running());
    assert!(!d.was_locked);
}

#[test]
fn never_locked_session_keeps_saver() {
    let mut d = DaemonState::new(settings(180, 0), false);
    d.saver_launched();
    assert_eq!(d.on_session_state(false), SessionDecision::CheckSaver);
    assert_eq!(d.on_saver_check(SaverCheck::Running { elapsed_secs: 5 }), SaverDecision::Wait);
}

#[test]
fn lock_requested_once_after_delay() {
    let mut d = DaemonState::new(settings(180, 60), false);
    d.saver_launched();
    assert_eq!(d.on_saver_check(SaverCheck::Running { elapsed_secs: 59 }), SaverDecision::Wait);
    assert_eq!(d.on_saver_check(SaverCheck::Running { elapsed_secs: 60 }), SaverDecision::LockAndWait);
    assert_eq!(d.saver, Some(SaverRun { lock_requested: true }));
    assert_eq!(d.on_saver_check(SaverCheck::Running { elapsed_secs: 61 }), SaverDecision::Wait);
}

#[test]
fn zero_lock_delay_never_locks() {
    let mut d = DaemonState::new(settings(180, 0), false);
    d.saver_launched();
    assert_eq!(d.on_saver_check(SaverCheck::Running { elapsed_secs: 100000 }), SaverDecision::Wait);
}

#[test]
fn exited_or_failed_saver_resumes_polling() {
    let mut d = DaemonState::new(settings(180, 0), false);
    d.saver_launched();
    assert_eq!(d.on_saver_check(SaverCheck::Exited), SaverDecision::PollIdle);
    assert!(!d.saver_running());
    d.saver_launched();
    assert_eq!(d.on_saver_check(SaverCheck::Failed), SaverDecision::PollIdle);
    assert!(!d.saver_running());
}

#[test]
fn saver_candidate_paths() {
    assert_eq!(
        saver_candidates("/opt/es/bin", Some("/tmp/saver")),
        vec![
            "/opt/es/bin/eaststar-saver".to_owned(),
            "/usr/local/bin/eaststar-saver".to_owned(),
            "/usr/bin/eaststar-saver".to_owned(),
            "/tmp/saver".to_owned(),
        ]
    );
    assert_eq!(saver_candidates("/", None)[0], "/eaststar-saver");
    assert_eq!(saver_candidates("", None)[0], "eaststar-saver");
    assert_eq!(saver_candidates("/x/", None).len(), 3);
}

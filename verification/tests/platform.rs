use eaststar::platform::{logind_reply_locked, screensaver_reply_active};
use eaststar::platform::{GnomeIdleMonitor, IdlePollState, POLL_INTERVAL_MS};

#[test]
fn idle_reply_parsing() {
    assert_eq!(GnomeIdleMonitor::idle_millis_from_reply("(uint64 5123,)\n"), Some(5123));
    assert_eq!(GnomeIdleMonitor::idle_millis_from_reply("(uint64 0,)"), Some(0));
    assert_eq!(GnomeIdleMonitor::idle_millis_from_reply("12 then 34"), Some(34));
    assert_eq!(GnomeIdleMonitor::idle_millis_from_reply("no digits"), None);
    assert_eq!(GnomeIdleMonitor::idle_millis_from_reply(""), None);
    assert_eq!(GnomeIdleMonitor::idle_millis_from_reply("(uint64 99999999999999999999,)"), None);
    assert_eq!(GnomeIdleMonitor::idle_millis_from_reply("x٣4"), Some(4));
}

#[test]
fn inhibit_reply_parsing() {
    assert!(GnomeIdleMonitor::inhibited_from_reply("(true,)\n"));
    assert!(!GnomeIdleMonitor::inhibited_from_reply("(false,)\n"));
    assert!(!GnomeIdleMonitor::inhibited_from_reply(""));
}

#[test]
fn backend_name() {
    assert_eq!(GnomeIdleMonitor::new().backend_name(), "gnome-mutter-idle-monitor");
}

#[test]
fn polls_at_most_once_per_interval() {
    let mut m = GnomeIdleMonitor::new();
    assert!(m.needs_poll(0));
    assert_eq!(m.cached_idle_millis(), None);
    m.record_poll(1000, Some(42));
    assert_eq!(m.cached_idle_millis(), Some(42));
    assert!(!m.needs_poll(1000));
    assert!(!m.needs_poll(1000 + POLL_INTERVAL_MS - 1));
    assert!(m.needs_poll(1000 + POLL_INTERVAL_MS));
    // A clock reading before the last poll counts as no time passed.
    assert!(!m.needs_poll(10));
    m.record_poll(2000, None);
    assert_eq!(m.cached_idle_millis(), None);
    let _ = IdlePollState { last_poll_at_ms: None, cached_idle_ms: None };
}

#[test]
fn session_lock_replies() {
    assert!(logind_reply_locked("LockedHint=yes\n"));
    assert!(!logind_reply_locked("LockedHint=no\n"));
    assert!(!logind_reply_locked(""));
    assert!(screensaver_reply_active("(true,)"));
    assert!(!screensaver_reply_active("(false,)"));
}

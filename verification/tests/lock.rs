use eaststar::lock::{LockAttempts, SystemLocker};

#[test]
fn session_id_filter() {
    assert_eq!(SystemLocker::session_id_from(Some(" 3 ".to_owned())), Some(" 3 ".to_owned()));
    assert_eq!(SystemLocker::session_id_from(Some("  ".to_owned())), None);
    assert_eq!(SystemLocker::session_id_from(None), None);
}

#[test]
fn plan_with_session_id() {
    let plan = SystemLocker::lock_commands(Some("c2"));
    assert_eq!(plan.len(), 8);
    assert_eq!(plan[0].program, "loginctl");
    assert_eq!(plan[0].args, vec!["lock-session".to_owned(), "c2".to_owned()]);
    assert_eq!(plan[0].success_message, "lock: loginctl lock-session c2 triggered");
    assert_eq!(plan[1].args, vec!["lock-sessions".to_owned()]);
    assert_eq!(plan[7].program, "gnome-screensaver-command");
    assert_eq!(plan[7].args, vec!["--lock".to_owned()]);
}

#[test]
fn plan_without_session_id() {
    let plan = SystemLocker::lock_commands(None);
    assert_eq!(plan.len(), 7);
    assert_eq!(plan[0].program, "loginctl");
    assert_eq!(plan[1].program, "gdbus");
    assert_eq!(plan[1].args.last().map(String::as_str), Some("org.gnome.ScreenSaver.Lock"));
    assert_eq!(plan[2].args.last().map(String::as_str), Some("true"));
    assert_eq!(plan[3].args[3], "org.freedesktop.ScreenSaver");
    assert_eq!(plan[4].program, "dbus-send");
    assert_eq!(plan[5].success_message, "lock: xdg-screensaver lock triggered");
}

#[test]
fn attempts_stop_at_first_success() {
    let mut a = LockAttempts::new(3);
    assert_eq!(a.next_command(), Some(0));
    a.record(Err("a failed".to_owned()));
    assert_eq!(a.next_command(), Some(1));
    a.record(Ok(()));
    assert_eq!(a.next_command(), None);
    assert_eq!(a.succeeded, Some(1));
    assert_eq!(a.errors, vec!["a failed".to_owned()]);
}

#[test]
fn attempts_collect_every_failure() {
    let mut a = LockAttempts::new(2);
    a.record(Err("x".to_owned()));
    a.record(Err("y".to_owned()));
    assert_eq!(a.next_command(), None);
    assert_eq!(a.succeeded, None);
    assert_eq!(a.errors, vec!["x".to_owned(), "y".to_owned()]);
}

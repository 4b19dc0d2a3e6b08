use tico::lockfile::{lock_action, lock_bytes, lock_path, parse_lock, LockAction, LockCheck, LockInfo};

#[test]
fn lock_path_matches_nano_convention() {
    assert_eq!(lock_path("/tmp/foo.txt"), "/tmp/.foo.txt.swp");
    assert_eq!(lock_path("bar.rs"), "./.bar.rs.swp");
}

#[test]
fn written_lock_reads_back_its_holder() {
    let data = lock_bytes("tico 0.1", 4242, "alice", "host", "/tmp/x.txt", false);
    match parse_lock(&data) {
        LockCheck::Held(info) => {
            assert_eq!(info.program, "tico 0.1");
            assert_eq!(info.pid, 4242);
            assert_eq!(info.user, "alice");
        }
        _ => panic!("expected a held lock"),
    }
}

#[test]
fn short_or_foreign_lock_data_is_bad() {
    assert!(matches!(parse_lock(&[]), LockCheck::NoLock | LockCheck::Bad));
    assert!(matches!(parse_lock(&[1, 2, 3]), LockCheck::Bad));
    assert!(matches!(parse_lock(&[0u8; 1024]), LockCheck::Bad));
}

#[test]
fn lock_actions_follow_nano() {
    let held = LockCheck::Held(LockInfo { program: "nano 8.7".to_string(), pid: 77, user: "bob".to_string() });
    assert_eq!(lock_action(false, false, Some("/f"), "/.f.swp", &LockCheck::NoLock, true), LockAction::Skip);
    assert_eq!(lock_action(true, true, Some("/f"), "/.f.swp", &LockCheck::NoLock, true), LockAction::Skip);
    assert_eq!(lock_action(true, false, None, "", &LockCheck::NoLock, true), LockAction::Skip);
    assert_eq!(lock_action(true, false, Some("/f"), "/.f.swp", &LockCheck::NoLock, true), LockAction::Take);
    assert_eq!(
        lock_action(true, false, Some("/f"), "/.f.swp", &LockCheck::Bad, true),
        LockAction::WarnBad("Bad lock file is ignored: /.f.swp".to_string())
    );
    assert_eq!(
        lock_action(true, false, Some("/f"), "/.f.swp", &held, true),
        LockAction::Ask("File /f is being edited by bob (with nano 8.7, PID 77); open anyway?".to_string())
    );
    assert_eq!(lock_action(true, false, Some("/f"), "/.f.swp", &held, false), LockAction::Take);
}

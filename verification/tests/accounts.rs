use mochios_settings::accounts::{
    home_directories, invalid_response, managed_home_valid, mutate, next_request_id, reply_length, rollback_paths,
    snapshot_changed_error, start_snapshot, status_error, AccountError, AddUser, AddUserAction,
    RequestIds, SnapshotAttempts, MAX_DATABASE_BYTES,
};

fn invalid_data(e: &AccountError) -> Option<&str> {
    match e {
        AccountError::InvalidData(m) => Some(m.as_str()),
        _ => None,
    }
}

#[test]
fn request_ids_start_at_one_and_skip_zero() {
    let mut ids = RequestIds::new();
    assert_eq!(next_request_id(&mut ids), 1);
    assert_eq!(next_request_id(&mut ids), 2);
    ids.next = u64::MAX;
    assert_eq!(next_request_id(&mut ids), u64::MAX);
    assert_eq!(next_request_id(&mut ids), 1);
    assert_eq!(ids.next, 1);
}

#[test]
fn mutation_replies() {
    assert!(mutate(7, 7, 0).is_ok());
    assert!(matches!(mutate(7, 7, -13), Err(AccountError::Os(13))));
    let err = mutate(7, 8, 0).unwrap_err();
    assert_eq!(invalid_data(&err), Some("mutation request ID mismatch"));
    assert!(matches!(mutate(7, 7, i32::MIN), Err(AccountError::Os(n)) if n == libc::EIO));
}

#[test]
fn status_errors_negate_the_status() {
    assert!(matches!(status_error(-2), AccountError::Os(2)));
    assert!(matches!(status_error(5), AccountError::Os(-5)));
    assert!(matches!(status_error(i32::MIN), AccountError::Os(n) if n == libc::EIO));
    assert_eq!(invalid_data(&invalid_response("x")), Some("x"));
}

#[test]
fn reply_lengths_use_the_low_32_bits() {
    assert_eq!(reply_length(0x1_0000_0010, 64).unwrap(), 16);
    let err = reply_length(65, 64).unwrap_err();
    assert_eq!(invalid_data(&err), Some("invalid IPC reply length"));
}

#[test]
fn snapshot_start_checks_the_reply() {
    let err = start_snapshot(3, 4, 10, 1, 8).err().unwrap();
    assert_eq!(invalid_data(&err), Some("snapshot request ID mismatch"));
    let err = start_snapshot(3, 3, 0, 1, 8).err().unwrap();
    assert_eq!(invalid_data(&err), Some("invalid snapshot length"));
    let err = start_snapshot(3, 3, (MAX_DATABASE_BYTES as u64) + 1, 1, 8).err().unwrap();
    assert_eq!(invalid_data(&err), Some("invalid snapshot length"));
    assert!(start_snapshot(3, 3, MAX_DATABASE_BYTES as u64, 1, 8).is_ok());
}

#[test]
fn snapshot_assembles_chunks_in_order() {
    let mut t = start_snapshot(9, 9, 10, 4, 4).ok().unwrap();
    assert_eq!(t.next_request(), Some((0, 4)));
    assert!(t.accept_chunk(9, 0, 4, &[1, 2, 3, 4]));
    assert_eq!(t.next_request(), Some((4, 4)));
    assert!(t.accept_chunk(9, 4, 4, &[5, 6, 7, 8]));
    assert_eq!(t.next_request(), Some((8, 2)));
    assert!(!t.is_complete());
    assert!(t.accept_chunk(9, 8, 4, &[9, 10]));
    assert_eq!(t.next_request(), None);
    assert!(t.is_complete());
    assert_eq!(t.bytes, vec![1, 2, 3, 4, 5, 6, 7, 8, 9, 10]);
}

#[test]
fn snapshot_abandons_inconsistent_chunks() {
    let mut t = start_snapshot(9, 9, 4, 4, 8).ok().unwrap();
    assert!(t.accept_chunk(9, 0, 4, &[1, 2]));
    assert!(!t.accept_chunk(9, 2, 5, &[3, 4]));
    assert!(t.bytes.is_empty());
    assert_eq!(t.next_request(), None);
    assert!(!t.is_complete());

    let mut t = start_snapshot(9, 9, 4, 4, 8).ok().unwrap();
    assert!(!t.accept_chunk(9, 0, 4, &[1, 2, 3, 4, 5]));
    let mut t = start_snapshot(9, 9, 4, 4, 8).ok().unwrap();
    assert!(!t.accept_chunk(8, 0, 4, &[1]));
    let mut t = start_snapshot(9, 9, 4, 4, 8).ok().unwrap();
    assert!(!t.accept_chunk(9, 1, 4, &[1]));
}

#[test]
fn snapshots_are_attempted_three_times() {
    let mut attempts = SnapshotAttempts::new();
    assert!(attempts.try_again());
    assert!(attempts.try_again());
    assert!(attempts.try_again());
    assert!(!attempts.try_again());
    assert_eq!(invalid_data(&snapshot_changed_error()), Some("user database changed during snapshot"));
}

#[test]
fn home_directories_and_their_rollback() {
    let dirs = home_directories("/home/mochi");
    assert_eq!(dirs[0], "/home/mochi/Desktop");
    assert_eq!(dirs[5], "/home/mochi/Pictures");
    let paths = rollback_paths("/home/mochi/");
    assert_eq!(paths.len(), 7);
    assert_eq!(paths[0], "/home/mochi/Pictures");
    assert_eq!(paths[5], "/home/mochi/Desktop");
    assert_eq!(paths[6], "/home/mochi/");
}

#[test]
fn adding_a_user_cleans_up_after_failures() {
    let mut add = AddUser::new();
    assert_eq!(add.action, AddUserAction::CreateHome);
    assert_eq!(add.advance(true), AddUserAction::Register);
    assert_eq!(add.advance(false), AddUserAction::RollbackHome);
    assert_eq!(add.advance(true), AddUserAction::Finish(false));

    let mut add = AddUser::new();
    add.advance(true);
    add.advance(true);
    assert_eq!(add.advance(false), AddUserAction::RemoveUser);
    assert_eq!(add.advance(false), AddUserAction::Finish(false));

    let mut add = AddUser::new();
    add.advance(true);
    add.advance(true);
    assert_eq!(add.advance(true), AddUserAction::Finish(true));
}

#[test]
fn managed_homes_are_under_home() {
    assert!(managed_home_valid("/home/mochi", "mochi"));
    assert!(!managed_home_valid("/home/other", "mochi"));
    assert!(!managed_home_valid("/var/mochi", "mochi"));
    assert!(managed_home_valid("/home/mochi/", "mochi"));
    assert!(managed_home_valid("//home//./mochi", "mochi"));
    assert!(!managed_home_valid("home/mochi", "mochi"));
    assert!(!managed_home_valid("/home/../mochi", "mochi"));
    assert!(managed_home_valid("/srv/users/mochi", "/srv/users/mochi"));
    assert!(managed_home_valid("/home", ""));
}

#[test]
fn request_ids_increase_over_many_calls() {
    let mut ids = RequestIds::new();
    let mut last = 0;
    for _ in 0..100 {
        let id = next_request_id(&mut ids);
        assert!(id > last);
        last = id;
    }
    assert_eq!(last, 100);
}

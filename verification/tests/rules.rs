use cross_device_link::cli::{list_line, overwrite_notice, DEFAULT_DB, DEFAULT_UDS, DEL_NOTICE};
use cross_device_link::masks::{dst_mask, src_mask, writable_by_all};
use cross_device_link::path::FilePath;
use cross_device_link::serv::{
    after_round, prepare_db, socket_removal, startup_requests, AfterRound, DbStep,
};
use cross_device_link::syncing::{copy_command, copy_outcome, serv_syncing, SyncingStep};
use cross_device_link::traits::BoolToResult;
use cross_device_link::types::{FromTo, InotifyActions, LoopCtrl, Record};
use inotify::WatchMask;

fn record() -> Record {
    Record {
        src_dst: FromTo { from: FilePath::new("/root/a"), to: FilePath::new("/tmp/a") },
        user: 0,
        group: 4294967295,
    }
}

#[test]
fn masks_are_those_of_inotify() {
    assert_eq!(src_mask(), 0xd02);
    assert_eq!(dst_mask(), 0xc02);
    assert_eq!(
        src_mask(),
        (WatchMask::MODIFY | WatchMask::CREATE | WatchMask::DELETE_SELF | WatchMask::MOVE_SELF)
            .bits()
    );
    assert_eq!(
        dst_mask(),
        (WatchMask::MODIFY | WatchMask::DELETE_SELF | WatchMask::MOVE_SELF).bits()
    );
}

#[test]
fn all_may_write() {
    assert_eq!(writable_by_all(0o140755), 0o140777);
    assert_eq!(writable_by_all(0), 0o222);
    assert_eq!(writable_by_all(0o777), 0o777);
}

#[test]
fn truth_as_a_result() {
    assert_eq!(true.to_result(1, "e"), Ok(1));
    assert_eq!(false.to_result(1, "e"), Err("e"));
}

#[test]
fn copies() {
    let line = copy_command(&record());
    assert_eq!(line.program, "cp");
    assert_eq!((line.user, line.group), (0, 4294967295));
    assert_eq!(line.args, ["-f", "/root/a", "/tmp/a"]);
    assert_eq!(copy_outcome(&record(), Ok(true)), Ok(()));
    assert_eq!(
        copy_outcome(&record(), Ok(false)),
        Err("Failed sync from /root/a to /tmp/a as 0".to_string())
    );
    assert_eq!(copy_outcome(&record(), Err("x".to_string())), Err("x".to_string()));
}

#[test]
fn syncing_copies_or_rests() {
    assert!(matches!(serv_syncing(None), SyncingStep::Sleep { millis: 1 }));
    assert!(matches!(
        serv_syncing(Some(record())),
        SyncingStep::Copy(r, c) if r == record() && c.args == ["-f", "/root/a", "/tmp/a"]
    ));
}

#[test]
fn the_file_of_records() {
    assert!(matches!(prepare_db(Ok(true)), DbStep::Read));
    assert!(matches!(prepare_db(Ok(false)), DbStep::Create(c) if c == "[]"));
    assert!(matches!(prepare_db(Err("x".to_string())), DbStep::Fail(e) if e == "x"));
}

#[test]
fn stored_records_are_added() {
    let v = startup_requests(&vec![record(), record()]);
    assert_eq!(v.len(), 2);
    assert!(v.iter().all(|a| matches!(a, InotifyActions::Add(r) if *r == record())));
    assert!(startup_requests(&vec![]).is_empty());
}

#[test]
fn rounds_follow_each_other() {
    assert!(matches!(after_round(Err("x".to_string())), AfterRound::Warn(e) if e == "x"));
    assert!(matches!(after_round(Ok(LoopCtrl::Continue)), AfterRound::GoOn));
    assert!(matches!(after_round(Ok(LoopCtrl::ContinuePersist)), AfterRound::Persist));
    assert!(matches!(after_round(Ok(LoopCtrl::Break)), AfterRound::Stop));
}

#[test]
fn the_socket_is_taken_away() {
    assert_eq!(socket_removal(&FilePath::new("/run/s")), ["-f", "/run/s"]);
}

#[test]
fn what_the_client_says() {
    let dst = FilePath::new("/tmp/a");
    assert_eq!(
        overwrite_notice(&dst, Ok(true)),
        Some("Target file /tmp/a exists, will be overwritten.".to_string())
    );
    assert_eq!(overwrite_notice(&dst, Ok(false)), None);
    assert_eq!(
        overwrite_notice(&dst, Err("E".to_string())),
        Some(
            "Cannot check target file /tmp/a existence for reason E, will proceed.".to_string()
        )
    );
    assert_eq!(list_line(&record().src_dst), "/root/a => /tmp/a");
    assert_eq!(DEFAULT_DB, "/etc/cross-device-link.csv");
    assert_eq!(DEFAULT_UDS, "/var/run/cross-device-link.socket");
    assert!(DEL_NOTICE.starts_with("Note: Target files won't be removed."));
}

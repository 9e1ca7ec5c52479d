use msy::streaming::paths::PathComponent as C;
use bytes::Bytes;
use msy::server::{
    expand_tilde_with, pull_done, push_done, server_hello_reply, server_start, tilde_form, ServerStart, TildeForm,
};
use msy::streaming::messages::DecodeError;
use msy::streaming::pipeline::{
    client_exchange_step, expect_hello, pull_stats, pull_step, push_outcome, server_exchange_step,
    ExchangeStep, PullStep, SyncError,
};
use msy::streaming::receiver::{ReceiveError, ReceivedMessage};
use msy::streaming::{
    BlockChecksum, DataEnd, DestFileEnd, DestFileEntry, DestFileFlags, Done, Fatal, FileEnd,
    Hello, HelloFlags, MessageType, Mkdir, ReceiverState, StreamingSync, SyncStats,
};
use std::path::PathBuf;

fn payload_of(frame: Bytes) -> Bytes {
    Bytes::copy_from_slice(&frame[5..])
}

fn sync(delete: bool, compress: bool) -> StreamingSync {
    StreamingSync::new(PathBuf::from("/local"), "/remote/dir".to_string(), delete, compress)
}

#[test]
fn pull_hello_carries_pull_delete_compression() {
    assert_eq!(sync(false, false).pull_flags().bits(), 0x01);
    assert_eq!(sync(true, false).pull_flags().bits(), 0x03);
    assert_eq!(sync(false, true).pull_flags().bits(), 0x09);
    assert_eq!(sync(true, true).pull_flags().bits(), 0x0B);
    let h = sync(true, true).pull_hello();
    assert!(h.is_pull());
    assert_eq!(h.version, 2);
    assert_eq!(h.root_path, "/remote/dir");
}

#[test]
fn push_hello_has_no_flags() {
    let h = sync(true, true).push_hello();
    assert_eq!(h.version, 2);
    assert_eq!(h.flags.bits(), 0);
    assert_eq!(h.root_path, "/remote/dir");
    assert!(!h.is_pull());
}

#[test]
fn reply_must_be_hello() {
    let h = Hello::new(HelloFlags::empty(), String::new());
    let got = expect_hello(MessageType::Hello, payload_of(h.encode())).unwrap();
    assert_eq!(got.root_path, "");
    assert!(matches!(
        expect_hello(MessageType::Done, Bytes::new()),
        Err(SyncError::ExpectedHello(MessageType::Done))
    ));
    assert!(matches!(
        expect_hello(MessageType::Hello, Bytes::from(vec![0u8; 3])),
        Err(SyncError::Decode(DecodeError::TooShort(MessageType::Hello)))
    ));
}

fn dest_entry_payload(path: &str) -> Bytes {
    let e = DestFileEntry {
        path: path.to_string(),
        size: 10,
        mtime: 5,
        mode: 0o644,
        flags: DestFileFlags::has_checksums(),
        block_size: 4,
        checksums: vec![BlockChecksum { offset: 0, weak: 1, strong: 2 }],
    };
    payload_of(e.encode())
}

#[test]
fn initial_exchange_steps() {
    match client_exchange_step(MessageType::DestFileEntry, dest_entry_payload("f")).unwrap() {
        ExchangeStep::Entry(e) => {
            assert_eq!(e.path, "f");
            assert_eq!(e.checksums.len(), 1);
        }
        ExchangeStep::End => panic!("expected an entry"),
    }
    let end = DestFileEnd { total_files: 1, total_bytes: 10 };
    assert!(matches!(
        client_exchange_step(MessageType::DestFileEnd, payload_of(end.encode())).unwrap(),
        ExchangeStep::End
    ));
    assert!(matches!(
        server_exchange_step(MessageType::DestFileEnd, Bytes::new()).unwrap(),
        ExchangeStep::End
    ));
}

#[test]
fn fatal_during_exchange() {
    let f = Fatal { code: 1, message: "no space".to_string() };
    match client_exchange_step(MessageType::Fatal, payload_of(f.clone().encode())) {
        Err(SyncError::RemoteFatal(m)) => assert_eq!(m, "no space"),
        other => panic!("unexpected {:?}", other),
    }
    assert!(matches!(
        server_exchange_step(MessageType::Fatal, payload_of(f.encode())),
        Err(SyncError::UnexpectedInExchange(MessageType::Fatal))
    ));
    assert!(matches!(
        client_exchange_step(MessageType::Data, Bytes::new()),
        Err(SyncError::UnexpectedInExchange(MessageType::Data))
    ));
    assert!(matches!(
        client_exchange_step(MessageType::DestFileEntry, Bytes::from(vec![0u8; 1])),
        Err(SyncError::Decode(DecodeError::TooShort(MessageType::DestFileEntry)))
    ));
    assert!(matches!(
        client_exchange_step(MessageType::DestFileEntry, Bytes::from(vec![0u8; 2])),
        Err(SyncError::Decode(DecodeError::Truncated(MessageType::DestFileEntry, _)))
    ));
}

#[test]
fn push_reports_server_done_or_own_totals() {
    let d = Done { files_ok: 4, files_err: 1, bytes: 400, duration_ms: 9 };
    let s = push_outcome(MessageType::Done, payload_of(d.encode()), 10, 1000).unwrap();
    assert_eq!((s.files_ok, s.files_err, s.bytes_transferred), (4, 1, 400));
    assert_eq!(s.dirs_created, 0);
    let s = push_outcome(MessageType::Error, Bytes::new(), 10, 1000).unwrap();
    assert_eq!((s.files_ok, s.files_err, s.bytes_transferred), (10, 0, 1000));
    assert!(matches!(
        push_outcome(MessageType::Done, Bytes::from(vec![0u8; 4]), 10, 1000),
        Err(SyncError::Decode(DecodeError::TooShort(MessageType::Done)))
    ));
}

#[test]
fn pull_stream_ends_at_done() {
    let d = Done { files_ok: 2, files_err: 0, bytes: 20, duration_ms: 0 };
    assert!(matches!(
        pull_step(MessageType::Done, payload_of(d.encode())).unwrap(),
        PullStep::Finished(Done { files_ok: 2, bytes: 20, .. })
    ));
    let m = Mkdir { path: "sub".to_string(), mode: 0o700 };
    match pull_step(MessageType::Mkdir, payload_of(m.encode())).unwrap() {
        PullStep::Message(ReceivedMessage::Mkdir(m)) => {
            assert_eq!(m.path, "sub");
            assert_eq!(m.mode, 0o700);
        }
        other => panic!("unexpected {:?}", other),
    }
    assert!(matches!(
        pull_step(MessageType::Progress, Bytes::new()).unwrap(),
        PullStep::Message(ReceivedMessage::Ignored(MessageType::Progress))
    ));
}

#[test]
fn pull_stats_take_done_counts() {
    let mut received = SyncStats::new();
    received.dirs_created = 3;
    received.files_ok = 99;
    let d = Done { files_ok: 5, files_err: 1, bytes: 50, duration_ms: 0 };
    let s = pull_stats(&received, &d);
    assert_eq!((s.files_ok, s.files_err, s.bytes_transferred, s.dirs_created), (5, 1, 50, 3));
}

#[test]
fn receiver_counts_bytes_of_completed_files() {
    let mut r = ReceiverState::new();
    r.begin_file("a.txt".to_string(), 0o600, 77);
    r.record_data("a.txt", 5).unwrap();
    r.record_data("a.txt", 6).unwrap();
    let p = r.pending("a.txt").unwrap();
    assert_eq!((p.mode, p.mtime, p.bytes_written), (0o600, 77, 11));
    let done = r.take_pending("a.txt").unwrap();
    assert!(r.pending("a.txt").is_none());
    r.record_file_done(&done);
    assert_eq!(r.stats().files_ok, 1);
    assert_eq!(r.stats().bytes_transferred, 11);
}

#[test]
fn receiver_refuses_data_without_entry() {
    let mut r = ReceiverState::new();
    match r.record_data("ghost", 3) {
        Err(ReceiveError::NoPendingFile(p)) => assert_eq!(p, "ghost"),
        Ok(()) => panic!("data without an entry was accepted"),
    }
    assert!(r.take_pending("ghost").is_none());
}

#[test]
fn receiver_entry_restarts_file() {
    let mut r = ReceiverState::new();
    r.begin_file("f".to_string(), 1, 1);
    r.record_data("f", 9).unwrap();
    r.begin_file("f".to_string(), 2, 2);
    assert_eq!(r.pending("f").unwrap().bytes_written, 0);
    assert_eq!(r.pending("f").unwrap().mode, 2);
}

#[test]
fn receiver_other_counters() {
    let mut r = ReceiverState::new();
    r.record_file_failed();
    r.record_dir_created();
    r.record_dir_created();
    r.record_symlink_created();
    r.record_deleted();
    let s = r.stats();
    assert_eq!((s.files_err, s.dirs_created, s.symlinks_created, s.deleted), (1, 2, 1, 1));
    assert_eq!(s.files_ok, 0);
}

#[test]
fn server_rejects_first_message_other_than_hello() {
    match server_start(MessageType::FileEnd, payload_of(FileEnd { total_files: 0, total_bytes: 0 }.encode()))
        .unwrap()
    {
        ServerStart::Reject(f) => {
            assert_eq!(f.code, 1);
            assert_eq!(f.message, "Expected HELLO, got FileEnd");
        }
        other => panic!("unexpected {:?}", other),
    }
}

#[test]
fn server_chooses_mode_from_pull_flag() {
    let pull = Hello::new(HelloFlags::pull().union(HelloFlags::delete()), "/x".to_string());
    assert!(matches!(server_start(MessageType::Hello, payload_of(pull.encode())).unwrap(), ServerStart::Pull(_)));
    let push = Hello::new(HelloFlags::compression(), "/x".to_string());
    match server_start(MessageType::Hello, payload_of(push.encode())).unwrap() {
        ServerStart::Push(h) => assert_eq!(h.root_path, "/x"),
        other => panic!("unexpected {:?}", other),
    }
    assert!(server_start(MessageType::Hello, Bytes::from(vec![1u8])).is_err());
}

#[test]
fn server_reply_and_done_messages() {
    let h = server_hello_reply();
    assert_eq!(h.version, 2);
    assert_eq!(h.flags.bits(), 0);
    assert_eq!(h.root_path, "");
    let mut s = SyncStats::new();
    s.files_ok = 3;
    s.files_err = 1;
    s.bytes_transferred = 30;
    let d = push_done(&s);
    assert_eq!((d.files_ok, d.files_err, d.bytes, d.duration_ms), (3, 1, 30, 0));
    let d = pull_done(8, 80);
    assert_eq!((d.files_ok, d.files_err, d.bytes, d.duration_ms), (8, 0, 80, 0));
    assert_eq!(DataEnd::STATUS_OK, 0);
}

#[test]
fn tilde_forms() {
    assert!(matches!(tilde_form("~"), TildeForm::Home));
    match tilde_form("~/backup/x") {
        TildeForm::UnderHome(rest) => assert_eq!(rest, "backup/x"),
        other => panic!("unexpected {:?}", other),
    }
    assert!(matches!(tilde_form("~user/x"), TildeForm::Plain));
    assert!(matches!(tilde_form("/abs"), TildeForm::Plain));
    assert!(matches!(tilde_form(""), TildeForm::Plain));
    match tilde_form("~/") {
        TildeForm::UnderHome(rest) => assert_eq!(rest, ""),
        other => panic!("unexpected {:?}", other),
    }
}

fn texts(cs: &[C]) -> Vec<String> {
    cs.iter()
        .map(|c| match c {
            C::RootDir => "/".to_string(),
            C::CurDir => ".".to_string(),
            C::ParentDir => "..".to_string(),
            C::Normal(s) | C::Prefix(s) => s.clone(),
        })
        .collect()
}

#[test]
fn expand_tilde_with_home() {
    assert_eq!(texts(&expand_tilde_with("~", Some("/home/u"))), vec!["/", "home", "u"]);
    assert_eq!(texts(&expand_tilde_with("~", None)), vec!["."]);
    assert_eq!(texts(&expand_tilde_with("~/b/x", Some("/home/u"))), vec!["/", "home", "u", "b", "x"]);
    assert_eq!(texts(&expand_tilde_with("~/b/x", None)), vec!["~", "b", "x"]);
    assert_eq!(texts(&expand_tilde_with("/abs/p", Some("/home/u"))), vec!["/", "abs", "p"]);
    assert_eq!(texts(&expand_tilde_with("~user/x", Some("/home/u"))), vec!["~user", "x"]);
    assert_eq!(texts(&expand_tilde_with("a/~", Some("/home/u"))), vec!["a", "~"]);
}

#[test]
fn expand_tilde_keeps_plain_paths() {
    assert_eq!(texts(&msy::server::expand_tilde("/srv/x")), vec!["/", "srv", "x"]);
    assert_eq!(texts(&msy::server::expand_tilde("rel")), vec!["rel"]);
}

#[test]
fn data_end_status_decides_done_or_failed() {
    let mut r = ReceiverState::new();
    r.begin_file("a".to_string(), 0o644, 1);
    r.record_data("a", 7).unwrap();
    let p = r.take_pending("a").unwrap();
    r.record_data_end(&p, DataEnd::STATUS_OK);
    assert_eq!((r.stats().files_ok, r.stats().files_err, r.stats().bytes_transferred), (1, 0, 7));
    r.begin_file("b".to_string(), 0o644, 1);
    r.record_data("b", 9).unwrap();
    let p = r.take_pending("b").unwrap();
    r.record_data_end(&p, DataEnd::STATUS_ERROR);
    assert_eq!((r.stats().files_ok, r.stats().files_err, r.stats().bytes_transferred), (1, 1, 7));
}

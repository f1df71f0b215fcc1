use nearweave::clock::{Duration, Instant};
use nearweave::digest;
use nearweave::error::AppError;
use nearweave::files::canceling::CancelNotice;
use nearweave::files::destinations::{DestinationSearch, SearchStep};
use nearweave::files::receiving::{Attention, CompletionStep};
use nearweave::files::sending::{AckEvent, AttemptEnd, LinkWait};
use nearweave::files::sharing;
use nearweave::files::sharing::{ChildFacts, DirectoryPageMeta, PageRequest};
use nearweave::identity;
use nearweave::identity::{StoredIdentity, WritePhase};
use nearweave::ids::Uuid;
use nearweave::models::{ConnectionKind, LocalShare, TransferCancelResult, TransferState};
use nearweave::paths;
use nearweave::protocol::{Message, TransferSource};
use nearweave::state::{AppState, AppStateConfig, ReconnectTarget};

fn at(seconds: u64) -> Instant {
    Instant { nanos: seconds as u128 * 1_000_000_000 }
}

fn state() -> AppState {
    AppState::new(AppStateConfig {
        device_id: Uuid::nil(),
        device_name: "test".into(),
        receive_directory: "received".into(),
        legacy_receive_directory: None,
        identity: identity::DeviceIdentity { private_key: vec![1; 32], public_key: vec![2; 32] },
        trusted_devices: Vec::new(),
        clipboard_enabled: false,
        autostart_enabled: false,
        lan_enabled: false,
        lan_setup_decided: true,
    })
}

#[test]
fn sanitizes_remote_file_names() {
    assert_eq!(paths::sanitize_file_name("../a:b?.txt"), "a_b_.txt");
    assert_eq!(paths::sanitize_file_name("CON"), "_CON");
    assert_eq!(paths::sanitize_file_name(".."), "未命名文件");
}

#[test]
fn received_names_stay_in_their_directory() {
    for name in ["a/b/c.txt", "/etc/passwd", "..", "x\u{1}y", "nul.txt", "  ", "a.", "com1"] {
        let safe = paths::sanitize_file_name(name);
        assert!(paths::is_safe_relative(&safe));
        assert!(!safe.contains('/'));
        assert!(!safe.contains('\\'));
        assert!(!safe.is_empty());
    }
    assert_eq!(paths::sanitize_file_name("a/b/c.txt"), "c.txt");
    assert_eq!(paths::path_to_protocol("a/./b"), "a/b");
    assert!(paths::validate_relative_path("a/../b").is_err());
    assert!(paths::validate_relative_path("a/b").is_ok());
}

fn share(state: &mut AppState) -> Uuid {
    let share_id = Uuid::new_v4();
    state.local_shares.push(LocalShare {
        id: share_id,
        name: "shared".into(),
        path: "/tmp/shared".into(),
    });
    share_id
}

#[test]
fn shared_file_request_cannot_escape_authorized_root() {
    let mut state = state();
    let share_id = share(&mut state);
    assert!(state.resolve_shared_file(share_id, "allowed.txt").is_ok());
    assert!(state.resolve_shared_file(share_id, "../outside.txt").is_err());
    assert!(state.resolve_shared_file(share_id, "/etc/passwd").is_err());
    assert!(state.resolve_shared_file(Uuid::nil(), "allowed.txt").is_err());
    assert!(sharing::check_shared_file(false, true).is_err());
    assert!(sharing::check_shared_file(true, true).is_ok());
    assert!(sharing::check_not_linked_file(true).is_err());
}

fn child(path: &str, name: &str, directory: bool, symlink: bool) -> ChildFacts {
    ChildFacts {
        relative_path: path.into(),
        name: name.into(),
        size: 4,
        is_file: !directory,
        is_directory: directory,
        is_symlink: symlink,
    }
}

#[test]
fn lazy_directory_listing_returns_only_direct_children() {
    let mut state = state();
    let share_id = share(&mut state);
    let found = state.check_listing(share_id, "").expect("应列出根目录");
    let entries = sharing::list_direct_children(
        &found,
        vec![child("root.txt", "root.txt", false, false), child("child", "child", true, false)],
    );
    assert_eq!(entries.len(), 2);
    assert!(entries[0].is_directory);
    assert_eq!(entries[0].relative_path, "child");
    assert_eq!(entries[1].relative_path, "root.txt");
    assert!(!entries.iter().any(|entry| entry.name == "nested.txt"));
}

#[test]
fn listings_leave_links_out_and_sort_by_name() {
    let mut state = state();
    let share_id = share(&mut state);
    let found = state.check_listing(share_id, "a/b").expect("share");
    let entries = sharing::list_direct_children(
        &found,
        vec![
            child("B.txt", "B.txt", false, false),
            child("link", "link", true, true),
            child("a.txt", "a.txt", false, false),
            child("z", "z", true, false),
        ],
    );
    let names: Vec<&str> = entries.iter().map(|e| e.name.as_str()).collect();
    assert_eq!(names, vec!["z", "a.txt", "B.txt"]);
    assert!(state.check_listing(share_id, "../x").is_err());
    let page = sharing::page_bounds(200, 450);
    assert_eq!((page.start, page.end, page.next_offset), (200, 400, Some(400)));
    let last = sharing::page_bounds(400, 450);
    assert_eq!((last.start, last.end, last.next_offset), (400, 450, None));
    let past = sharing::page_bounds(900, 450);
    assert_eq!((past.start, past.end, past.next_offset), (450, 450, None));
}

fn reserve(state: &mut AppState, name: &str, on_disk: &[&str]) -> String {
    let mut search = DestinationSearch::new(name.to_string());
    loop {
        let candidate = search.candidate();
        let taken = on_disk.contains(&candidate.as_str());
        match search.answer(state, taken, Uuid::from_u128(1)) {
            SearchStep::Reserved(path) => return path,
            SearchStep::Continue(next) => search = next,
        }
    }
}

#[test]
fn concurrent_same_name_receives_reserve_different_paths() {
    let mut state = state();
    let first = reserve(&mut state, "同名.txt", &[]);
    let second = reserve(&mut state, "同名.txt", &[]);
    assert_ne!(first, second);
    state.release_reserved_destination(&first);
    state.release_reserved_destination(&second);
    assert!(!state.is_destination_reserved(&first));
}

#[test]
fn names_on_disk_are_not_taken_again() {
    let mut state = state();
    assert_eq!(reserve(&mut state, "a.txt", &["a.txt"]), "a (1).txt");
    assert_eq!(reserve(&mut state, "a.txt", &["a.txt"]), "a (2).txt");
}

#[test]
fn a_file_is_received_and_checked() {
    let mut state = state();
    let peer = Uuid::from_u128(5);
    let id = Uuid::from_u128(70);
    assert_eq!(state.check_file_offer(peer, id, at(1)), Ok(Attention::Proceed));
    state.accept_file_offer(peer, id, "a.txt".into(), 5, "a.txt".into(), "tmp".into(), at(1));
    assert!(state.check_file_offer(peer, id, at(1)).is_err());
    assert_eq!(state.check_file_chunk(peer, id, 0, b"hel", at(1)), Ok(Attention::Proceed));
    state.accept_file_chunk(peer, id, 0, b"hel", at(1));
    assert!(state.check_file_chunk(peer, id, 0, b"lo", at(1)).is_err());
    assert!(state.check_file_chunk(peer, id, 3, b"lo!", at(1)).is_err());
    state.accept_file_chunk(peer, id, 3, b"lo", at(2));
    let incoming = state.take_incoming(peer, id, at(2)).expect("file").expect("file");
    let sha = digest::hash_bytes(b"hello");
    let file = match state.check_incoming_file(peer, id, incoming, &sha, Ok(()), at(3)) {
        CompletionStep::Rename(file) => file,
        CompletionStep::Finished(_) => panic!("intact file expected"),
    };
    let done = state.complete_incoming_file(file, "/r/a.txt", Ok(()), at(3));
    assert!(done.discard.is_none());
    assert!(done.result.is_ok());
    assert!(matches!(
        done.reply.expect("reply").message,
        Message::TransferAck { accepted: true, .. }
    ));
    assert_eq!(state.transfers[0].state, TransferState::Completed);
}

#[test]
fn a_file_with_another_digest_is_refused() {
    let mut state = state();
    let peer = Uuid::from_u128(5);
    let id = Uuid::from_u128(70);
    state.accept_file_offer(peer, id, "a.txt".into(), 2, "a.txt".into(), "tmp".into(), at(1));
    state.accept_file_chunk(peer, id, 0, b"hi", at(1));
    let incoming = state.take_incoming(peer, id, at(2)).expect("file").expect("file");
    let wrong = digest::hash_bytes(b"ho");
    match state.check_incoming_file(peer, id, incoming, &wrong, Ok(()), at(3)) {
        CompletionStep::Finished(completion) => {
            assert_eq!(completion.discard, Some("tmp".to_string()));
            assert!(matches!(
                completion.reply.expect("reply").message,
                Message::TransferAck { accepted: false, .. }
            ));
        }
        CompletionStep::Rename(_) => panic!("refusal expected"),
    }
    assert_eq!(state.transfers[0].state, TransferState::Failed);
}

fn connect(state: &mut AppState, peer: Uuid) -> Uuid {
    state
        .install_connection(ConnectionKind::Lan, "peer".into(), Some(peer), None, None, at(1))
        .expect("connection")
        .generation
}

#[test]
fn a_file_is_sent_in_order_and_arrives_intact() {
    let mut sender_state = state();
    let mut receiver_state = state();
    let peer = Uuid::from_u128(5);
    connect(&mut sender_state, peer);
    let mut out = sender_state
        .begin_outgoing(
            peer,
            "/x/a.txt",
            true,
            Some("a.txt".into()),
            None,
            7,
            TransferSource::Direct,
            at(1),
        )
        .expect("transfer");
    let offer = out.begin_attempt(&mut sender_state, false, at(1)).expect("offer");
    let id = out.transfer_id;
    assert!(matches!(offer.message, Message::FileOffer { size: 7, .. }));
    receiver_state.accept_file_offer(peer, id, "a.txt".into(), 7, "a.txt".into(), "t".into(), at(1));
    let mut sender = out.offer_sent(&mut sender_state, at(1));
    for part in [b"abc".to_vec(), b"defg".to_vec()] {
        let frame = sender.chunk(part);
        let offset = match frame.message {
            Message::FileChunk { offset, .. } => offset,
            _ => panic!("chunk expected"),
        };
        assert_eq!(
            receiver_state.check_file_chunk(peer, id, offset, &frame.payload, at(2)),
            Ok(Attention::Proceed)
        );
        receiver_state.accept_file_chunk(peer, id, offset, &frame.payload, at(2));
        sender.chunk_sent(&mut sender_state, at(2));
    }
    let sha256 = match sender.complete().message {
        Message::FileComplete { sha256, .. } => sha256,
        _ => panic!("end expected"),
    };
    assert_eq!(sha256, digest::hash_bytes(b"abcdefg"));
    let incoming = receiver_state.take_incoming(peer, id, at(3)).expect("file").expect("file");
    assert!(matches!(
        receiver_state.check_incoming_file(peer, id, incoming, &sha256, Ok(()), at(3)),
        CompletionStep::Rename(_)
    ));
    assert_eq!(
        out.await_ack(&mut sender_state, AckEvent::Answer(true, "好".into())),
        Some(Ok(()))
    );
    assert!(out
        .await_ack(
            &mut sender_state,
            AckEvent::Tick { canceled: false, waited: Duration::from_secs(30) },
        )
        .is_some());
}

#[test]
fn a_broken_link_is_waited_for_twice() {
    let mut state = state();
    let peer = Uuid::from_u128(5);
    let first = connect(&mut state, peer);
    state.begin_reconnect_session(ReconnectTarget {
        device_id: Some(peer),
        display_name: "peer".into(),
        lan_endpoint: None,
        bluetooth_endpoint: Some("bt".into()),
    });
    let mut out = state
        .begin_outgoing(peer, "/x", true, None, None, 1, TransferSource::Direct, at(1))
        .expect("transfer");
    assert_eq!(out.name, "未命名文件");
    out.begin_attempt(&mut state, false, at(1)).expect("offer");
    state.finish_primary_connection(first, None, at(2));
    let mut waits = 0;
    let result = loop {
        match out.end_attempt(&mut state, Err(AppError::NotConnected), false, at(2)) {
            AttemptEnd::AwaitLink(next, _) => {
                waits += 1;
                out = next;
                assert_eq!(out.poll_link(&state, Duration::from_secs(1)), LinkWait::Waiting);
                assert_eq!(out.poll_link(&state, Duration::from_secs(45)), LinkWait::Lost);
                let generation = connect(&mut state, peer);
                assert_ne!(generation, first);
                assert_eq!(out.poll_link(&state, Duration::from_secs(2)), LinkWait::Ready);
                out.retry(&mut state, at(3));
                out.begin_attempt(&mut state, false, at(3)).expect("offer");
                state.finish_primary_connection(generation, None, at(4));
            }
            AttemptEnd::Finished(result) => break result,
        }
    };
    assert_eq!(waits, 2);
    assert!(result.is_err());
    assert!(state
        .begin_outgoing(peer, "/d", false, None, None, 1, TransferSource::Direct, at(1))
        .is_err());
}

#[test]
fn both_sides_can_cancel_a_transfer() {
    let mut state = state();
    let peer = Uuid::from_u128(5);
    let generation = connect(&mut state, peer);
    let id = Uuid::from_u128(70);
    state.accept_file_offer(peer, id, "a".into(), 5, "a".into(), "tmp".into(), at(1));
    let (local, answer) = state.accept_transfer_cancel(peer, id, "不要了", at(2));
    assert_eq!(local.result, TransferCancelResult::Canceled);
    assert_eq!(local.discard, Some("tmp".to_string()));
    assert!(matches!(
        answer.message,
        Message::TransferCancelAck { result: TransferCancelResult::Canceled, .. }
    ));
    assert_eq!(state.check_file_chunk(peer, id, 0, b"late", at(3)), Ok(Attention::Ignore));
    let (local, _) = state.accept_transfer_cancel(peer, Uuid::nil(), "?", at(3));
    assert_eq!(local.result, TransferCancelResult::NotFound);
    let out = state
        .begin_outgoing(peer, "/x", true, None, None, 1, TransferSource::Direct, at(3))
        .expect("transfer");
    let (local, notice) = state.cancel_transfer(peer, out.transfer_id, "用户主动取消".into(), at(4));
    assert!(local.stop_sender);
    assert!(matches!(notice, CancelNotice::Disconnect(_)));
    state.update_peer_identity(generation, peer, "p".into(), vec!["transfer_cancel_v1".into()]);
    let out = state
        .begin_outgoing(peer, "/x", true, None, None, 1, TransferSource::Direct, at(5))
        .expect("transfer");
    let (_, notice) = state.cancel_transfer(peer, out.transfer_id, "用户主动取消".into(), at(6));
    assert!(matches!(notice, CancelNotice::Ask(_)));
}

#[test]
fn pages_of_directories_are_cached() {
    let mut state = state();
    let peer = Uuid::from_u128(5);
    let generation = connect(&mut state, peer);
    let share_id = Uuid::from_u128(30);
    assert!(state.request_directory_page(peer, share_id, "a".into(), 0).is_err());
    state.update_peer_identity(generation, peer, "p".into(), vec!["lazy_directory_browse_v1".into()]);
    let root = nearweave::models::SharedRoot { id: share_id, name: "文档".into() };
    state.accept_share_roots(peer, Uuid::from_u128(1), vec![root]).expect("roots");
    let request_id = match state.request_directory_page(peer, share_id, "a".into(), 0) {
        Ok(PageRequest::Ask { request_id, .. }) => request_id,
        _ => panic!("request expected"),
    };
    let meta = DirectoryPageMeta {
        request_id,
        share_id,
        relative_path: "a".into(),
        offset: 0,
        next_offset: None,
    };
    assert_eq!(state.accept_directory_page(peer, meta, Vec::new()), Ok(true));
    assert!(matches!(
        state.request_directory_page(peer, share_id, "a".into(), 0),
        Ok(PageRequest::Cached)
    ));
    assert!(state.request_directory_page(peer, share_id, "../a".into(), 0).is_err());
}

#[test]
fn fingerprint_is_stable_and_full_length() {
    let first = identity::fingerprint(&[7; 32]);
    let second = identity::fingerprint(&[7; 32]);
    assert_eq!(first, second);
    assert_eq!(first.len(), 64);
}

#[test]
fn digests_are_those_of_sha256() {
    assert_eq!(
        digest::hash_bytes(b"abc"),
        "ba7816bf8f01cfea414140de5dae2223b00361a396177a9cb410ff61f20015ad"
    );
    assert_eq!(
        identity::fingerprint(b""),
        "e3b0c44298fc1c149afbf4c8996fb92427ae41e4649b934ca495991b7852b855"
    );
}

#[test]
fn identities_have_keys_of_full_length() {
    let created = identity::create_identity().expect("identity");
    assert_eq!(created.private_key.len(), 32);
    assert_ne!(created.private_key, identity::create_identity().expect("identity").private_key);
    let stored = StoredIdentity { private_key: vec![1; 31], public_key: vec![2; 32] };
    assert!(identity::restore_identity(stored).expect_err("short").to_string().contains("密钥长度无效"));
    assert!(identity::identity_from_keypair(Err("x".into())).is_err());
    assert_eq!(identity::seconds_since_epoch(None), 0);
    assert!(identity::now_unix_seconds() > 1_600_000_000);
    let id = Uuid::from_u128(1);
    assert_eq!(
        identity::sibling_name(Some("t.json"), id, ".tmp"),
        "t.json.00000000-0000-0000-0000-000000000001.tmp"
    );
    assert!(identity::sibling_name(None, id, ".bak").starts_with("identity."));
}

#[test]
fn replacing_a_file_keeps_one_of_its_contents() {
    let run = |fails: &[usize]| {
        let mut phase = identity::begin_write(true);
        let mut steps = Vec::new();
        loop {
            let name = match &phase {
                WritePhase::CreateParent => "parent",
                WritePhase::WriteTemporary => "write",
                WritePhase::Publish => "publish",
                WritePhase::BackUp => "back up",
                WritePhase::Replace => "replace",
                WritePhase::Restore(_) => "restore",
                WritePhase::Discard(_) => "discard",
                WritePhase::RemoveBackup => "remove",
                WritePhase::Done(_) => "done",
            };
            if let WritePhase::Done(result) = phase {
                return (steps, result);
            }
            let outcome = if fails.contains(&steps.len()) { Err("e".to_string()) } else { Ok(()) };
            steps.push(name);
            phase = identity::next_write(phase, outcome, true, "b.bak");
        }
    };
    let (steps, result) = run(&[]);
    assert_eq!(steps, vec!["parent", "write", "back up", "replace", "remove"]);
    assert!(result.is_ok());
    let (steps, result) = run(&[3]);
    assert_eq!(steps, vec!["parent", "write", "back up", "replace", "restore", "discard"]);
    assert_eq!(result, Err(AppError::Io("e".into())));
    let (_, result) = run(&[3, 4]);
    assert_eq!(
        result.expect_err("lost").to_string(),
        "安全校验失败：更新身份数据失败，旧数据保留在 b.bak，自动恢复也失败：e"
    );
}

#[test]
fn identifiers_are_written_and_read() {
    let id = Uuid::from_u128(0x0123456789abcdef_0123456789abcdef);
    assert_eq!(id.to_string(), "01234567-89ab-cdef-0123-456789abcdef");
    assert_eq!(Uuid::parse_str("01234567-89ab-cdef-0123-456789abcdef"), Some(id));
    assert_eq!(Uuid::parse_str("nope"), None);
    assert_ne!(Uuid::new_v4(), Uuid::new_v4());
    assert_eq!((Uuid::new_v4().value >> 76) & 0xf, 4);
}

#[test]
fn every_error_has_its_message() {
    let text = |e: AppError| e.to_string();
    assert_eq!(text(AppError::NotConnected), "尚未连接另一台设备");
    assert_eq!(text(AppError::TransferCanceled), "传输已取消");
    assert_eq!(text(AppError::InvalidInput("x".into())), "输入无效：x");
    assert_eq!(text(AppError::Protocol("x".into())), "协议错误：x");
    assert_eq!(text(AppError::Security("x".into())), "安全校验失败：x");
    assert_eq!(text(AppError::Unsupported("x".into())), "当前平台暂不支持：x");
    assert_eq!(text(AppError::Bluetooth("x".into())), "蓝牙操作失败：x");
    assert_eq!(text(AppError::Io("x".into())), "文件操作失败：x");
    assert_eq!(text(AppError::Json("x".into())), "数据序列化失败：x");
}

#[test]
fn sanitizing_a_safe_name_changes_nothing() {
    for name in ["../a:b?.txt", "CON", "..", " a b . ", "dir\\x|y", "NUL.txt", "报告.pdf"] {
        let once = paths::sanitize_file_name(name);
        assert_eq!(paths::sanitize_file_name(&once), once);
    }
    assert_eq!(paths::sanitize_file_name("a\u{3000}."), "a\u{3000}");
    assert_eq!(paths::sanitize_file_name("a\u{3000}"), "a");
}

#[test]
fn parent_directories_are_refused_in_every_notation() {
    for path in ["../a\\b", "a\\b/../c", "/a\\b", "c:/../x", "a/..", "//server/share/x"] {
        assert!(!paths::is_safe_relative(path));
        assert!(paths::validate_relative_path(path).is_err());
    }
    assert!(paths::is_safe_relative("a..b/c"));
}

#[test]
fn fresh_identifiers_are_marked_as_random() {
    let id = Uuid::new_v4();
    assert_eq!((id.value >> 76) & 0xf, 4);
    assert_eq!((id.value >> 62) & 0x3, 2);
    assert_ne!(Uuid::new_v4(), id);
}

#[test]
fn native_paths_are_told_in_the_shared_notation() {
    let told = paths::path_to_protocol("sub\\file.txt");
    assert!(told == "sub/file.txt" || told == "sub\\file.txt");
    let told = paths::path_to_protocol("a/.\\b//c");
    assert!(told == "a/b/c" || told == "a/.\\b/c");
    let safe = paths::sanitize_file_name("dir\\report.txt");
    assert!(safe == "report.txt" || safe == "dir_report.txt");
}

#[test]
fn names_reserved_at_once_are_different_and_safe() {
    let mut state = state();
    let mut taken = Vec::new();
    for _ in 0..12 {
        let name = reserve(&mut state, "CON.a.txt", &["CON.a.txt", "CON.a (3).txt"]);
        assert!(!taken.contains(&name));
        assert!(state.is_destination_reserved(&name));
        taken.push(name);
    }
    assert_eq!(taken[0], "CON.a (1).txt");
    assert!(!taken.contains(&"CON.a (3).txt".to_string()));
    let name = paths::sanitize_file_name("aux");
    let first = reserve(&mut state, &name, &[]);
    let second = reserve(&mut state, &name, &[]);
    assert_eq!((first.as_str(), second.as_str()), ("_aux", "_aux (1)"));
    assert_eq!(paths::sanitize_file_name(&second), second);
}

#[test]
fn each_identity_has_the_public_half_of_its_private_key() {
    let a = nearweave::identity::create_identity().expect("identity");
    let b = nearweave::identity::create_identity().expect("identity");
    assert_ne!(a.private_key, a.public_key);
    assert_ne!(a.private_key, b.private_key);
    assert_ne!(a.public_key, b.public_key);
    assert!(nearweave::identity::now_unix_seconds() > 1_600_000_000);
}

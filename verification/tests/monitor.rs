use fk_kuro_launcher::log_decoder::build_lut;
use fk_kuro_launcher::monitor::{
    LogMonitor, WatchAction, WatchEvent, HOTFIX_RESTART_INTENT_TIMEOUT_NANOS,
};

const MARKER_BYTES: [u8; 29] = [
    0xed, 0x80, 0xd1, 0xe3, 0x86, 0xdd, 0xf7, 0x8a, 0x9c, 0xd1, 0x8e, 0xd7, 0xd1, 0xf1, 0x80,
    0xac, 0x80, 0x82, 0xd5, 0xc9, 0x8a, 0xd1, 0x8a, 0xed, 0x80, 0xd1, 0xe3, 0x86, 0xdd,
];

#[test]
fn marker_in_log_requests_restart_for_fifteen_seconds() {
    let lut = build_lut();
    let mut m = LogMonitor::new(100);
    assert_eq!(m.observe_log_len(100), 0);
    assert_eq!(m.observe_log_len(129), 29);
    assert!(m.absorb_log_bytes(&MARKER_BYTES, &lut, 1_000));
    assert_eq!(m.offset, 129);
    assert_eq!(m.pending_hotfix_restart, Some(1_000));
    assert!(m.tail.is_empty());
    assert!(m.hotfix_restart_requested(1_000));
    assert!(m.hotfix_restart_requested(1_000 + HOTFIX_RESTART_INTENT_TIMEOUT_NANOS));
    assert!(!m.hotfix_restart_requested(1_001 + HOTFIX_RESTART_INTENT_TIMEOUT_NANOS));
    // A clock reading earlier than the observation counts as no time elapsed.
    assert!(m.hotfix_restart_requested(0));
}

#[test]
fn marker_split_across_reads_is_recorded_once() {
    let lut = build_lut();
    let mut m = LogMonitor::new(0);
    assert!(!m.absorb_log_bytes(&MARKER_BYTES[..10], &lut, 5));
    assert!(m.absorb_log_bytes(&MARKER_BYTES[10..], &lut, 7));
    assert_eq!(m.pending_hotfix_restart, Some(7));
    // A second marker while the request is active keeps the first time.
    assert!(!m.absorb_log_bytes(&MARKER_BYTES, &lut, 9));
    assert_eq!(m.pending_hotfix_restart, Some(7));
    assert_eq!(m.offset, 58);
}

#[test]
fn ordinary_log_lines_never_request_restart() {
    let lut = build_lut();
    let mut m = LogMonitor::new(0);
    // "Engine exit requested" in the log cipher, plus some unmapped bytes.
    let text = "Engine exit requested";
    let bytes: Vec<u8> = text
        .chars()
        .map(|c| (0u8..=255).find(|b| lut[*b as usize] == Some(c)).unwrap())
        .collect();
    assert!(!m.absorb_log_bytes(&bytes, &lut, 1));
    assert!(!m.absorb_log_bytes(&[0x00, 0x41, 0x42], &lut, 2));
    assert_eq!(m.pending_hotfix_restart, None);
    assert!(!m.hotfix_restart_requested(3));
    assert_eq!(m.tail.chars().count(), 24);
}

#[test]
fn empty_read_changes_nothing() {
    let lut = build_lut();
    let mut m = LogMonitor::new(7);
    assert!(!m.absorb_log_bytes(&[], &lut, 1));
    assert_eq!(m.offset, 7);
}

#[test]
fn shorter_log_starts_over() {
    let lut = build_lut();
    let mut m = LogMonitor::new(0);
    assert!(m.absorb_log_bytes(&MARKER_BYTES, &lut, 1));
    assert_eq!(m.observe_log_len(10), 10);
    assert_eq!(m.offset, 0);
    assert_eq!(m.pending_hotfix_restart, None);
    assert!(m.tail.is_empty());
}

#[test]
fn expired_request_is_dropped() {
    let lut = build_lut();
    let mut m = LogMonitor::new(0);
    assert!(m.absorb_log_bytes(&MARKER_BYTES, &lut, 10));
    assert!(!m.expire_intent(10 + HOTFIX_RESTART_INTENT_TIMEOUT_NANOS));
    assert_eq!(m.pending_hotfix_restart, Some(10));
    assert!(m.expire_intent(11 + HOTFIX_RESTART_INTENT_TIMEOUT_NANOS));
    assert_eq!(m.pending_hotfix_restart, None);
    assert!(!m.expire_intent(12 + HOTFIX_RESTART_INTENT_TIMEOUT_NANOS));
}

#[test]
fn respawn_consumes_request() {
    let lut = build_lut();
    let mut m = LogMonitor::new(0);
    assert!(m.absorb_log_bytes(&MARKER_BYTES[..20], &lut, 10) == false);
    m.reset_after_respawn(Some(500));
    assert_eq!(m.offset, 500);
    assert!(m.tail.is_empty());
    m.reset_after_respawn(None);
    assert_eq!(m.offset, 500);
    assert_eq!(m.pending_hotfix_restart, None);
}

#[test]
fn watch_steps_follow_the_restart_request() {
    let lut = build_lut();
    let mut m = LogMonitor::new(0);
    assert!(matches!(m.on_watch_event(WatchEvent::ChildRunning, 1), WatchAction::KeepWatching));
    assert!(matches!(m.on_watch_event(WatchEvent::ChildExited, 1), WatchAction::ShutDown));
    assert!(m.absorb_log_bytes(&MARKER_BYTES, &lut, 2));
    assert!(matches!(m.on_watch_event(WatchEvent::ChildExited, 3), WatchAction::Respawn));
    assert!(matches!(
        m.on_watch_event(WatchEvent::RespawnSucceeded { log_len: Some(77) }, 4),
        WatchAction::ResumeAfterRespawn
    ));
    assert_eq!(m.offset, 77);
    assert_eq!(m.pending_hotfix_restart, None);
    assert!(matches!(m.on_watch_event(WatchEvent::ChildExited, 5), WatchAction::ShutDown));
    assert!(matches!(m.on_watch_event(WatchEvent::ExitRequested, 6), WatchAction::Stop));
    assert!(matches!(
        m.on_watch_event(WatchEvent::WaitFailed, 6),
        WatchAction::ReportWaitErrorAndStop
    ));
    assert!(matches!(
        m.on_watch_event(WatchEvent::RespawnFailed, 6),
        WatchAction::ReportSpawnErrorAndStop
    ));
    // A request older than the window no longer relaunches the game.
    assert!(m.absorb_log_bytes(&MARKER_BYTES, &lut, 10));
    assert!(matches!(
        m.on_watch_event(WatchEvent::ChildExited, 11 + HOTFIX_RESTART_INTENT_TIMEOUT_NANOS),
        WatchAction::ShutDown
    ));
}

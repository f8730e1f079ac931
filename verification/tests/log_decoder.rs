use fk_kuro_launcher::log_decoder::{
    build_lut, decode_bytes, retain_restart_marker_suffix, update_restart_marker_tail,
    RESTART_MARKERS,
};

#[test]
fn test_hotfix_restart_marker_detected_across_log_reads() {
    let mut tail = String::new();

    assert!(!update_restart_marker_tail(
        &mut tail,
        "HotFixRestartToComplete"
    ));
    assert_eq!(tail, "HotFixRestartToComplete");
    assert!(update_restart_marker_tail(&mut tail, "HotFix"));
    assert!(tail.is_empty());
}

#[test]
fn test_normal_exit_markers_do_not_request_restart() {
    let mut tail = String::new();

    assert!(!update_restart_marker_tail(
        &mut tail,
        "Engine exit requested (reason: EngineExit())"
    ));
    assert!(!update_restart_marker_tail(
        &mut tail,
        "KuroHotPatch module shutdown"
    ));
    assert!(!update_restart_marker_tail(&mut tail, "RequestExitWithStatus"));
    assert!(!update_restart_marker_tail(&mut tail, "NeedRestart"));
}

#[test]
fn test_restart_marker_case_insensitive() {
    let mut tail = String::new();
    assert!(update_restart_marker_tail(
        &mut tail,
        "hotfixrestarttocompletehotfix"
    ));
    assert!(tail.is_empty());
}

#[test]
fn test_hotfix_marker_decodes_uppercase_f_bytes() {
    let lut = build_lut();
    let bytes = [
        0xed, 0x80, 0xd1, 0xe3, 0x86, 0xdd, 0xf7, 0x8a, 0x9c, 0xd1, 0x8e, 0xd7, 0xd1,
        0xf1, 0x80, 0xac, 0x80, 0x82, 0xd5, 0xc9, 0x8a, 0xd1, 0x8a, 0xed, 0x80, 0xd1,
        0xe3, 0x86, 0xdd,
    ];

    let decoded = decode_bytes(&bytes, &lut);
    assert_eq!(decoded, "HotFixReStartToCompleteHotFix");

    let mut tail = String::new();
    assert!(update_restart_marker_tail(&mut tail, &decoded));
}

#[test]
fn test_restart_marker_tail_is_bounded_without_marker() {
    let mut tail = String::new();
    let long_text = "x".repeat(256);

    assert!(!update_restart_marker_tail(&mut tail, &long_text));
    let max_keep = RESTART_MARKERS
        .iter()
        .map(|m| m.chars().count())
        .max()
        .unwrap()
        - 1;
    assert_eq!(tail.chars().count(), max_keep);
}

#[test]
fn lut_maps_cipher_bytes_and_leaves_others_unmapped() {
    let lut = build_lut();
    assert_eq!(lut[0xb4], Some('['));
    assert_eq!(lut[0xaf], Some('\n'));
    assert_eq!(lut[0xc0], Some('\\'));
    assert_eq!(lut[0x85], Some(' '));
    assert_eq!(lut[0xfd], Some(' '));
    assert_eq!(lut[0xdf], Some('z'));
    assert_eq!(lut[0x41], None);
    assert_eq!(lut[0x00], None);
    assert_eq!(lut.iter().filter(|e| e.is_some()).count(), 68);
}

#[test]
fn decode_passes_unmapped_bytes_through_as_latin1() {
    let lut = build_lut();
    let decoded = decode_bytes(&[0x41, 0xe9, 0xff, 0x95], &lut);
    // 0x41 'A' is unmapped, 0xe9 is 'L', 0xff is unmapped (ÿ), 0x95 is '0'.
    assert_eq!(decoded, "AL\u{ff}0");
    assert_eq!(decode_bytes(&[], &lut), "");
}

#[test]
fn decode_of_concatenation_is_concatenation_of_decodes() {
    let lut = build_lut();
    let a = [0xed, 0x80, 0xd1];
    let b = [0xe3, 0x86, 0xdd, 0x00];
    let whole: Vec<u8> = a.iter().chain(b.iter()).copied().collect();
    let joined = format!("{}{}", decode_bytes(&a, &lut), decode_bytes(&b, &lut));
    assert_eq!(decode_bytes(&whole, &lut), joined);
}

#[test]
fn retain_suffix_keeps_last_28_chars() {
    let mut short = String::from("abc");
    retain_restart_marker_suffix(&mut short);
    assert_eq!(short, "abc");

    let mut long = String::from("0123456789abcdefghijklmnopqrstuvwxyz");
    retain_restart_marker_suffix(&mut long);
    assert_eq!(long, "89abcdefghijklmnopqrstuvwxyz");
    assert_eq!(long.chars().count(), 28);

    let mut wide = "é".repeat(40);
    retain_restart_marker_suffix(&mut wide);
    assert_eq!(wide, "é".repeat(28));
}

#[test]
fn marker_split_over_three_reads_is_detected() {
    let mut tail = String::new();
    assert!(!update_restart_marker_tail(&mut tail, "noise noise HOTFIX"));
    assert!(!update_restart_marker_tail(&mut tail, "ReStartTo"));
    assert!(update_restart_marker_tail(&mut tail, "CompleteHotfix trailing"));
    assert_eq!(tail, "");
}

#[test]
fn tail_after_miss_is_suffix_of_concatenation() {
    let mut tail = String::from("abc");
    assert!(!update_restart_marker_tail(&mut tail, "def"));
    assert_eq!(tail, "abcdef");
}

#[test]
fn marker_split_at_every_point_is_found_exactly_once() {
    let text = "noise before HotFixReStartToCompleteHotFix after";
    for cut in 0..=text.len() {
        let (a, b) = text.split_at(cut);
        let mut tail = String::new();
        let first = update_restart_marker_tail(&mut tail, a);
        let second = update_restart_marker_tail(&mut tail, b);
        assert!(first != second, "cut at {}", cut);
    }
}

#[test]
fn latin1_marker_text_is_found_across_reads() {
    // Decoded logs hold Latin-1 characters; uppercase Latin-1 letters around
    // the marker do not hide it.
    let mut tail = String::new();
    assert!(!update_restart_marker_tail(&mut tail, "\u{c9}t\u{e9} HOTFIXRESTART"));
    assert!(update_restart_marker_tail(&mut tail, "TOCOMPLETEHOTFIX \u{ff}\u{d7}"));
    let mut tail = String::new();
    assert!(!update_restart_marker_tail(&mut tail, "HOTFIX\u{c0}RESTARTTOCOMPLETEHOTFIX"));
}

use fk_kuro_launcher::update::{
    backup_exe_path, download_exe_path, is_newer_version, newer_release_tag, parse_version,
    update_step, UpdateAction, UpdateEvent,
};

#[test]
fn parse_version_accepts_tags_with_prefix_and_suffix() {
    assert_eq!(parse_version("v1.2.3"), Some((1, 2, 3)));
    assert_eq!(parse_version("V1.2.3"), Some((1, 2, 3)));
    assert_eq!(parse_version("vv1.0.0"), Some((1, 0, 0)));
    assert_eq!(parse_version("  1.2.3 \r\n"), Some((1, 2, 3)));
    assert_eq!(parse_version("1.2.3-beta"), Some((1, 2, 3)));
    assert_eq!(parse_version("1.2.3.4"), Some((1, 2, 3)));
    assert_eq!(parse_version("0.10.200"), Some((0, 10, 200)));
}

#[test]
fn parse_version_follows_u64_parsing() {
    assert_eq!(parse_version("+1.2.3"), Some((1, 2, 3)));
    assert_eq!(parse_version("1.+2.3"), Some((1, 2, 3)));
    assert_eq!(parse_version("1.2.+3"), None);
    assert_eq!(parse_version("18446744073709551615.0.0"), Some((u64::MAX, 0, 0)));
    assert_eq!(parse_version("18446744073709551616.0.0"), None);
    assert_eq!(parse_version("1.2.99999999999999999999"), None);
    assert_eq!(parse_version("-1.2.3"), None);
}

#[test]
fn parse_version_rejects_incomplete_tags() {
    assert_eq!(parse_version(""), None);
    assert_eq!(parse_version("v"), None);
    assert_eq!(parse_version("1"), None);
    assert_eq!(parse_version("1.2"), None);
    assert_eq!(parse_version("1.2."), None);
    assert_eq!(parse_version("1..3"), None);
    assert_eq!(parse_version("a.b.c"), None);
    assert_eq!(parse_version("1.2.x"), None);
}

#[test]
fn newer_version_compares_lexicographically() {
    assert!(is_newer_version("0.1.0", "0.2.0"));
    assert!(is_newer_version("0.1.9", "0.2.0"));
    assert!(is_newer_version("1.2.3", "1.2.4"));
    assert!(is_newer_version("1.9.9", "2.0.0"));
    assert!(is_newer_version("v0.1.0", "0.1.1"));
    assert!(!is_newer_version("0.2.0", "0.1.9"));
    assert!(!is_newer_version("1.2.3", "v1.2.3"));
    assert!(!is_newer_version("1.2.3", "1.2.3"));
}

#[test]
fn unparsable_versions_are_never_newer() {
    assert!(!is_newer_version("1.0.0", "garbage"));
    assert!(!is_newer_version("garbage", "1.0.0"));
    assert!(!is_newer_version("", ""));
}

#[test]
fn newer_release_tag_trims_and_compares() {
    assert_eq!(
        newer_release_tag("0.1.0", b"v0.2.0\r\n"),
        Some("v0.2.0".to_string())
    );
    assert_eq!(newer_release_tag("0.2.0", b"v0.2.0\n"), None);
    assert_eq!(newer_release_tag("0.1.0", b"   "), None);
    assert_eq!(newer_release_tag("0.1.0", b""), None);
    // Invalid UTF-8 is replaced by U+FFFD, which is no whitespace; after the
    // patch digits it is ignored like any other suffix.
    assert_eq!(
        newer_release_tag("0.1.0", b"v0.2.0\xff"),
        Some("v0.2.0\u{fffd}".to_string())
    );
    assert_eq!(newer_release_tag("0.1.0", b"\xff\n"), None);
}

#[test]
fn update_file_names() {
    assert_eq!(backup_exe_path("C:\\x\\fk.exe"), "C:\\x\\fk.exe.old");
    assert_eq!(download_exe_path("/tmp/fk"), "/tmp/fk.new");
}

#[test]
fn parse_version_trims_unicode_whitespace() {
    assert_eq!(parse_version("\u{3000}v2.0.1\u{a0}\u{2028}"), Some((2, 0, 1)));
    assert_eq!(parse_version("\u{85}1.2.3"), Some((1, 2, 3)));
    assert_eq!(parse_version("\u{200b}1.2.3"), None);
}

#[test]
fn formatted_versions_round_trip() {
    for (pfx, a, b, c) in [("", 0u64, 0u64, 0u64), ("v", 1, 22, 333), ("V", u64::MAX, 7, u64::MAX)] {
        assert_eq!(parse_version(&format!("{}{}.{}.{}", pfx, a, b, c)), Some((a, b, c)));
    }
}

#[test]
fn update_steps_keep_an_executable_in_place() {
    assert!(matches!(
        update_step(UpdateEvent::Begin { backup_exists: true }),
        UpdateAction::MoveCurrentAside { remove_stale_backup: true }
    ));
    assert!(matches!(
        update_step(UpdateEvent::Begin { backup_exists: false }),
        UpdateAction::MoveCurrentAside { remove_stale_backup: false }
    ));
    assert!(matches!(update_step(UpdateEvent::MovedAside { ok: false }), UpdateAction::Fail));
    assert!(matches!(update_step(UpdateEvent::MovedAside { ok: true }), UpdateAction::InstallNew));
    assert!(matches!(
        update_step(UpdateEvent::Installed { ok: false }),
        UpdateAction::RestoreAndFail
    ));
    assert!(matches!(
        update_step(UpdateEvent::Installed { ok: true }),
        UpdateAction::RemoveBackupAndSucceed
    ));
}

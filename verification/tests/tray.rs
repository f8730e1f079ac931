use fk_kuro_launcher::tray::{
    make_default_icon_rgba, status_text, tray_step, wide, MenuChoice, TrayAction, TrayEvent,
    TrayStatus,
};

#[test]
fn wide_matches_std_utf16_with_terminator() {
    for s in ["", "open", "fk_kuro_launcher \u{2014} Starting\u{2026}", "\u{1F600}x", "\u{10FFFF}"] {
        let expected: Vec<u16> = s.encode_utf16().chain(std::iter::once(0)).collect();
        assert_eq!(wide(s), expected);
    }
}

#[test]
fn default_icon_is_solid_blue_16x16() {
    let (data, w, h) = make_default_icon_rgba();
    assert_eq!((w, h), (16, 16));
    assert_eq!(data.len(), 16 * 16 * 4);
    for px in data.chunks(4) {
        assert_eq!(px, &[0x40, 0x80, 0xFF, 0xFF]);
    }
}

#[test]
fn status_lines() {
    assert_eq!(
        status_text(&TrayStatus::Starting).as_deref(),
        Some("fk_kuro_launcher \u{2014} Starting\u{2026}")
    );
    assert_eq!(
        status_text(&TrayStatus::Running { pid: 4321 }).as_deref(),
        Some("fk_kuro_launcher \u{2014} Running (PID 4321)")
    );
    assert_eq!(
        status_text(&TrayStatus::Running { pid: 0 }).as_deref(),
        Some("fk_kuro_launcher \u{2014} Running (PID 0)")
    );
    assert_eq!(
        status_text(&TrayStatus::Running { pid: u32::MAX }).as_deref(),
        Some("fk_kuro_launcher \u{2014} Running (PID 4294967295)")
    );
    assert_eq!(
        status_text(&TrayStatus::HotfixRestart).as_deref(),
        Some("fk_kuro_launcher \u{2014} Restarting (hotfix)\u{2026}")
    );
    assert_eq!(
        status_text(&TrayStatus::Failed { message: "oops".to_string() }).as_deref(),
        Some("fk_kuro_launcher \u{2014} Error: oops")
    );
    assert_eq!(status_text(&TrayStatus::Exiting), None);
}

#[test]
fn tray_steps() {
    assert!(matches!(tray_step(TrayEvent::Menu(MenuChoice::OpenLauncherLog)), TrayAction::OpenLauncherLog));
    assert!(matches!(tray_step(TrayEvent::Menu(MenuChoice::OpenDataFolder)), TrayAction::OpenDataFolder));
    assert!(matches!(tray_step(TrayEvent::Menu(MenuChoice::Exit)), TrayAction::RequestExitAndClose));
    match tray_step(TrayEvent::Status(TrayStatus::Running { pid: 12 })) {
        TrayAction::ShowText(t) => assert_eq!(t, "fk_kuro_launcher \u{2014} Running (PID 12)"),
        _ => panic!("expected a status text"),
    }
    assert!(matches!(tray_step(TrayEvent::Status(TrayStatus::Exiting)), TrayAction::Close));
    assert!(matches!(tray_step(TrayEvent::WorkerGone), TrayAction::Close));
}

use fk_kuro_launcher::logging::{error_log_path, get_appdata_dir, get_launcher_log_path};

#[test]
fn appdata_dir_prefers_local_app_data() {
    assert_eq!(
        get_appdata_dir(Some("/local"), Some("/home/u"), "/tmp"),
        "/local/fk_kuro_launcher"
    );
    assert_eq!(
        get_appdata_dir(Some("  "), Some("/home/u"), "/tmp"),
        "/home/u/AppData/Local/fk_kuro_launcher"
    );
    assert_eq!(get_appdata_dir(None, Some(""), "/tmp"), "/tmp/fk_kuro_launcher");
    assert_eq!(get_appdata_dir(None, None, "/tmp"), "/tmp/fk_kuro_launcher");
}

#[test]
fn launcher_files() {
    assert_eq!(get_launcher_log_path("/d"), "/d/launcher.log");
    assert_eq!(error_log_path("/d"), "/d/fk_kuro_launcher_error.log");
}

use fk_kuro_launcher::paths::{
    game_parent_dir, get_game_root_dir, get_log_candidates, get_shipping_exe_candidates,
    get_steam_path_from_registry, resolve_paths, split_steam_command_args,
    split_steam_command_args_for_test, steam_command_prefixes,
};

#[test]
fn game_root_of_win64_layout_is_four_levels_up() {
    assert_eq!(
        get_game_root_dir("/games/WW/Client/Binaries/Win64/Client-Win64-Shipping.exe"),
        "/games/WW"
    );
    assert_eq!(
        get_game_root_dir("/games/WW/client/binaries/WIN64/Client-Win64-Shipping.exe"),
        "/games/WW"
    );
    assert_eq!(get_game_root_dir("Client/Binaries/Win64/x.exe"), ".");
}

#[test]
fn game_root_of_other_layouts_is_the_parent() {
    assert_eq!(
        get_game_root_dir("/opt/game/Wuthering Waves.exe"),
        "/opt/game"
    );
    assert_eq!(get_game_root_dir("game.exe"), ".");
    assert_eq!(get_game_root_dir(""), ".");
    assert_eq!(get_game_root_dir("/"), ".");
}

#[test]
fn candidates_are_listed_in_search_order() {
    let exes = get_shipping_exe_candidates("/g");
    assert_eq!(
        exes,
        vec![
            "/g/Client/Binaries/Win64/Client-Win64-Shipping.exe".to_string(),
            "/g/Wuthering Waves Game/Client/Binaries/Win64/Client-Win64-Shipping.exe".to_string(),
            "/g/Wuthering Waves/Client/Binaries/Win64/Client-Win64-Shipping.exe".to_string(),
            "/g/Binaries/Win64/Client-Win64-Shipping.exe".to_string(),
        ]
    );
    let logs = get_log_candidates("/g");
    assert_eq!(
        logs,
        vec![
            "/g/Client/Saved/Logs/Client.log".to_string(),
            "/g/Wuthering Waves Game/Client/Saved/Logs/Client.log".to_string(),
            "/g/Wuthering Waves/Client/Saved/Logs/Client.log".to_string(),
            "/g/Saved/Logs/Client.log".to_string(),
            "/g/Client.log".to_string(),
        ]
    );
}

#[test]
fn registry_value_is_ignored_when_blank() {
    assert_eq!(get_steam_path_from_registry(None), None);
    assert_eq!(get_steam_path_from_registry(Some("  \t".to_string())), None);
    assert_eq!(get_steam_path_from_registry(Some(String::new())), None);
    assert_eq!(
        get_steam_path_from_registry(Some("C:/Steam".to_string())),
        Some("C:/Steam".to_string())
    );
}

#[test]
fn game_parent_dir_prefers_input_then_steam_then_default() {
    assert_eq!(
        game_parent_dir(Some("/a/b/Client/Binaries/Win64/c.exe"), Some("/steam")),
        "/a/b"
    );
    assert_eq!(
        game_parent_dir(None, Some("/steam")),
        "/steam/steamapps/common/Wuthering Waves"
    );
    assert_eq!(
        game_parent_dir(None, None),
        "C:\\Program Files (x86)\\Steam\\steamapps\\common\\Wuthering Waves"
    );
}

#[test]
fn resolve_paths_picks_first_existing_candidates() {
    let (exe, log, extra) = resolve_paths(
        None,
        Some("/s"),
        &[false, true, true, false],
        false,
        &[false, false, false, true, true],
    );
    assert_eq!(
        exe,
        "/s/steamapps/common/Wuthering Waves/Wuthering Waves Game/Client/Binaries/Win64/Client-Win64-Shipping.exe"
    );
    assert_eq!(log, "/s/steamapps/common/Wuthering Waves/Saved/Logs/Client.log");
    assert!(extra.is_empty());
}

#[test]
fn resolve_paths_falls_back_to_input_then_first_candidate() {
    let input = "/w/Wuthering Waves.exe";
    let (exe, log, _) = resolve_paths(Some(input), None, &[false; 4], true, &[]);
    assert_eq!(exe, input);
    assert_eq!(log, "/w/Client/Saved/Logs/Client.log");
    let (exe, _, _) = resolve_paths(Some(input), None, &[], false, &[]);
    assert_eq!(exe, "/w/Client/Binaries/Win64/Client-Win64-Shipping.exe");
}

#[test]
fn split_rejoins_exe_path_with_spaces() {
    let (cmd, rest) = split_steam_command_args_for_test(
        &["C:\\Games\\Wuthering", "Waves\\Wuthering", "Waves.EXE", "-dx12", "-foo"],
        &[],
    );
    assert_eq!(
        cmd.as_deref(),
        Some("C:\\Games\\Wuthering Waves\\Wuthering Waves.EXE")
    );
    assert_eq!(rest, vec!["-dx12".to_string(), "-foo".to_string()]);
}

#[test]
fn split_stops_at_existing_file() {
    let (cmd, rest) = split_steam_command_args_for_test(
        &["/games/launcher", "arg one", "x.exe"],
        &[true, false, false],
    );
    assert_eq!(cmd.as_deref(), Some("/games/launcher"));
    assert_eq!(rest, vec!["arg one".to_string(), "x.exe".to_string()]);
}

#[test]
fn split_without_terminator_keeps_whole_line_as_command() {
    let (cmd, rest) = split_steam_command_args_for_test(&["foo", "bar", "baz"], &[false; 3]);
    assert_eq!(cmd.as_deref(), Some("foo bar baz"));
    assert_eq!(rest, vec!["bar".to_string(), "baz".to_string()]);
}

#[test]
fn split_of_empty_line() {
    let (cmd, rest) = split_steam_command_args(&[], &[]);
    assert_eq!(cmd, None);
    assert!(rest.is_empty());
}

#[test]
fn split_skips_space_after_empty_text() {
    let (cmd, rest) = split_steam_command_args_for_test(&["", "a.exe", "b"], &[]);
    assert_eq!(cmd.as_deref(), Some("a.exe"));
    assert_eq!(rest, vec!["b".to_string()]);
}

#[test]
fn prefixes_join_growing_argument_lists() {
    let args: Vec<String> = vec!["a".into(), "b c".into(), "d".into()];
    assert_eq!(
        steam_command_prefixes(&args),
        vec!["a".to_string(), "a b c".to_string(), "a b c d".to_string()]
    );
}

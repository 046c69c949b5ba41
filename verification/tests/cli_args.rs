use sleuth::cli_args::{known_flags, normalize_and_filter_args, CLIArgs};
use sleuth::ini::IniMap;

fn cli_with(ini_overrides: IniMap) -> CLIArgs {
    CLIArgs {
        next_mod_actors: None,
        mod_paks: None,
        server_mods: None,
        ini_overrides,
        is_unchained: false,
        rcon_port: None,
        apply_desync_patch: false,
        use_backend_banlist: false,
        is_headless: false,
        next_map: None,
        launched_profile: None,
        playable_listen: false,
        register: false,
        server_browser_backend: None,
        server_password: None,
        platform: None,
        game_server_ping_port: None,
        game_server_query_port: None,
        game_port: None,
        discord_channel_id: None,
        discord_admin_channel_id: None,
        discord_general_channel_id: None,
        discord_admin_role_id: None,
        discord_bot_token: None,
        extra_args: vec![],
    }
}

fn strings(v: &[&str]) -> Vec<String> {
    v.iter().map(|s| s.to_string()).collect()
}

#[test]
fn test_normalize_ue_style_args() {
    let args = vec![
        "app".to_string(),
        "-rcon".to_string(), "9001".to_string(),
        "Port=7777".to_string(),
        "-nullrhi".to_string(),
        "-ini:Game:/Script/Engine.GameSession:MaxPlayers=64".to_string(),
        "UnknownArg=Value".to_string(),
        "-UnknownFlag".to_string(),
    ];
    let normalized = normalize_and_filter_args(args);

    assert_eq!(normalized[0], "app");
    assert!(normalized.contains(&"--rcon".to_string()));
    assert!(normalized.contains(&"9001".to_string()));
    assert!(normalized.contains(&"--Port".to_string()));
    assert!(normalized.contains(&"7777".to_string()));
    assert!(normalized.contains(&"--nullrhi".to_string()));
    assert!(normalized.contains(&"-ini:Game:/Script/Engine.GameSession:MaxPlayers=64".to_string()));

    assert!(!normalized.contains(&"UnknownArg=Value".to_string()));
    assert!(!normalized.contains(&"--UnknownArg".to_string()));
    assert!(!normalized.contains(&"--UnknownFlag".to_string()));

    assert_eq!(normalized.last().unwrap(), "-ini:Game:/Script/Engine.GameSession:MaxPlayers=64");
}

#[test]
fn test_process_ini_map() {
    let extra_args = vec![
        "-ini:Game:/Script/Engine.GameSession:MaxPlayers=64".to_string(),
        "-ini:Engine:[Core.Log]:LogHttp=VeryVerbose".to_string(),
        "not-an-ini".to_string(),
    ];
    let ini_map = CLIArgs::process_ini_map(&extra_args);

    assert_eq!(
        ini_map.get("Game", "/Script/Engine.GameSession", "MaxPlayers").unwrap(),
        "64"
    );
    assert_eq!(
        ini_map.get("Engine", "[Core.Log]", "LogHttp").unwrap(),
        "VeryVerbose"
    );
}

#[test]
fn test_find_ini_value() {
    let mut ini_overrides = IniMap::new();
    ini_overrides.insert(
        "Engine".to_string(),
        "[Core.Log]".to_string(),
        "LogHttp".to_string(),
        "VeryVerbose".to_string(),
    );
    let cli = cli_with(ini_overrides);

    let paths = [
        ("Engine", "[Core.Log]", "LogHttp"),
        ("Game", "/Script/Engine.GameSession", "MaxPlayers"),
    ];

    assert_eq!(cli.find_ini_value(&paths), Some("VeryVerbose"));

    let paths_missing = [("Missing", "Section", "Key")];
    assert_eq!(cli.find_ini_value(&paths_missing), None);
}

#[test]
fn test_is_server() {
    let mut cli = cli_with(IniMap::new());
    assert!(!cli.is_server());
    cli.rcon_port = Some(9001);
    assert!(cli.is_server());
}

#[test]
fn test_process_ini_map_complex() {
    let extra_args = vec![
        "-ini:Game:/Script/Engine.GameSession:MaxPlayers=64".to_string(),
        "-ini:Game:/Script/Engine.GameSession:ServerName=MyServer".to_string(),
        "-ini:Engine:[Core.Log]:LogHttp=VeryVerbose".to_string(),
    ];
    let ini_map = CLIArgs::process_ini_map(&extra_args);

    assert_eq!(ini_map.get("Game", "/Script/Engine.GameSession", "MaxPlayers").unwrap(), "64");
    assert_eq!(ini_map.get("Game", "/Script/Engine.GameSession", "ServerName").unwrap(), "MyServer");

    assert_eq!(
        ini_map.get("Engine", "[Core.Log]", "LogHttp").unwrap(),
        "VeryVerbose"
    );
}

#[test]
fn test_normalize_mixed_order() {
    let args = vec![
        "app".to_string(),
        "-ini:G:S:K=V".to_string(),
        "--rcon".to_string(), "9001".to_string(),
        "-unchained".to_string(),
    ];
    let normalized = normalize_and_filter_args(args);

    assert_eq!(normalized[0], "app");
    assert_eq!(normalized[1], "--rcon");
    assert_eq!(normalized[2], "9001");
    assert_eq!(normalized[3], "--unchained");
    assert_eq!(normalized[4], "-ini:G:S:K=V");
}

#[test]
fn test_extra_args_handling() {
    let args = vec![
        "app".to_string(),
        "--rcon".to_string(), "9001".to_string(),
        "SomethingElse".to_string(),
        "-UnknownFlag".to_string(),
    ];
    let normalized = normalize_and_filter_args(args);

    assert_eq!(normalized, vec!["app".to_string(), "--rcon".to_string(), "9001".to_string(), "SomethingElse".to_string()]);
    assert!(!normalized.contains(&"-UnknownFlag".to_string()));
    assert!(!normalized.contains(&"--UnknownFlag".to_string()));
}

#[test]
fn normalize_empty_input_keeps_default_program_name() {
    let normalized = normalize_and_filter_args(vec![]);
    assert_eq!(normalized, strings(&["app"]));
}

#[test]
fn normalize_splits_key_value_with_dashes() {
    let normalized = normalize_and_filter_args(strings(&["game.exe", "--server-password=secret", "-x"]));
    assert_eq!(normalized, strings(&["game.exe", "--server-password", "secret"]));
}

#[test]
fn normalize_keeps_ini_args_in_order_at_end() {
    let normalized = normalize_and_filter_args(strings(&["a", "-ini:A:B:C=1", "-nullrhi", "-ini:D:E:F=2"]));
    assert_eq!(normalized, strings(&["a", "--nullrhi", "-ini:A:B:C=1", "-ini:D:E:F=2"]));
}

#[test]
fn normalize_two_letter_dash_is_not_a_flag() {
    // "-x" is kept as is and is no known flag
    let normalized = normalize_and_filter_args(strings(&["a", "-x", "--register"]));
    assert_eq!(normalized, strings(&["a", "--register"]));
}

#[test]
fn known_flags_are_long_options() {
    let flags = known_flags();
    assert_eq!(flags.len(), 23);
    assert!(flags.contains(&"--rcon".to_string()));
    assert!(flags.contains(&"--GameServerPingPort".to_string()));
    assert!(flags.contains(&"--discord-bot-token".to_string()));
    assert!(flags.iter().all(|f| f.starts_with("--")));
}

#[test]
fn process_ini_map_later_value_wins_and_bad_entries_skipped() {
    let ini = CLIArgs::process_ini_map(&strings(&[
        "-ini:Game:S:K=1",
        "-ini:Game:S:K=2",
        "-ini:Game:NoValue",
        "-ini:Game:S:NoEquals",
        "-ini:F:S:K=a=b",
    ]));
    assert_eq!(ini.get("Game", "S", "K"), Some("2"));
    assert_eq!(ini.get("Game", "S", "NoEquals"), None);
    assert_eq!(ini.get("F", "S", "K"), Some("a=b"));
}

#[test]
fn find_ini_value_takes_first_path_that_is_set() {
    let mut ini = IniMap::new();
    ini.insert("A".to_string(), "S".to_string(), "K".to_string(), "first".to_string());
    ini.insert("B".to_string(), "S".to_string(), "K".to_string(), "second".to_string());
    let cli = cli_with(ini);
    assert_eq!(cli.find_ini_value(&[("B", "S", "K"), ("A", "S", "K")]), Some("second"));
    assert_eq!(cli.find_ini_value(&[]), None);
}

#[test]
fn discord_needs_server_token_and_channel() {
    let mut cli = cli_with(IniMap::new());
    cli.discord_bot_token = Some("token".to_string());
    cli.discord_channel_id = Some(42);
    assert!(!cli.discord_enabled());
    cli.rcon_port = Some(9001);
    assert!(cli.discord_enabled());
    cli.discord_channel_id = None;
    assert!(!cli.discord_enabled());
}

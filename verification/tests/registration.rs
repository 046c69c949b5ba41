use sleuth::cli_args::CLIArgs;
use sleuth::discord_config::DiscordConfig;
use sleuth::ini::IniMap;
use sleuth::mods::Mod;
use sleuth::registration::{
    update_payload, after_identity, registration_query_port,
    after_heartbeat, base_url, build_register_request, heartbeat_outcome, heartbeat_period,
    heartbeat_url, next_backoff, register_url, server_description, server_url, start_worker,
    status_after_registration, update_refused, A2sInfo, Identity, WorkerAction, WorkerState,
};

fn args() -> CLIArgs {
    CLIArgs {
        next_mod_actors: None,
        mod_paks: None,
        server_mods: None,
        ini_overrides: IniMap::new(),
        is_unchained: false,
        rcon_port: None,
        apply_desync_patch: false,
        use_backend_banlist: false,
        is_headless: false,
        next_map: None,
        launched_profile: None,
        playable_listen: false,
        register: false,
        server_browser_backend: Some("https://servers.polehammer.net".to_string()),
        server_password: None,
        platform: None,
        game_server_ping_port: Some(3075),
        game_server_query_port: None,
        game_port: None,
        discord_channel_id: None,
        discord_admin_channel_id: None,
        discord_general_channel_id: None,
        discord_admin_role_id: None,
        discord_bot_token: None,
        extra_args: vec![],
    }
}

fn info() -> A2sInfo {
    A2sInfo {
        name: "Query Name".to_string(),
        map: "FFA_Courtyard".to_string(),
        folder: "Chivalry 2".to_string(),
        game: "Chivalry 2".to_string(),
        version: "261891".to_string(),
        players: 12,
        max_players: 64,
        port: None,
    }
}

#[test]
fn backend_urls() {
    let a = args();
    let base = base_url(&a);
    assert_eq!(base, "https://servers.polehammer.net");
    assert_eq!(register_url(&base), "https://servers.polehammer.net/api/v1/servers");
    assert_eq!(server_url("b", "42"), "b//api/v1/servers/42");
    assert_eq!(heartbeat_url("b", "42"), "b//api/v1/servers/42/heartbeat");
    let mut none = args();
    none.server_browser_backend = None;
    assert_eq!(base_url(&none), "");
}

#[test]
fn description_format() {
    assert_eq!(
        server_description("Chivalry 2", "261891", "Chivalry 2"),
        "Chivalry 2 (build 261891)\nChivalry 2 server"
    );
}

#[test]
fn heartbeat_period_is_clamped() {
    assert_eq!(heartbeat_period(100, 90), 10);
    assert_eq!(heartbeat_period(100, 98), 5);
    assert_eq!(heartbeat_period(1000, 0), 30);
    assert_eq!(heartbeat_period(5, 10), 5);
}

#[test]
fn backoff_doubles_up_to_five_minutes() {
    assert_eq!(next_backoff(10), 20);
    assert_eq!(next_backoff(160), 300);
    assert_eq!(next_backoff(300), 300);
}

#[test]
fn identity_freshness_and_construction() {
    let id = Identity::from_registration("srv".to_string(), "key".to_string(), 1000, 990);
    assert_eq!(id.refresh_period, 10);
    assert_eq!(id.refresh_at, 1000);
    assert!(id.is_fresh(994));
    assert!(!id.is_fresh(995));
    let n = Identity::new("a".to_string(), "b".to_string());
    assert_eq!((n.id.as_str(), n.key.as_str(), n.refresh_period), ("a", "b", 60));
    let d = Identity::default();
    assert!(d.id.is_empty() && d.key.is_empty());
}

#[test]
fn heartbeat_outcomes() {
    assert!(update_refused(Some(401)));
    assert!(update_refused(Some(403)));
    assert!(!update_refused(Some(500)));
    assert!(!update_refused(None));
    assert_eq!(heartbeat_outcome(Some(200), Some(77), 5), Ok(77));
    assert_eq!(heartbeat_outcome(Some(204), None, 5), Ok(5));
    assert_eq!(heartbeat_outcome(Some(403), None, 5), Err(true));
    assert_eq!(heartbeat_outcome(Some(500), None, 5), Err(false));
    assert_eq!(heartbeat_outcome(None, None, 5), Err(false));
}

#[test]
fn worker_steps_after_heartbeat() {
    let id = Identity::from_registration("srv".to_string(), "key".to_string(), 1000, 980);
    assert_eq!(after_heartbeat(Ok(2000), 80, &id), (WorkerAction::Wait(20), 10, 2000));
    assert_eq!(after_heartbeat(Err(true), 80, &id), (WorkerAction::Stop, 80, id.refresh_at));
    assert_eq!(after_heartbeat(Err(false), 80, &id), (WorkerAction::Wait(80), 160, 1000));
}

#[test]
fn register_request_uses_ini_name_and_defaults() {
    let mut a = args();
    a.server_password = Some("pw".to_string());
    let mods = vec![Mod {
        name: "M".to_string(),
        organization: "O".to_string(),
        version: "1".to_string(),
        object_path: "/M".to_string(),
    }];
    let r = build_register_request(&info(), &a, mods);
    assert_eq!((r.ports.game, r.ports.ping, r.ports.a2s), (7777, 3075, 0));
    assert_eq!(r.name, "Query Name");
    assert_eq!(r.description, "Chivalry 2 (build 261891)\nChivalry 2 server");
    assert!(r.password_protected);
    assert_eq!((r.player_count, r.max_players), (12, 64));
    assert_eq!(r.local_ip_address, "127.0.0.1");

    let mut b = args();
    b.ini_overrides.insert(
        "Game".to_string(),
        "[/Script/TBL.TBLGameMode]".to_string(),
        "ServerName".to_string(),
        "My Server".to_string(),
    );
    let r2 = build_register_request(&info(), &b, vec![]);
    assert_eq!(r2.name, "My Server");
    let status = status_after_registration(r2, vec![]);
    assert_eq!(status.name, "My Server");
    assert_eq!(status.current_map, "FFA_Courtyard");
}

#[test]
fn worker_starts_once() {
    let mut s = WorkerState::Idle;
    assert!(start_worker(&mut s));
    assert_eq!(s, WorkerState::Running);
    assert!(!start_worker(&mut s));
    let mut t = WorkerState::StopRequested;
    assert!(start_worker(&mut t));
}

#[test]
fn heartbeat_payload_reports_players_and_map() {
    let p = update_payload(&info());
    assert_eq!(p.player_count, 12);
    assert_eq!(p.max_players, 64);
    assert_eq!(p.current_map, "FFA_Courtyard");
}

#[test]
fn failed_registrations_back_off_to_five_minutes() {
    let mut backoff = 10;
    let mut waits = Vec::new();
    for _ in 0..8 {
        let (wait, next) = after_identity(false, backoff);
        waits.push(wait.unwrap());
        backoff = next;
    }
    assert_eq!(waits, vec![10, 20, 40, 80, 160, 300, 300, 300]);
    assert_eq!(after_identity(true, 300), (None, 10));
}

#[test]
fn registration_starts_for_servers_or_on_request() {
    let mut a = args();
    assert_eq!(registration_query_port(&a), None);
    a.register = true;
    assert_eq!(registration_query_port(&a), Some(7071));
    a.register = false;
    a.rcon_port = Some(9001);
    a.game_server_query_port = Some(7777);
    assert_eq!(registration_query_port(&a), Some(7777));
}

#[test]
fn command_line_overrides_discord_config() {
    let mut cfg = DiscordConfig::default_with(&vec![]);
    cfg.channel_id = 5;
    cfg.admin_role_id = 6;
    let mut a = args();
    a.discord_bot_token = Some("tok".to_string());
    a.discord_channel_id = Some(11);
    a.discord_general_channel_id = Some(33);
    cfg.apply_cli_overrides(&a);
    assert_eq!(cfg.bot_token, "tok");
    assert_eq!(cfg.channel_id, 11);
    assert_eq!(cfg.admin_channel_id, 0);
    assert_eq!(cfg.general_channel_id, 33);
    assert_eq!(cfg.admin_role_id, 6);
}

use sleuth::chat_type::EChatType;
use sleuth::dashboard::{build_embed, Dashboard, DashboardTick, CTA_TEMPLATE_COUNT};
use sleuth::discord_config::{DiscordConfig, SettingsValue};
use sleuth::discord_modules::{CommandSource, DashboardSettings};
use sleuth::herald::{AdminHerald, HeraldAction};
use sleuth::mods::Mod;
use sleuth::notifications::ServerStatus;
use sleuth::responses::{accepts_message, channels_for, module_enabled, BotResponse, ChatType, Target};

fn m(name: &str, version: &str) -> Mod {
    Mod { name: name.to_string(), organization: "O".to_string(), version: version.to_string(), object_path: format!("/{name}") }
}

fn status(active: Vec<Mod>, all: Vec<Mod>) -> ServerStatus {
    ServerStatus {
        name: "Keep".to_string(),
        description: "Chivalry 2 (build 1)".to_string(),
        password_protected: false,
        current_map: "Courtyard".to_string(),
        player_count: 3,
        max_players: 64,
        mods: all,
        active_mods: active,
    }
}

#[test]
fn herald_commands_need_admin_role() {
    let h = AdminHerald::new(42);
    assert!(h.is_admin(&[7, 42]));
    assert!(!h.is_admin(&[7]));
    match h.on_command("!cmd servertravel Map", &[42]) {
        HeraldAction::Execute { command, reply } => {
            assert_eq!(command, "servertravel Map");
            assert_eq!(reply, "\u{2705} **Executed**: servertravel Map");
        }
        _ => panic!("expected execution"),
    }
    match h.on_command("!say hello all", &[42]) {
        HeraldAction::Broadcast { text, reply } => {
            assert_eq!(text, "hello all");
            assert_eq!(reply, "\u{2705} **Broadcasted**: hello all");
        }
        _ => panic!("expected a broadcast"),
    }
    match h.on_command("!say hello", &[1]) {
        HeraldAction::Denied { reply } => assert_eq!(reply, "\u{1F6AB} You do not have permission to use herald commands."),
        _ => panic!("expected a refusal"),
    }
    assert!(matches!(h.on_command("hello", &[42]), HeraldAction::Ignore));
    assert!(matches!(h.on_command("!cmd", &[42]), HeraldAction::Ignore));
}

#[test]
fn herald_alert_texts() {
    let h = AdminHerald::new(42);
    assert_eq!(h.alert_text("Ann", "cheater"), "\u{26A0}\u{FE0F} <@&42> **Internal Alert**: `Ann` reports: *\"cheater\"*");
    assert_eq!(
        h.crash_text("AccessViolation", &vec!["a".to_string(), "b".to_string()]),
        "\u{1F480} <@&42> **SERVER CRASH**: `AccessViolation` \ntrace: \n```\na\nb\n```"
    );
    assert_eq!(h.name(), "AdminHerald");
}

#[test]
fn dashboard_embed_lists_mods() {
    let e = build_embed(&status(vec![m("A", "1"), m("B", "2")], vec![m("A", "1"), m("B", "2"), m("C", "3"), m("D", "4")]));
    assert_eq!(e.title, "\u{1F310} Keep");
    assert_eq!(e.players, "3/64");
    assert_eq!(e.active_mods, "A *(1)*\n- B *(2)*");
    assert_eq!(e.all_mods, "-# C *(3)*, D *(4)*");
    assert_eq!(e.color, 0x2B2D31);
    let none = build_embed(&status(vec![], vec![m("A", "1")]));
    assert_eq!(none.active_mods, "None");
    assert_eq!(none.all_mods, "-# A *(1)*");
    let all_active = build_embed(&status(vec![m("A", "1")], vec![m("A", "1")]));
    assert_eq!(all_active.all_mods, "None");
}

#[test]
fn dashboard_ticks() {
    let mut d = Dashboard::new(DashboardSettings { auto_spawn_dash: false }, 0);
    assert_eq!(d.name(), "Dashboard");
    assert!(matches!(d.on_tick(100_000), DashboardTick::Idle));
    assert_eq!(d.cmd_dash(&CommandSource::Discord, "dash"), Some("Dashboard: no server status available".to_string()));
    d.on_status(status(vec![], vec![]));
    assert_eq!(d.cmd_dash(&CommandSource::GameChat, "dash"), None);
    assert_eq!(d.cmd_dash(&CommandSource::Discord, "dash"), None);
    match d.on_tick(1_000) {
        DashboardTick::Post { embed } => assert_eq!(embed.map, "Courtyard"),
        _ => panic!("expected a post"),
    }
    d.message_posted(99);
    assert!(matches!(d.on_tick(2_000), DashboardTick::Idle));
    d.on_join();
    match d.on_tick(3_000) {
        DashboardTick::Edit { message_id, .. } => assert_eq!(message_id, 99),
        _ => panic!("expected an edit"),
    }
    assert!(matches!(d.on_tick(32_999), DashboardTick::Idle));
    assert!(matches!(d.on_tick(33_000), DashboardTick::Edit { .. }));
    d.on_leave();
    d.on_leave();
    d.on_map_change("Tourney".to_string());
    d.reconfigure(DashboardSettings { auto_spawn_dash: true });
}

#[test]
fn dashboard_auto_spawn_posts_once_status_known() {
    let mut d = Dashboard::new(DashboardSettings { auto_spawn_dash: true }, 0);
    assert!(matches!(d.on_tick(10), DashboardTick::Idle));
    d.on_status(status(vec![m("A", "1")], vec![]));
    assert!(matches!(d.on_tick(20), DashboardTick::Post { .. }));
}

#[test]
fn call_to_arms_texts() {
    let mut d = Dashboard::new(DashboardSettings { auto_spawn_dash: false }, 0);
    assert!(d.call_to_arms("Bob", "help", 0, 0).is_none());
    d.on_status(status(vec![m("A", "1"), m("B", "2")], vec![]));
    let c = d.call_to_arms("Bob", "help us", 4, 2).unwrap();
    assert_eq!(c.description, "\u{2694}\u{FE0F} **Bob** is calling for all able-bodied warriors!\n> _help us_");
    assert_eq!(c.color, 0xf1c40f);
    assert_eq!(c.mods, "- **A** *(1)*\n- **B** *(2)*");
    assert_eq!(c.server, "Keep");
    let first = d.call_to_arms("Bob", "go", 0, 0).unwrap();
    assert_eq!(first.description, "**Bob** has issued a __**Call to Arms**__!\nJoin the server and fight for your honor!\nMessage: _go_");
    assert_eq!(CTA_TEMPLATE_COUNT, 14);
}

#[test]
fn call_to_arms_picks_a_template_and_colour() {
    let mut d = Dashboard::new(DashboardSettings { auto_spawn_dash: false }, 0);
    assert!(d.cmd_cta("Bob", "now").is_none());
    d.on_status(status(vec![m("A", "1")], vec![]));
    for _ in 0..50 {
        let c = d.cmd_cta("Bob", "now").unwrap();
        assert!([0xe67e22, 0xe74c3c, 0xf1c40f].contains(&c.color));
        let matches_one = (0..CTA_TEMPLATE_COUNT).any(|t| {
            (0..3).any(|k| {
                let e = d.call_to_arms("Bob", "now", t, k).unwrap();
                e.description == c.description && e.color == c.color
            })
        });
        assert!(matches_one);
        assert_eq!(c.mods, "- **A** *(1)*");
    }
}

fn obj(fields: &[(&str, &str)]) -> SettingsValue {
    SettingsValue::Object(fields.iter().map(|(a, b)| (a.to_string(), b.to_string())).collect())
}

fn raw(v: &SettingsValue) -> Option<Option<SettingsValue>> {
    Some(Some(match v {
        SettingsValue::Object(f) => SettingsValue::Object(f.clone()),
        SettingsValue::Other(x) => SettingsValue::Other(x.clone()),
    }))
}

fn fields(v: Option<SettingsValue>) -> Vec<(String, String)> {
    match v {
        Some(SettingsValue::Object(f)) => {
            let mut f = f.clone();
            f.sort();
            f
        }
        _ => panic!("expected an object"),
    }
}

#[test]
fn config_refresh_adds_defaults_once() {
    let providers = vec![("Dashboard".to_string(), obj(&[("auto_spawn_dash", "false")]))];
    let mut cfg = DiscordConfig::default_with(&providers);
    assert_eq!(cfg.bot_token, "INSERT_TOKEN_HERE");
    assert!(!cfg.refresh_modules(&providers));

    cfg.modules = vec![("Dashboard".to_string(), obj(&[("auto_spawn_dash", "true")]))];
    let newer = vec![
        ("Dashboard".to_string(), obj(&[("auto_spawn_dash", "false"), ("interval", "30")])),
        ("Herald".to_string(), obj(&[("ping", "true")])),
    ];
    assert!(cfg.refresh_modules(&newer));
    assert_eq!(
        fields(cfg.get_module_config(&"Dashboard".to_string(), raw, None)),
        vec![("auto_spawn_dash".to_string(), "true".to_string()), ("interval".to_string(), "30".to_string())]
    );
    assert_eq!(fields(cfg.get_module_config(&"Herald".to_string(), raw, None)), vec![("ping".to_string(), "true".to_string())]);
    assert!(!cfg.refresh_modules(&newer));
    assert!(cfg.get_module_config(&"Missing".to_string(), raw, None).is_none());
}

#[test]
fn config_refresh_keeps_non_objects() {
    let mut cfg = DiscordConfig::default_with(&vec![]);
    cfg.modules = vec![("Dashboard".to_string(), SettingsValue::Other("42".to_string()))];
    let providers = vec![("Dashboard".to_string(), obj(&[("auto_spawn_dash", "false")]))];
    assert!(!cfg.refresh_modules(&providers));
    assert!(matches!(cfg.get_module_config(&"Dashboard".to_string(), raw, None), Some(SettingsValue::Other(s)) if s.as_str() == "42"));
}

#[test]
fn module_config_falls_back_to_default() {
    let mut cfg = DiscordConfig::default_with(&vec![]);
    cfg.modules = vec![
        ("Dashboard".to_string(), obj(&[("auto_spawn_dash", "true")])),
        ("Herald".to_string(), SettingsValue::Other("oops".to_string())),
    ];
    let decode = |v: &SettingsValue| -> Option<DashboardSettings> {
        match v {
            SettingsValue::Object(f) => f
                .iter()
                .find(|(k, _)| k.as_str() == "auto_spawn_dash")
                .map(|(_, x)| DashboardSettings { auto_spawn_dash: x.as_str() == "true" }),
            SettingsValue::Other(_) => None,
        }
    };
    let found = cfg.get_module_config(&"Dashboard".to_string(), decode, DashboardSettings::default());
    assert!(found.auto_spawn_dash);
    // An entry that does not decode gives the default.
    let bad = cfg.get_module_config(&"Herald".to_string(), decode, DashboardSettings::default());
    assert!(!bad.auto_spawn_dash);
    // A missing entry gives the default.
    let missing = cfg.get_module_config(&"Missing".to_string(), decode, DashboardSettings::default());
    assert!(!missing.auto_spawn_dash);
}

#[test]
fn responses_go_to_main_by_default() {
    assert_eq!(channels_for(&vec![], 1, 2, 3), vec![1]);
    assert_eq!(channels_for(&vec![Target::Admin, Target::Custom(9), Target::General], 1, 2, 3), vec![2, 9, 3]);
    let r = BotResponse::new("text").to_main().to_admin().to_general().to(Target::Custom(5));
    assert_eq!(r.targets, vec![Target::Main, Target::Admin, Target::General, Target::Custom(5)]);
    let list = r.into_responses();
    assert_eq!(list.len(), 1);
    assert_eq!(list[0].content, "text");
}

#[test]
fn module_switches_and_message_filter() {
    let disabled = vec!["Dashboard".to_string(), "SimpleNotifier".to_string()];
    assert!(!module_enabled("Dashboard", &disabled));
    assert!(module_enabled("SimpleNotifier", &disabled));
    assert!(module_enabled("AdminHerald", &disabled));
    assert!(accepts_message(false, 5, 5));
    assert!(!accepts_message(true, 5, 5));
    assert!(!accepts_message(false, 4, 5));
    assert_eq!(ChatType::Team.as_str(), "Team");
}

#[test]
fn chat_type_goes_to_game_channel() {
    assert_eq!(ChatType::Admin.game_chat_type(), EChatType::Admin);
    assert_eq!(ChatType::Global.game_chat_type(), EChatType::AllSay);
    assert_eq!(ChatType::Team.game_chat_type(), EChatType::TeamSay);
}

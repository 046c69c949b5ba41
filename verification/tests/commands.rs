use sleuth::command_queue::{dispatch_command as dispatch_handler, CommandManager, ConsoleCommandHandler};
use sleuth::commands::{dispatch_command, help_lines, ConsoleCommand};

const MOD_ALIASES: &[&str] = &["m", "dmpmod"];

fn registry() -> Vec<ConsoleCommand> {
    vec![
        ConsoleCommand {
            name: "mod",
            aliases: MOD_ALIASES,
            subcommand: Some("dump"),
            description: "Writes mods to json",
            params: "[path]",
            game_thread_required: false,
        },
        ConsoleCommand {
            name: "mod",
            aliases: &["lsmods"],
            subcommand: Some("list"),
            description: "Lists mods",
            params: "",
            game_thread_required: true,
        },
        ConsoleCommand {
            name: "help",
            aliases: &[],
            subcommand: None,
            description: "Lists all commands",
            params: "[command]",
            game_thread_required: false,
        },
    ]
}

#[test]
fn dispatch_picks_subcommand_and_arguments() {
    let cmds = registry();
    let d = dispatch_command(&cmds, "mod dump out.json").unwrap();
    assert_eq!(d.index, 0);
    assert_eq!(d.args, vec!["out.json".to_string()]);
    assert!(!d.game_thread_required);

    let d = dispatch_command(&cmds, "  mod   list ").unwrap();
    assert_eq!(d.index, 1);
    assert!(d.args.is_empty());
    assert!(d.game_thread_required);
}

#[test]
fn dispatch_alias_shortcut_and_plain_command() {
    let cmds = registry();
    // an alias alone is a shortcut for the command with its subcommand
    let d = dispatch_command(&cmds, "dmpmod a b").unwrap();
    assert_eq!(d.index, 0);
    assert_eq!(d.args, vec!["b".to_string()]);
    let d = dispatch_command(&cmds, "help mod").unwrap();
    assert_eq!(d.index, 2);
    assert_eq!(d.args, vec!["mod".to_string()]);
}

#[test]
fn dispatch_refuses_empty_and_unknown() {
    let cmds = registry();
    assert!(dispatch_command(&cmds, "   ").is_none());
    assert!(dispatch_command(&cmds, "nope").is_none());
    // the name alone does not call a command that has a subcommand
    assert!(dispatch_command(&cmds, "mod").is_none());
}

#[test]
fn help_for_one_command_lists_its_variants() {
    let lines = help_lines(&registry(), Some("mod"));
    assert_eq!(
        lines,
        vec![
            "--- Help for 'mod' ---".to_string(),
            "  mod dump [path] - Writes mods to json".to_string(),
            "  mod list  - Lists mods".to_string(),
        ]
    );
    let lines = help_lines(&registry(), Some("zap"));
    assert_eq!(
        lines,
        vec!["--- Help for 'zap' ---".to_string(), "No command found named 'zap'".to_string()]
    );
}

#[test]
fn help_overview_sorts_and_groups() {
    let lines = help_lines(&registry(), None);
    assert_eq!(
        lines,
        vec![
            "--- Available Commands ---".to_string(),
            format!("  {:15} {:25} - {}", "help", "[command]", "Lists all commands"),
            format!("  {:15} [subs: dump, list]", "mod"),
            "\nUse 'help <command>' for more info.".to_string(),
        ]
    );
}

const HANDLERS: &[ConsoleCommandHandler] = &[
    ConsoleCommandHandler { name: "yes", aliases: &["y"], description: "Vote yes", field_description: &[] },
    ConsoleCommandHandler { name: "votekick", aliases: &[], description: "Kick vote", field_description: &[("player", "who")] },
];

#[test]
fn handler_dispatch_lowercases_command_word() {
    let d = dispatch_handler(HANDLERS, "VoteKick Bob Smith").unwrap();
    assert_eq!(d.index, 1);
    assert_eq!(d.args, vec!["Bob".to_string(), "Smith".to_string()]);
    let d = dispatch_handler(HANDLERS, "Y").unwrap();
    assert_eq!(d.index, 0);
    assert!(dispatch_handler(HANDLERS, "").is_none());
    assert!(dispatch_handler(HANDLERS, "maybe").is_none());
}

#[test]
fn command_queue_is_first_in_first_out() {
    let mut q = CommandManager::new();
    q.push("first".to_string());
    q.push(String::new());
    q.push("second".to_string());
    assert_eq!(q.pop(), Some("first".to_string()));
    assert_eq!(q.pop(), Some("second".to_string()));
    assert_eq!(q.pop(), None);
}

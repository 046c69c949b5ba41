use sleuth::command_queue::{handle_help, help_entry_lines, ConsoleCommandHandler};

const HELP: ConsoleCommandHandler = ConsoleCommandHandler {
    name: "help",
    aliases: &["?", "commands"],
    description: "Displays this help menu.",
    field_description: &[],
};

const KICK: ConsoleCommandHandler = ConsoleCommandHandler {
    name: "kick",
    aliases: &[],
    description: "Kicks a player.",
    field_description: &[("id", "The player ID"), ("reason", "Why")],
};

#[test]
fn help_menu_lists_each_handler() {
    let lines = handle_help(&[HELP, KICK]);
    let expected = vec![
        "\n--- Available Console Commands ---",
        "> HELP (Aliases: ?, commands)",
        "  Description: Displays this help menu.",
        "----------------------------------",
        "> KICK",
        "  Description: Kicks a player.",
        "  Parameters:",
        "    - id         : The player ID",
        "    - reason     : Why",
        "----------------------------------",
    ];
    assert_eq!(lines, expected);
}

#[test]
fn help_menu_without_handlers_is_the_title() {
    assert_eq!(handle_help(&[]), vec!["\n--- Available Console Commands ---"]);
}

#[test]
fn help_entry_keeps_long_parameter_names() {
    let h = ConsoleCommandHandler {
        name: "spawn",
        aliases: &["s"],
        description: "Spawns.",
        field_description: &[("a_very_long_name", "x")],
    };
    let lines = help_entry_lines("SPAWN", &h);
    assert_eq!(lines[0], "> SPAWN (Aliases: s)");
    assert_eq!(lines[3], "    - a_very_long_name : x");
}

#[test]
fn help_menu_upper_cases_unicode_names() {
    let h = ConsoleCommandHandler { name: "straße", aliases: &[], description: "d", field_description: &[] };
    assert_eq!(handle_help(&[h])[1], "> STRASSE");
}

use vstd::prelude::*;
use crate::notifications::GameChatMessage;
use crate::text::{chars_of, concat_all, concat_strs, starts_with_str};

verus! {

/// A module whose settings live in the bot configuration under a key of its own.
pub trait ModuleConfig {
    /// The key of the module's settings in the configuration's module map.
    fn key() -> &'static str;
}

/// Settings of the dashboard module.
pub struct DashboardSettings {
    pub auto_spawn_dash: bool,
}

impl DashboardSettings {
    /// The settings used when the configuration has none: no dashboard at start.
    pub fn default() -> (r: DashboardSettings)
        ensures
            !r.auto_spawn_dash,
    {
        DashboardSettings { auto_spawn_dash: false }
    }
}

impl ModuleConfig for DashboardSettings {
    /// The dashboard's settings are kept under `Dashboard`.
    fn key() -> (r: &'static str)
        ensures
            r@ == "Dashboard"@,
    {
        "Dashboard"
    }
}

/// Relays chat between the game and Discord.
pub struct ChatRelayModule;

/// Whether a chat line is a bot command (begins with `!`).
pub open spec fn is_bot_command(s: Seq<char>) -> bool {
    s.len() > 0 && s[0] == '!'
}

impl ChatRelayModule {
    /// The relay.
    pub fn new() -> (r: ChatRelayModule) {
        ChatRelayModule
    }

    /// The module's name in the configuration.
    pub fn name(&self) -> (r: &'static str)
        ensures
            r@ == "ChatRelayModule"@,
    {
        "ChatRelayModule"
    }

    /// The in-game line that relays the Discord message `command` of `user`;
    /// bot commands are not relayed.
    pub fn relay_from_discord(&self, user: &str, command: &str) -> (r: Option<String>)
        ensures
            match r {
                Some(t) => !is_bot_command(command@) && t@ == "<D>"@ + user@ + ": "@ + command@,
                None => is_bot_command(command@),
            },
    {
        let c = chars_of(command);
        if starts_with_str(c.as_slice(), "!") {
            proof {
                reveal_strlit("!");
                assert(command@.take(1)[0] == command@[0]);
            }
            return None;
        }
        proof {
            reveal_strlit("!");
            if is_bot_command(command@) {
                assert(command@.take(1) =~= "!"@);
            }
        }
        let parts = ["<D>", user, ": ", command];
        let r = concat_strs(&parts);
        proof {
            reveal_with_fuel(concat_all, 5);
            assert(parts@.drop_last().drop_last().drop_last().drop_last() =~= Seq::<&str>::empty());
            assert(parts@.drop_last().drop_last().drop_last() =~= seq![parts[0]]);
            assert(parts@.drop_last().drop_last() =~= seq![parts[0], parts[1]]);
            assert(parts@.drop_last() =~= seq![parts[0], parts[1], parts[2]]);
        }
        Some(r)
    }

    /// The Discord post that relays the game chat line `msg`; bot commands are
    /// not relayed.
    pub fn relay_to_discord(&self, msg: &GameChatMessage) -> (r: Option<String>)
        ensures
            match r {
                Some(t) => !is_bot_command(msg.message@) && t@ == "\u{1F4AC} **"@ + msg.sender@ + "**: "@
                    + msg.message@,
                None => is_bot_command(msg.message@),
            },
    {
        let c = chars_of(msg.message.as_str());
        proof {
            reveal_strlit("!");
        }
        if starts_with_str(c.as_slice(), "!") {
            assert(msg.message@.take(1)[0] == msg.message@[0]);
            return None;
        }
        proof {
            if is_bot_command(msg.message@) {
                assert(msg.message@.take(1) =~= "!"@);
            }
        }
        Some(msg.notification_text())
    }
}

/// Where a command to the bot came from.
#[derive(PartialEq, Eq, Structural)]
pub enum CommandSource {
    GameChat,
    Discord,
}

/// The vote to kick a player.
pub struct KickVote;

impl KickVote {
    /// The vote's title.
    pub fn title(&self) -> (r: String)
        ensures
            r@ == "Kick Player"@,
    {
        "Kick Player".to_owned()
    }

    /// The vote's description.
    pub fn description(&self) -> (r: String)
        ensures
            r@ == "Vote to remove a disruptive player from the server. Please ensure there is a valid reason before voting."@,
    {
        "Vote to remove a disruptive player from the server. Please ensure there is a valid reason before voting.".to_owned()
    }

    /// The fewest voters (yes and no together) a kick vote needs to count.
    pub fn min_votes(&self) -> (r: usize)
        ensures
            r == 4,
    {
        4
    }

    /// A kick vote is started from the game chat and names the player.
    pub fn check_prerequisites(&self, source: &CommandSource, args: &Vec<String>) -> (r: Result<(), String>)
        ensures
            match r {
                Ok(()) => *source == CommandSource::GameChat && args@.len() > 0,
                Err(e) => if *source != CommandSource::GameChat {
                    e@ == "Kick votes can only be started from in-game chat."@
                } else {
                    args@.len() == 0 && e@ == "You must specify a player name to kick."@
                },
            },
    {
        if *source != CommandSource::GameChat {
            return Err("Kick votes can only be started from in-game chat.".to_owned());
        }
        if args.len() == 0 {
            return Err("You must specify a player name to kick.".to_owned());
        }
        Ok(())
    }
}

} // verus!

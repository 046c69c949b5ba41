use vstd::prelude::*;
use crate::chat_type::EChatType;
use crate::mods::Mod;
use crate::text::{concat_all, concat_strs};

verus! {

/// Joins three strings.
fn concat3(a: &str, b: &str, c: &str) -> (r: String)
    ensures
        r@ == a@ + b@ + c@,
{
    let parts = [a, b, c];
    let r = concat_strs(&parts);
    reveal_with_fuel(concat_all, 4);
    assert(parts@.drop_last().drop_last().drop_last() =~= Seq::<&str>::empty());
    assert(parts@.drop_last().drop_last() =~= seq![a]);
    assert(parts@.drop_last() =~= seq![a, b]);
    r
}

/// Joins four strings.
fn concat4(a: &str, b: &str, c: &str, d: &str) -> (r: String)
    ensures
        r@ == a@ + b@ + c@ + d@,
{
    let x = concat3(a, b, c);
    let r = concat3(x.as_str(), d, "");
    assert(r@ =~= a@ + b@ + c@ + d@) by {
        reveal_strlit("");
    }
    r
}

/// A player joined the game server.
pub struct JoinEvent {
    pub name: String,
}

impl JoinEvent {
    /// The event's kind.
    pub fn event_type(&self) -> (r: &'static str)
        ensures
            r@ == "JoinEvent"@,
    {
        "JoinEvent"
    }

    /// The description of the announcement of the join.
    pub fn notification_text(&self) -> (r: String)
        ensures
            r@ == "**"@ + self.name@ + "** has joined the battle!"@,
    {
        concat3("**", self.name.as_str(), "** has joined the battle!")
    }

    /// The title of the announcement of the join.
    pub fn notification_title(&self) -> (r: &'static str)
        ensures
            r@ == "\u{1F4E5} Reinforcements"@,
    {
        "\u{1F4E5} Reinforcements"
    }

    /// The colour of the announcement of the join.
    pub fn notification_color(&self) -> (r: u32)
        ensures
            r == 0x2ecc71,
    {
        0x2ecc71
    }
}

/// The game crashed; `event_trace` holds the stack trace.
pub struct CrashEvent {
    pub event_type: String,
    pub event_trace: Vec<String>,
}

impl CrashEvent {
    /// The event's kind.
    pub fn event_type(&self) -> (r: &'static str)
        ensures
            r@ == "CrashEvent"@,
    {
        "CrashEvent"
    }
}

/// A player killed another.
pub struct KillEvent {
    pub killer: String,
    pub victim: String,
    pub weapon: String,
}

impl KillEvent {
    /// The event's kind.
    pub fn event_type(&self) -> (r: &'static str)
        ensures
            r@ == "KillEvent"@,
    {
        "KillEvent"
    }
}

/// The server changed maps.
pub struct MapChangeEvent {
    pub new_map: String,
}

impl MapChangeEvent {
    /// The event's kind.
    pub fn event_type(&self) -> (r: &'static str)
        ensures
            r@ == "MapChangeEvent"@,
    {
        "MapChangeEvent"
    }
}

/// A match finished.
pub struct MatchEndEvent {
    pub winner_team: String,
    pub final_score: String,
}

impl MatchEndEvent {
    /// The event's kind.
    pub fn event_type(&self) -> (r: &'static str)
        ensures
            r@ == "MatchEndEvent"@,
    {
        "MatchEndEvent"
    }
}

/// A chat line sent in the game.
pub struct GameChatMessage {
    pub sender: String,
    pub message: String,
    pub chat_type: EChatType,
}

impl GameChatMessage {
    /// The event's kind.
    pub fn event_type(&self) -> (r: &'static str)
        ensures
            r@ == "GameChatMessage"@,
    {
        "GameChatMessage"
    }

    /// The text that reposts the line on Discord.
    pub fn notification_text(&self) -> (r: String)
        ensures
            r@ == "\u{1F4AC} **"@ + self.sender@ + "**: "@ + self.message@,
    {
        concat4("\u{1F4AC} **", self.sender.as_str(), "**: ", self.message.as_str())
    }
}

/// The state of the server as announced to the backend.
pub struct ServerStatus {
    pub name: String,
    pub description: String,
    pub password_protected: bool,
    pub current_map: String,
    pub player_count: i32,
    pub max_players: i32,
    pub mods: Vec<Mod>,
    pub active_mods: Vec<Mod>,
}

impl ServerStatus {
    /// The event's kind.
    pub fn event_type(&self) -> (r: &'static str)
        ensures
            r@ == "ServerStatus"@,
    {
        "ServerStatus"
    }
}

/// A player called for an admin in game.
pub struct AdminAlert {
    pub reporter: String,
    pub reason: String,
}

impl AdminAlert {
    /// The event's kind.
    pub fn event_type(&self) -> (r: &'static str)
        ensures
            r@ == "AdminAlert"@,
    {
        "AdminAlert"
    }

    /// The text of the admin request posted on Discord.
    pub fn notification_text(&self) -> (r: String)
        ensures
            r@ == "\u{1F6A8} **Admin Request**: "@ + self.reporter@ + " reports: "@ + self.reason@,
    {
        concat4("\u{1F6A8} **Admin Request**: ", self.reporter.as_str(), " reports: ", self.reason.as_str())
    }
}

/// A player challenged another to a duel.
pub struct DuelStartEvent {
    pub challenger: String,
    pub opponent: String,
}

impl DuelStartEvent {
    /// The event's kind.
    pub fn event_type(&self) -> (r: &'static str)
        ensures
            r@ == "DuelStartEvent"@,
    {
        "DuelStartEvent"
    }
}

/// A player attacked.
pub struct AttackEvent {
    pub attacker: String,
    pub attack_type: String,
    pub was_parried: bool,
}

impl AttackEvent {
    /// The event's kind.
    pub fn event_type(&self) -> (r: &'static str)
        ensures
            r@ == "AttackEvent"@,
    {
        "AttackEvent"
    }
}

} // verus!

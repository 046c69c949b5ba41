use vstd::prelude::*;
use crate::text::{append_str, chars_of, format_decimal, decimal_text, joined, join_strings,
    starts_with_str, slice_chars, string_from_chars};

verus! {

/// Relays admin alerts and crash reports to Discord, and lets Discord admins
/// run console commands and make announcements in the game.
pub struct AdminHerald {
    admin_role_id: u64,
}

/// What the herald does with a message posted on Discord.
pub enum HeraldAction {
    /// The message is not a herald command.
    Ignore,
    /// The author may not use herald commands; the reply says so.
    Denied { reply: String },
    /// Queue `command` on the game's console and post `reply`.
    Execute { command: String, reply: String },
    /// Announce `text` in the game chat as an admin and post `reply`.
    Broadcast { text: String, reply: String },
}

/// The answer to a herald command from someone without the admin role.
pub open spec fn denied_reply() -> Seq<char> {
    "\u{1F6AB} You do not have permission to use herald commands."@
}

/// Whether `s` begins with `prefix`.
pub open spec fn has_prefix(s: Seq<char>, prefix: Seq<char>) -> bool {
    prefix.len() <= s.len() && s.take(prefix.len() as int) == prefix
}

/// The role mention of the admin role.
pub open spec fn role_mention(role: u64) -> Seq<char> {
    "<@&"@ + decimal_text(role as nat) + ">"@
}

impl AdminHerald {
    /// The admin role of the herald.
    pub closed spec fn role(&self) -> u64 {
        self.admin_role_id
    }

    /// A herald for the admin role `role_id`.
    pub fn new(role_id: u64) -> (r: AdminHerald)
        ensures
            r.role() == role_id,
    {
        AdminHerald { admin_role_id: role_id }
    }

    /// The module's name.
    pub fn name(&self) -> (r: &'static str)
        ensures
            r@ == "AdminHerald"@,
    {
        "AdminHerald"
    }

    /// Whether a Discord user with `roles` has the admin role.
    pub fn is_admin(&self, roles: &[u64]) -> (r: bool)
        ensures
            r == roles@.contains(self.role()),
    {
        let mut i: usize = 0;
        while i < roles.len()
            invariant
                i <= roles@.len(),
                forall|j: int| 0 <= j < i ==> roles@[j] != self.admin_role_id,
            decreases roles@.len() - i,
        {
            if roles[i] == self.admin_role_id {
                assert(roles@[i as int] == self.admin_role_id);
                return true;
            }
            i += 1;
        }
        false
    }

    /// The Discord post for an in-game admin alert: the admin role is
    /// mentioned with the reporter and the reason.
    pub fn alert_text(&self, reporter: &str, reason: &str) -> (r: String)
        ensures
            r@ == "\u{26A0}\u{FE0F} "@ + role_mention(self.role()) + " **Internal Alert**: `"@ + reporter@
                + "` reports: *\""@ + reason@ + "\"*"@,
    {
        let mut out: Vec<char> = Vec::new();
        append_str(&mut out, "\u{26A0}\u{FE0F} ");
        self.append_mention(&mut out);
        append_str(&mut out, " **Internal Alert**: `");
        append_str(&mut out, reporter);
        append_str(&mut out, "` reports: *\"");
        append_str(&mut out, reason);
        append_str(&mut out, "\"*");
        assert(out@ =~= "\u{26A0}\u{FE0F} "@ + role_mention(self.role()) + " **Internal Alert**: `"@
            + reporter@ + "` reports: *\""@ + reason@ + "\"*"@);
        string_from_chars(out.as_slice())
    }

    /// The Discord post for a crash of the server: the admin role is
    /// mentioned with the kind of crash and the trace, one frame per line.
    pub fn crash_text(&self, event_type: &str, event_trace: &Vec<String>) -> (r: String)
        ensures
            r@ == "\u{1F480} "@ + role_mention(self.role()) + " **SERVER CRASH**: `"@ + event_type@
                + "` \ntrace: \n```\n"@ + joined(event_trace@.map_values(|s: String| s@), "\n"@)
                + "\n```"@,
    {
        let mut out: Vec<char> = Vec::new();
        append_str(&mut out, "\u{1F480} ");
        self.append_mention(&mut out);
        append_str(&mut out, " **SERVER CRASH**: `");
        append_str(&mut out, event_type);
        append_str(&mut out, "` \ntrace: \n```\n");
        let trace = join_strings(event_trace, "\n");
        append_str(&mut out, trace.as_str());
        append_str(&mut out, "\n```");
        assert(out@ =~= "\u{1F480} "@ + role_mention(self.role()) + " **SERVER CRASH**: `"@
            + event_type@ + "` \ntrace: \n```\n"@ + joined(
            event_trace@.map_values(|s: String| s@),
            "\n"@,
        ) + "\n```"@);
        string_from_chars(out.as_slice())
    }

    /// Appends the mention of the admin role.
    fn append_mention(&self, out: &mut Vec<char>)
        ensures
            final(out)@ == old(out)@ + role_mention(self.role()),
    {
        append_str(out, "<@&");
        let mut d = format_decimal(self.admin_role_id);
        out.append(&mut d);
        append_str(out, ">");
    }

    /// Handles a message posted on Discord by a user with `roles`:
    /// `!cmd <command>` queues a console command and `!say <text>` announces
    /// a text in game, both for admins only; other messages are ignored.
    pub fn on_command(&self, command: &str, roles: &[u64]) -> (r: HeraldAction)
        ensures
            ({
                let c = command@;
                let admin = roles@.contains(self.role());
                if has_prefix(c, "!cmd "@) {
                    if admin {
                        r matches HeraldAction::Execute { command: x, reply } && x@ == c.skip(5)
                            && reply@ == "\u{2705} **Executed**: "@ + c.skip(5)
                    } else {
                        r matches HeraldAction::Denied { reply } && reply@ == denied_reply()
                    }
                } else if has_prefix(c, "!say "@) {
                    if admin {
                        r matches HeraldAction::Broadcast { text, reply } && text@ == c.skip(5)
                            && reply@ == "\u{2705} **Broadcasted**: "@ + c.skip(5)
                    } else {
                        r matches HeraldAction::Denied { reply } && reply@ == denied_reply()
                    }
                } else {
                    r is Ignore
                }
            }),
    {
        let c = chars_of(command);
        proof {
            reveal_strlit("!cmd ");
            reveal_strlit("!say ");
        }
        let is_cmd = starts_with_str(c.as_slice(), "!cmd ");
        let is_say = !is_cmd && starts_with_str(c.as_slice(), "!say ");
        if !is_cmd && !is_say {
            return HeraldAction::Ignore;
        }
        if !self.is_admin(roles) {
            return HeraldAction::Denied {
                reply: "\u{1F6AB} You do not have permission to use herald commands.".to_owned(),
            };
        }
        let rest = slice_chars(c.as_slice(), 5, c.len());
        assert(rest@ =~= command@.skip(5));
        let text = string_from_chars(rest.as_slice());
        let mut reply: Vec<char> = Vec::new();
        if is_cmd {
            append_str(&mut reply, "\u{2705} **Executed**: ");
        } else {
            append_str(&mut reply, "\u{2705} **Broadcasted**: ");
        }
        let mut r2 = rest.clone();
        reply.append(&mut r2);
        let reply = string_from_chars(reply.as_slice());
        if is_cmd {
            HeraldAction::Execute { command: text, reply }
        } else {
            HeraldAction::Broadcast { text, reply }
        }
    }
}

} // verus!

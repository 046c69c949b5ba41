use vstd::prelude::*;
use crate::chat_type::EChatType;
use crate::text::{chars_of, text_is};

verus! {

/// Where a bot response goes: one of the configured channels or a given one.
#[derive(Clone, Copy, Debug, PartialEq, Eq, Structural)]
pub enum Target {
    Main,
    Admin,
    General,
    Custom(u64),
}

/// A response of a module: what to post (`content`) and where.
pub struct BotResponse<C> {
    pub targets: Vec<Target>,
    pub content: C,
}

impl<C> BotResponse<C> {
    /// A response with `content` and no target yet.
    pub fn new(content: C) -> (r: Self)
        ensures
            r.targets@.len() == 0,
            r.content == content,
    {
        BotResponse { targets: Vec::new(), content }
    }

    /// The same response, also posted to `target`.
    pub fn to(self, target: Target) -> (r: Self)
        ensures
            r.targets@ == self.targets@.push(target),
            r.content == self.content,
    {
        let mut s = self;
        s.targets.push(target);
        s
    }

    /// The same response, also posted to the main channel.
    pub fn to_main(self) -> (r: Self)
        ensures
            r.targets@ == self.targets@.push(Target::Main),
            r.content == self.content,
    {
        self.to(Target::Main)
    }

    /// The same response, also posted to the admin channel.
    pub fn to_admin(self) -> (r: Self)
        ensures
            r.targets@ == self.targets@.push(Target::Admin),
            r.content == self.content,
    {
        self.to(Target::Admin)
    }

    /// The same response, also posted to the general channel.
    pub fn to_general(self) -> (r: Self)
        ensures
            r.targets@ == self.targets@.push(Target::General),
            r.content == self.content,
    {
        self.to(Target::General)
    }

    /// The response as a list of one.
    pub fn into_responses(self) -> (r: Vec<Self>)
        ensures
            r@.len() == 1,
            r@[0] == self,
    {
        let mut v = Vec::new();
        v.push(self);
        v
    }
}

/// The channel a target stands for.
pub open spec fn channel_of(t: Target, main: u64, admin: u64, general: u64) -> u64 {
    match t {
        Target::Main => main,
        Target::Admin => admin,
        Target::General => general,
        Target::Custom(id) => id,
    }
}

/// The channels a response is posted to, in order: those of its targets, or
/// the main channel when it names none.
pub open spec fn response_channels(targets: Seq<Target>, main: u64, admin: u64, general: u64) -> Seq<u64> {
    if targets.len() == 0 {
        seq![main]
    } else {
        targets.map_values(|t: Target| channel_of(t, main, admin, general))
    }
}

/// The channels to post a response to (see [`response_channels`]).
pub fn channels_for(targets: &Vec<Target>, main: u64, admin: u64, general: u64) -> (r: Vec<u64>)
    ensures
        r@ == response_channels(targets@, main, admin, general),
{
    let mut r: Vec<u64> = Vec::new();
    if targets.len() == 0 {
        r.push(main);
        assert(r@ =~= seq![main]);
        return r;
    }
    let mut i: usize = 0;
    while i < targets.len()
        invariant
            i <= targets@.len(),
            r@ == targets@.take(i as int).map_values(|t: Target| channel_of(t, main, admin, general)),
        decreases targets@.len() - i,
    {
        let c = match targets[i] {
            Target::Main => main,
            Target::Admin => admin,
            Target::General => general,
            Target::Custom(id) => id,
        };
        r.push(c);
        assert(targets@.take(i + 1) =~= targets@.take(i as int).push(targets@[i as int]));
        assert(r@ =~= targets@.take(i + 1).map_values(|t: Target| channel_of(t, main, admin, general)));
        i += 1;
    }
    assert(targets@.take(targets@.len() as int) =~= targets@);
    r
}

/// Whether the module `name` runs: the plain notifier always does, any
/// other module unless the configuration switches it off.
pub fn module_enabled(name: &str, disabled_modules: &Vec<String>) -> (r: bool)
    ensures
        r == (name@ == "SimpleNotifier"@ || !disabled_modules@.map_values(|s: String| s@).contains(name@)),
{
    let n = chars_of(name);
    if text_is(n.as_slice(), "SimpleNotifier") {
        return true;
    }
    let ghost v = disabled_modules@.map_values(|s: String| s@);
    let mut i: usize = 0;
    while i < disabled_modules.len()
        invariant
            i <= disabled_modules@.len(),
            n@ == name@,
            name@ != "SimpleNotifier"@,
            v == disabled_modules@.map_values(|s: String| s@),
            forall|j: int| 0 <= j < i ==> v[j] != name@,
        decreases disabled_modules@.len() - i,
    {
        let d = chars_of(disabled_modules[i].as_str());
        if crate::text::chars_equal(d.as_slice(), n.as_slice()) {
            assert(v[i as int] == name@);
            return false;
        }
        i += 1;
    }
    true
}

/// Whether a Discord message is taken up: it must come from a person, not a
/// bot, in the configured channel.
pub fn accepts_message(author_is_bot: bool, channel_id: u64, config_channel_id: u64) -> (r: bool)
    ensures
        r == (!author_is_bot && channel_id == config_channel_id),
{
    !author_is_bot && channel_id == config_channel_id
}

/// The in-game chat channels a message can be sent to.
#[derive(Clone, Copy, Debug, PartialEq, Eq, Structural)]
pub enum ChatType {
    Admin,
    Global,
    Team,
}

impl ChatType {
    /// The channel's name.
    pub fn as_str(&self) -> (r: &'static str)
        ensures
            r@ == (match *self {
                ChatType::Admin => "Admin"@,
                ChatType::Global => "Global"@,
                ChatType::Team => "Team"@,
            }),
    {
        match self {
            ChatType::Admin => "Admin",
            ChatType::Global => "Global",
            ChatType::Team => "Team",
        }
    }

    /// The game's chat channel that a message sent to this channel goes to:
    /// admin chat, everyone, or the sender's team.
    pub fn game_chat_type(&self) -> (r: EChatType)
        ensures
            r == (match *self {
                ChatType::Admin => EChatType::Admin,
                ChatType::Global => EChatType::AllSay,
                ChatType::Team => EChatType::TeamSay,
            }),
    {
        match self {
            ChatType::Admin => EChatType::Admin,
            ChatType::Global => EChatType::AllSay,
            ChatType::Team => EChatType::TeamSay,
        }
    }
}

} // verus!

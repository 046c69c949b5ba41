use vstd::prelude::*;
use crate::discord_modules::{CommandSource, DashboardSettings};
use crate::mods::Mod;
use crate::notifications::ServerStatus;
use rand::seq::IndexedRandom;
use crate::text::{append_str, chars_of, decimal_text, format_decimal, joined, string_from_chars, text_is};

verus! {

/// How a mod is shown on the dashboard: `<name> *(<version>)*`.
pub open spec fn mod_entry(m: Mod) -> Seq<char> {
    m.name@ + " *("@ + m.version@ + ")*"@
}

/// How a mod is shown in a call to arms: `**<name>** *(<version>)*`.
pub open spec fn cta_mod_entry(m: Mod) -> Seq<char> {
    "**"@ + m.name@ + "** *("@ + m.version@ + ")*"@
}

/// The active mods on the dashboard: one per line, or `None`.
pub open spec fn active_mods_text(active: Seq<Mod>) -> Seq<char> {
    if active.len() == 0 {
        "None"@
    } else {
        joined(active.map_values(|m: Mod| mod_entry(m)), "\n- "@)
    }
}

/// Whether a mod named `name` is among `active`.
pub open spec fn name_active(active: Seq<Mod>, name: Seq<char>) -> bool {
    exists|i: int| 0 <= i < active.len() && (#[trigger] active[i]).name@ == name
}

/// The other mods on the dashboard: the known mods whose names are not
/// active, in small print, or `None`.
pub open spec fn other_mods_text(all: Seq<Mod>, active: Seq<Mod>) -> Seq<char> {
    let rest = all.filter(|m: Mod| !name_active(active, m.name@));
    if all.len() == 0 || rest.len() == 0 {
        "None"@
    } else {
        "-# "@ + joined(rest.map_values(|m: Mod| mod_entry(m)), ", "@)
    }
}

/// The active mods in a call to arms: a list, or `None`.
pub open spec fn cta_mods_text(active: Seq<Mod>) -> Seq<char> {
    if active.len() == 0 {
        "None"@
    } else {
        "- "@ + joined(active.map_values(|m: Mod| cta_mod_entry(m)), "\n- "@)
    }
}

/// A whole number in decimal, with a `-` when it is negative.
pub open spec fn signed_text(i: int) -> Seq<char> {
    if i < 0 {
        seq!['-'] + decimal_text((-i) as nat)
    } else {
        decimal_text(i as nat)
    }
}

/// Writes `v` in decimal.
fn format_i32(v: i32) -> (r: Vec<char>)
    ensures
        r@ == signed_text(v as int),
{
    if v < 0 {
        let mut out: Vec<char> = Vec::new();
        out.push('-');
        let m = (0i64 - (v as i64)) as u64;
        let mut d = format_decimal(m);
        out.append(&mut d);
        out
    } else {
        format_decimal(v as u64)
    }
}

/// The texts of the dashboard of a server.
pub struct DashboardEmbed {
    pub title: String,
    pub color: u32,
    pub description: String,
    pub map: String,
    pub players: String,
    pub active_mods: String,
    pub all_mods: String,
}

/// The dashboard texts for `status`.
pub open spec fn embed_of(s: ServerStatus) -> (Seq<char>, Seq<char>, Seq<char>, Seq<char>, Seq<char>, Seq<char>) {
    (
        "\u{1F310} "@ + s.name@,
        s.description@,
        s.current_map@,
        signed_text(s.player_count as int) + "/"@ + signed_text(s.max_players as int),
        active_mods_text(s.active_mods@),
        other_mods_text(s.mods@, s.active_mods@),
    )
}

/// Appends the dashboard entries of `mods` joined by `sep`.
fn append_mod_entries(out: &mut Vec<char>, mods: &Vec<Mod>, sep: &str)
    ensures
        final(out)@ == old(out)@ + joined(mods@.map_values(|m: Mod| mod_entry(m)), sep@),
{
    let ghost v = mods@.map_values(|m: Mod| mod_entry(m));
    let ghost start = out@;
    let mut i: usize = 0;
    while i < mods.len()
        invariant
            i <= mods@.len(),
            v == mods@.map_values(|m: Mod| mod_entry(m)),
            out@ == start + joined(v.take(i as int), sep@),
        decreases mods@.len() - i,
    {
        let ghost before = out@;
        if i > 0 {
            append_str(out, sep);
        }
        let m = &mods[i];
        append_str(out, m.name.as_str());
        append_str(out, " *(");
        append_str(out, m.version.as_str());
        append_str(out, ")*");
        assert(v.take(i + 1).drop_last() =~= v.take(i as int));
        assert(v[i as int] == mod_entry(*m));
        proof {
            if i == 0 {
                assert(v.take(1) =~= seq![v[0]]);
                assert(v.take(0) =~= Seq::<Seq<char>>::empty());
                assert(out@ =~= start + joined(v.take(1), sep@));
            } else {
                assert(out@ =~= start + joined(v.take(i + 1), sep@));
            }
        }
        i += 1;
    }
    assert(v.take(mods@.len() as int) =~= v);
}

/// Appends the call to arms entries of `mods` joined by `sep`.
fn append_cta_entries(out: &mut Vec<char>, mods: &Vec<Mod>, sep: &str)
    ensures
        final(out)@ == old(out)@ + joined(mods@.map_values(|m: Mod| cta_mod_entry(m)), sep@),
{
    let ghost v = mods@.map_values(|m: Mod| cta_mod_entry(m));
    let ghost start = out@;
    let mut i: usize = 0;
    while i < mods.len()
        invariant
            i <= mods@.len(),
            v == mods@.map_values(|m: Mod| cta_mod_entry(m)),
            out@ == start + joined(v.take(i as int), sep@),
        decreases mods@.len() - i,
    {
        if i > 0 {
            append_str(out, sep);
        }
        let m = &mods[i];
        append_str(out, "**");
        append_str(out, m.name.as_str());
        append_str(out, "** *(");
        append_str(out, m.version.as_str());
        append_str(out, ")*");
        assert(v.take(i + 1).drop_last() =~= v.take(i as int));
        assert(v[i as int] == cta_mod_entry(*m));
        proof {
            if i == 0 {
                assert(v.take(1) =~= seq![v[0]]);
                assert(v.take(0) =~= Seq::<Seq<char>>::empty());
                assert(out@ =~= start + joined(v.take(1), sep@));
            } else {
                assert(out@ =~= start + joined(v.take(i + 1), sep@));
            }
        }
        i += 1;
    }
    assert(v.take(mods@.len() as int) =~= v);
}

/// Whether a mod named `name` is among `active`.
fn is_name_active(active: &Vec<Mod>, name: &String) -> (r: bool)
    ensures
        r == name_active(active@, name@),
{
    let mut i: usize = 0;
    while i < active.len()
        invariant
            i <= active@.len(),
            forall|j: int| 0 <= j < i ==> (#[trigger] active@[j]).name@ != name@,
        decreases active@.len() - i,
    {
        if active[i].name == *name {
            assert(active@[i as int].name@ == name@);
            return true;
        }
        i += 1;
    }
    false
}

/// Builds the dashboard texts for `s` (see [`embed_of`]).
pub fn build_embed(s: &ServerStatus) -> (r: DashboardEmbed)
    ensures
        (r.title@, r.description@, r.map@, r.players@, r.active_mods@, r.all_mods@) == embed_of(*s),
        r.color == 0x2B2D31,
{
    let mut title: Vec<char> = Vec::new();
    append_str(&mut title, "\u{1F310} ");
    append_str(&mut title, s.name.as_str());
    let mut players = format_i32(s.player_count);
    players.push('/');
    let mut mx = format_i32(s.max_players);
    players.append(&mut mx);
    let active = if s.active_mods.len() == 0 {
        "None".to_owned()
    } else {
        let mut a: Vec<char> = Vec::new();
        append_mod_entries(&mut a, &s.active_mods, "\n- ");
        assert(a@ =~= joined(s.active_mods@.map_values(|m: Mod| mod_entry(m)), "\n- "@));
        assert(a@ =~= active_mods_text(s.active_mods@));
        string_from_chars(a.as_slice())
    };
    let mut rest: Vec<Mod> = Vec::new();
    let ghost pred = |m: Mod| !name_active(s.active_mods@, m.name@);
    let mut i: usize = 0;
    while i < s.mods.len()
        invariant
            i <= s.mods@.len(),
            pred == (|m: Mod| !name_active(s.active_mods@, m.name@)),
            rest@ == s.mods@.take(i as int).filter(pred),
        decreases s.mods@.len() - i,
    {
        reveal_with_fuel(Seq::<_>::filter, 1);
        assert(s.mods@.take(i + 1).drop_last() =~= s.mods@.take(i as int));
        if !is_name_active(&s.active_mods, &s.mods[i].name) {
            rest.push(s.mods[i].copy());
        }
        i += 1;
    }
    assert(s.mods@.take(s.mods@.len() as int) =~= s.mods@);
    let all = if s.mods.len() == 0 || rest.len() == 0 {
        "None".to_owned()
    } else {
        let mut a: Vec<char> = Vec::new();
        append_str(&mut a, "-# ");
        append_mod_entries(&mut a, &rest, ", ");
        assert(a@ =~= other_mods_text(s.mods@, s.active_mods@));
        string_from_chars(a.as_slice())
    };
    proof {
        reveal_strlit("/");
        assert(players@ =~= signed_text(s.player_count as int) + "/"@ + signed_text(
            s.max_players as int,
        ));
    }
    DashboardEmbed {
        title: string_from_chars(title.as_slice()),
        color: 0x2B2D31,
        description: s.description.clone(),
        map: s.current_map.clone(),
        players: string_from_chars(players.as_slice()),
        active_mods: active,
        all_mods: all,
    }
}

/// The number of call to arms texts.
pub const CTA_TEMPLATE_COUNT: usize = 14;

/// The parts of call to arms text `i` around the sender and the message.
pub open spec fn cta_parts(i: int) -> (Seq<char>, Seq<char>, Seq<char>) {
    if i == 0 {
        ("**"@, "** has issued a __**Call to Arms**__!\nJoin the server and fight for your honor!\nMessage: _"@, "_"@)
    } else if i == 1 {
        ("\u{26A0}\u{FE0F} **REINFORCEMENTS NEEDED!**\n**"@, "** is requesting immediate backup.\nOrders: _"@, "_"@)
    } else if i == 2 {
        ("\u{1F4E2} **BANNERS RAISED!**\n**"@, "** has sounded the war horn! Rally to their side!\nWar Cry: _"@, "_"@)
    } else if i == 3 {
        ("\u{1F525} **TO THE FRONT LINES!**\n**"@, "** says: _"@, "_\nDon't let them stand alone!"@)
    } else if i == 4 {
        ("\u{2694}\u{FE0F} **"@, "** is calling for all able-bodied warriors!\n> _"@, "_"@)
    } else if i == 5 {
        ("\u{1F356} **FRESH MEAT!**\n**"@, "** is getting beat up and needs someone to hide behind. Join now!\nExcuse: *\""@, "\"*"@)
    } else if i == 6 {
        ("\u{1F579}\u{FE0F} **STOP SLACKING!**\n**"@, "** has issued a Call to Arms. Your couch can wait, the server can't!\nMessage: _"@, "_"@)
    } else if i == 7 {
        ("\u{1F4C9} **STONKS ARE DOWN!**\n**"@, "** says the kill count is too low. Let's pump those numbers up!\nMemo: *\""@, "\"*"@)
    } else if i == 8 {
        ("\u{26A0}\u{FE0F} **BROKEN ARROW!**\n**"@, "** is being overrun and has declared a Level 5 Emergency!\nComms: _"@, "_"@)
    } else if i == 9 {
        ("\u{1F681} **REINFORCEMENTS REQ: IMMEDIATE**\n**"@, "** is popping smoke. ETA on your arrival?\nIntel: *\""@, "\"*"@)
    } else if i == 10 {
        ("\u{1F44A} **SQUAD UP!**\n**"@, "** is tired of fighting alone. Get in there and provide some fire support!\nNote: _"@, "_"@)
    } else if i == 11 {
        ("\u{2694}\u{FE0F} **THE BANNERS ARE RAISED!**\n**"@, "** has sounded the Great Horn of Battle! Will you answer the call?\nWar Cry: *\""@, "\"*"@)
    } else if i == 12 {
        ("\u{1F6E1}\u{FE0F} **TO GLORY!**\n**"@, "** is leading a charge and demands your presence on the field!\nOrders: _"@, "_"@)
    } else {
        ("\u{1F3F0} **DEFEND THE REALM!**\n**"@, "** reports that the front lines are thinning. Rally to the server!\nStatus: *\""@, "\"*"@)
    }
}

/// The parts of call to arms text `i`.
fn cta_parts_exec(i: usize) -> (r: (&'static str, &'static str, &'static str))
    requires
        i < CTA_TEMPLATE_COUNT,
    ensures
        (r.0@, r.1@, r.2@) == cta_parts(i as int),
{
    if i == 0 {
        ("**", "** has issued a __**Call to Arms**__!\nJoin the server and fight for your honor!\nMessage: _", "_")
    } else if i == 1 {
        ("\u{26A0}\u{FE0F} **REINFORCEMENTS NEEDED!**\n**", "** is requesting immediate backup.\nOrders: _", "_")
    } else if i == 2 {
        ("\u{1F4E2} **BANNERS RAISED!**\n**", "** has sounded the war horn! Rally to their side!\nWar Cry: _", "_")
    } else if i == 3 {
        ("\u{1F525} **TO THE FRONT LINES!**\n**", "** says: _", "_\nDon't let them stand alone!")
    } else if i == 4 {
        ("\u{2694}\u{FE0F} **", "** is calling for all able-bodied warriors!\n> _", "_")
    } else if i == 5 {
        ("\u{1F356} **FRESH MEAT!**\n**", "** is getting beat up and needs someone to hide behind. Join now!\nExcuse: *\"", "\"*")
    } else if i == 6 {
        ("\u{1F579}\u{FE0F} **STOP SLACKING!**\n**", "** has issued a Call to Arms. Your couch can wait, the server can't!\nMessage: _", "_")
    } else if i == 7 {
        ("\u{1F4C9} **STONKS ARE DOWN!**\n**", "** says the kill count is too low. Let's pump those numbers up!\nMemo: *\"", "\"*")
    } else if i == 8 {
        ("\u{26A0}\u{FE0F} **BROKEN ARROW!**\n**", "** is being overrun and has declared a Level 5 Emergency!\nComms: _", "_")
    } else if i == 9 {
        ("\u{1F681} **REINFORCEMENTS REQ: IMMEDIATE**\n**", "** is popping smoke. ETA on your arrival?\nIntel: *\"", "\"*")
    } else if i == 10 {
        ("\u{1F44A} **SQUAD UP!**\n**", "** is tired of fighting alone. Get in there and provide some fire support!\nNote: _", "_")
    } else if i == 11 {
        ("\u{2694}\u{FE0F} **THE BANNERS ARE RAISED!**\n**", "** has sounded the Great Horn of Battle! Will you answer the call?\nWar Cry: *\"", "\"*")
    } else if i == 12 {
        ("\u{1F6E1}\u{FE0F} **TO GLORY!**\n**", "** is leading a charge and demands your presence on the field!\nOrders: _", "_")
    } else {
        ("\u{1F3F0} **DEFEND THE REALM!**\n**", "** reports that the front lines are thinning. Rally to the server!\nStatus: *\"", "\"*")
    }
}

/// The colours a call to arms is shown in.
pub open spec fn cta_color(i: int) -> u32 {
    if i == 0 {
        0xe67e22
    } else if i == 1 {
        0xe74c3c
    } else {
        0xf1c40f
    }
}

/// A call to arms: its text and the server's name, description, map and
/// active mods.
pub struct CallToArms {
    pub color: u32,
    pub description: String,
    pub server: String,
    pub server_description: String,
    pub current_map: String,
    pub mods: String,
}

/// Whether `c` is the call to arms of `sender` with `message` for the server
/// described by `s`, written with text `template` and colour `color`.
pub open spec fn is_call_to_arms(
    c: CallToArms,
    s: ServerStatus,
    sender: Seq<char>,
    message: Seq<char>,
    template: int,
    color: int,
) -> bool {
    let (pre, mid, post) = cta_parts(template);
    &&& c.color == cta_color(color)
    &&& c.description@ == pre + sender + mid + message + post
    &&& c.server@ == s.name@
    &&& c.server_description@ == s.description@
    &&& c.current_map@ == s.current_map@
    &&& c.mods@ == cta_mods_text(s.active_mods@)
}

/// Picks an element of `items` at random with `rand`'s
/// `IndexedRandom::choose` and the thread's generator `rand::rng()`: `None`
/// exactly for an empty slice, otherwise one of its elements. Which one is
/// chance and is not stated. (`rand::rng()` panics only when the operating
/// system gives no entropy to seed the generator.)
#[verifier::external_body]
fn choose_random<T: Copy>(items: &[T]) -> (r: Option<T>)
    ensures
        items@.len() == 0 <==> r is None,
        r matches Some(x) ==> items@.contains(x),
{
    items.choose(&mut rand::rng()).copied()
}

/// What the dashboard posts on a tick.
pub enum DashboardTick {
    /// Nothing to do.
    Idle,
    /// Replace the dashboard message `message_id` by `embed`.
    Edit { message_id: u64, embed: DashboardEmbed },
    /// Post `embed` as a new dashboard message.
    Post { embed: DashboardEmbed },
}

/// The refresh interval of the dashboard, in milliseconds.
pub const DASHBOARD_REFRESH_MS: u64 = 30000;

/// The live dashboard of the server on Discord.
pub struct Dashboard {
    player_count: u32,
    current_map: String,
    last_update: u64,
    message_id: Option<u64>,
    message_id2: Option<u64>,
    needs_refresh: bool,
    status: Option<ServerStatus>,
    settings: DashboardSettings,
}

/// What a dashboard knows.
pub struct DashboardView {
    pub player_count: u32,
    pub current_map: Seq<char>,
    pub last_update: u64,
    pub message_id: Option<u64>,
    pub message_id2: Option<u64>,
    pub needs_refresh: bool,
    pub status: Option<ServerStatus>,
    pub auto_spawn_dash: bool,
}

impl View for Dashboard {
    type V = DashboardView;

    closed spec fn view(&self) -> DashboardView {
        DashboardView {
            player_count: self.player_count,
            current_map: self.current_map@,
            last_update: self.last_update,
            message_id: self.message_id,
            message_id2: self.message_id2,
            needs_refresh: self.needs_refresh,
            status: self.status,
            auto_spawn_dash: self.settings.auto_spawn_dash,
        }
    }
}

impl Dashboard {
    /// A dashboard with the given settings at time `now`: no players, the map
    /// still loading, no message yet; with automatic spawning it is posted at
    /// the first tick that has a server status.
    pub fn new(settings: DashboardSettings, now: u64) -> (r: Dashboard)
        ensures
            r@ == (DashboardView {
                player_count: 0,
                current_map: "Loading..."@,
                last_update: now,
                message_id: None,
                message_id2: None,
                needs_refresh: settings.auto_spawn_dash,
                status: None,
                auto_spawn_dash: settings.auto_spawn_dash,
            }),
    {
        let needs_refresh = settings.auto_spawn_dash;
        Dashboard {
            player_count: 0,
            current_map: "Loading...".to_owned(),
            last_update: now,
            message_id: None,
            message_id2: None,
            needs_refresh,
            status: None,
            settings,
        }
    }

    /// The module's name.
    pub fn name(&self) -> (r: &'static str)
        ensures
            r@ == "Dashboard"@,
    {
        "Dashboard"
    }

    /// Takes new settings: turning automatic spawning on asks for a refresh.
    pub fn reconfigure(&mut self, settings: DashboardSettings)
        ensures
            final(self)@ == (DashboardView {
                auto_spawn_dash: settings.auto_spawn_dash,
                needs_refresh: old(self)@.needs_refresh || (settings.auto_spawn_dash
                    && !old(self)@.auto_spawn_dash),
                ..old(self)@
            }),
    {
        if settings.auto_spawn_dash && !self.settings.auto_spawn_dash {
            self.needs_refresh = true;
        }
        self.settings = settings;
    }

    /// A player joined: one more player; a posted dashboard is refreshed.
    pub fn on_join(&mut self)
        requires
            old(self)@.player_count < u32::MAX,
        ensures
            final(self)@ == (DashboardView {
                player_count: (old(self)@.player_count + 1) as u32,
                needs_refresh: old(self)@.needs_refresh || old(self)@.message_id is Some,
                ..old(self)@
            }),
    {
        self.player_count = self.player_count + 1;
        if self.message_id.is_some() {
            self.needs_refresh = true;
        }
    }

    /// A player left: one player fewer (never below zero); a posted
    /// dashboard is refreshed.
    pub fn on_leave(&mut self)
        ensures
            final(self)@ == (DashboardView {
                player_count: if old(self)@.player_count > 0 {
                    (old(self)@.player_count - 1) as u32
                } else {
                    0
                },
                needs_refresh: old(self)@.needs_refresh || old(self)@.message_id is Some,
                ..old(self)@
            }),
    {
        self.player_count = self.player_count.saturating_sub(1);
        if self.message_id.is_some() {
            self.needs_refresh = true;
        }
    }

    /// The server announced its status.
    pub fn on_status(&mut self, status: ServerStatus)
        ensures
            final(self)@ == (DashboardView { status: Some(status), ..old(self)@ }),
    {
        self.status = Some(status);
    }

    /// The map changed: a posted dashboard is refreshed.
    pub fn on_map_change(&mut self, new_map: String)
        ensures
            final(self)@ == (DashboardView {
                current_map: new_map@,
                needs_refresh: old(self)@.needs_refresh || old(self)@.message_id is Some,
                ..old(self)@
            }),
    {
        self.current_map = new_map;
        if self.message_id.is_some() {
            self.needs_refresh = true;
        }
    }

    /// The `dash` command: from Discord, it posts the dashboard anew at the
    /// next tick, or answers that there is no server status yet.
    pub fn cmd_dash(&mut self, source: &CommandSource, name: &str) -> (r: Option<String>)
        ensures
            !(*source == CommandSource::Discord && name@ == "dash"@) ==> r is None && final(self)@
                == old(self)@,
            *source == CommandSource::Discord && name@ == "dash"@ ==> if old(self)@.status is None {
                r matches Some(t) && t@ == "Dashboard: no server status available"@ && final(self)@
                    == old(self)@
            } else {
                r is None && final(self)@ == (DashboardView {
                    message_id: None,
                    message_id2: None,
                    needs_refresh: true,
                    ..old(self)@
                })
            },
    {
        let n = chars_of(name);
        let is_dash = text_is(n.as_slice(), "dash");
        if *source != CommandSource::Discord || !is_dash {
            return None;
        }
        if self.status.is_none() {
            return Some("Dashboard: no server status available".to_owned());
        }
        self.message_id = None;
        self.message_id2 = None;
        self.needs_refresh = true;
        None
    }

    /// A call to arms by `sender` with `message`, its text and colour picked
    /// at random among the [`CTA_TEMPLATE_COUNT`] texts and the three colours
    /// (see [`Dashboard::call_to_arms`]); none without a server status.
    pub fn cmd_cta(&self, sender: &str, message: &str) -> (r: Option<CallToArms>)
        ensures
            match self@.status {
                None => r is None,
                Some(s) => r matches Some(c) && exists|t: int, k: int|
                    0 <= t < CTA_TEMPLATE_COUNT && 0 <= k < 3 && #[trigger] is_call_to_arms(
                        c,
                        s,
                        sender@,
                        message@,
                        t,
                        k,
                    ),
            },
    {
        if self.status.is_none() {
            return None;
        }
        let templates: [usize; 14] = [0, 1, 2, 3, 4, 5, 6, 7, 8, 9, 10, 11, 12, 13];
        let colors: [usize; 3] = [0, 1, 2];
        let template = match choose_random(&templates) {
            Some(t) => t,
            None => 0,
        };
        let color = match choose_random(&colors) {
            Some(c) => c,
            None => 0,
        };
        proof {
            if !(template < CTA_TEMPLATE_COUNT) {
                let k = choose|k: int| 0 <= k < templates@.len() && templates@[k] == template;
                assert(templates@[k] < 14);
            }
            if !(color < 3) {
                let k = choose|k: int| 0 <= k < colors@.len() && colors@[k] == color;
                assert(colors@[k] < 3);
            }
        }
        self.call_to_arms(sender, message, template, color)
    }

    /// A call to arms by `sender` with `message`, using text `template` and
    /// colour `color`; none without a server status.
    pub fn call_to_arms(&self, sender: &str, message: &str, template: usize, color: usize) -> (r: Option<
        CallToArms,
    >)
        requires
            template < CTA_TEMPLATE_COUNT,
            color < 3,
        ensures
            match self@.status {
                None => r is None,
                Some(s) => r matches Some(c) && is_call_to_arms(c, s, sender@, message@, template as int, color as int),
            },
    {
        let s = match &self.status {
            None => return None,
            Some(s) => s,
        };
        let (pre, mid, post) = cta_parts_exec(template);
        let mut d: Vec<char> = Vec::new();
        append_str(&mut d, pre);
        append_str(&mut d, sender);
        append_str(&mut d, mid);
        append_str(&mut d, message);
        append_str(&mut d, post);
        let mods = if s.active_mods.len() == 0 {
            "None".to_owned()
        } else {
            let mut a: Vec<char> = Vec::new();
            append_str(&mut a, "- ");
            append_cta_entries(&mut a, &s.active_mods, "\n- ");
            assert(a@ =~= cta_mods_text(s.active_mods@));
            string_from_chars(a.as_slice())
        };
        let c: u32 = if color == 0 {
            0xe67e22
        } else if color == 1 {
            0xe74c3c
        } else {
            0xf1c40f
        };
        Some(
            CallToArms {
                color: c,
                description: string_from_chars(d.as_slice()),
                server: s.name.clone(),
                server_description: s.description.clone(),
                current_map: s.current_map.clone(),
                mods,
            },
        )
    }

    /// The dashboard's tick at time `now` (milliseconds): with a server
    /// status, the dashboard is posted or edited when a refresh was asked for,
    /// or when a message is up and thirty seconds have passed since the last
    /// update; the update time is then `now` and no refresh is pending.
    pub fn on_tick(&mut self, now: u64) -> (r: DashboardTick)
        ensures
            ({
                let v = old(self)@;
                let due = v.needs_refresh || (v.message_id is Some && now >= v.last_update && now
                    - v.last_update >= DASHBOARD_REFRESH_MS);
                if !due || v.status is None {
                    r is Idle && final(self)@ == v
                } else {
                    &&& final(self)@ == (DashboardView { last_update: now, needs_refresh: false, ..v })
                    &&& match v.message_id {
                        Some(id) => r matches DashboardTick::Edit { message_id, embed } && message_id
                            == id && (embed.title@, embed.description@, embed.map@, embed.players@,
                            embed.active_mods@, embed.all_mods@) == embed_of(v.status->0),
                        None => r matches DashboardTick::Post { embed } && (embed.title@,
                            embed.description@, embed.map@, embed.players@, embed.active_mods@,
                            embed.all_mods@) == embed_of(v.status->0),
                    }
                }
            }),
    {
        if !self.needs_refresh && self.message_id.is_none() {
            return DashboardTick::Idle;
        }
        if !self.needs_refresh && (now < self.last_update || now - self.last_update
            < DASHBOARD_REFRESH_MS) {
            return DashboardTick::Idle;
        }
        let embed = match &self.status {
            None => return DashboardTick::Idle,
            Some(s) => build_embed(s),
        };
        let r = match self.message_id {
            Some(id) => DashboardTick::Edit { message_id: id, embed },
            None => DashboardTick::Post { embed },
        };
        self.last_update = now;
        self.needs_refresh = false;
        r
    }

    /// The dashboard message `id` was posted.
    pub fn message_posted(&mut self, id: u64)
        ensures
            final(self)@ == (DashboardView { message_id: Some(id), ..old(self)@ }),
    {
        self.message_id = Some(id);
    }
}

} // verus!
